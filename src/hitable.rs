use vstd::prelude::*;

use crate::fixed::Fixed;
use crate::material::Material;
use crate::ray::Ray;
use crate::vec3::{Point3, Vec3};

verus! {

/// Where a ray meets a surface.
#[derive(Clone, Copy, Debug)]
pub struct Hit {
    /// Ray parameter of the meeting point.
    pub t: Fixed,
    pub p: Point3<Fixed>,
    /// Surface normal, turned to face against the incoming ray.
    pub normal: Vec3<Fixed>,
    pub material: Material,
    /// The ray arrived from the outer side of the surface.
    pub front_face: bool,
}

impl Hit {
    pub open spec fn new_spec(
        root: Fixed,
        point: Point3<Fixed>,
        outward_normal: Vec3<Fixed>,
        ray: Ray,
        material: Material,
    ) -> Hit {
        let front_face = ray.direction.dot_spec(outward_normal).raw < 0;
        Hit {
            t: root,
            p: point,
            normal: if front_face {
                outward_normal
            } else {
                outward_normal.neg_spec()
            },
            material,
            front_face,
        }
    }

    /// Builds the record, turning the normal against `ray`.
    pub fn new(
        root: Fixed,
        point: Point3<Fixed>,
        outward_normal: Vec3<Fixed>,
        ray: Ray,
        material: Material,
    ) -> (r: Hit)
        ensures
            r == Hit::new_spec(root, point, outward_normal, ray, material),
            outward_normal.wf() ==> r.normal.dot_spec(ray.direction).raw <= 0,
    {
        let front_face = ray.direction.dot(outward_normal).raw < 0;
        let normal = if front_face {
            outward_normal
        } else {
            outward_normal.neg()
        };
        proof {
            Vec3::lemma_dot_commutes(outward_normal, ray.direction);
            if outward_normal.wf() {
                Vec3::lemma_dot_neg(outward_normal, ray.direction);
            }
        }
        Hit { t: root, p: point, normal, material, front_face }
    }

    pub fn root(&self) -> (r: Fixed)
        ensures
            r == self.t,
    {
        self.t
    }

    pub fn point(&self) -> (r: Point3<Fixed>)
        ensures
            r == self.p,
    {
        self.p
    }

    pub fn normal(&self) -> (r: Vec3<Fixed>)
        ensures
            r == self.normal,
    {
        self.normal
    }

    pub fn front_face(&self) -> (r: bool)
        ensures
            r == self.front_face,
    {
        self.front_face
    }

    pub fn material(&self) -> (r: Material)
        ensures
            r == self.material,
    {
        self.material
    }
}

/// `h` kept only where it lies nearer than `bound`.
pub open spec fn narrowed(h: Option<Hit>, bound: Fixed) -> Option<Hit> {
    match h {
        Some(x) => if x.t.raw < bound.raw {
            Some(x)
        } else {
            None
        },
        None => None,
    }
}

/// A hit lies strictly inside `(t_min, t_max)` with its normal facing the ray.
pub open spec fn well_placed(h: Option<Hit>, ray: Ray, t_min: Fixed, t_max: Fixed) -> bool {
    match h {
        Some(x) => t_min.raw < x.t.raw < t_max.raw && x.normal.dot_spec(ray.direction).raw <= 0,
        None => true,
    }
}

/// A surface that a ray may meet.
pub trait Hitable {
    /// The nearest hit strictly inside `(t_min, t_max)`, if any.
    spec fn hit_spec(&self, ray: Ray, t_min: Fixed, t_max: Fixed) -> Option<Hit>;

    fn hit(&self, ray: Ray, t_min: Fixed, t_max: Fixed) -> (r: Option<Hit>)
        ensures
            r == self.hit_spec(ray, t_min, t_max),
    ;

    /// A hit lies inside the interval and faces the ray.
    proof fn lemma_well_placed(&self, ray: Ray, t_min: Fixed, t_max: Fixed)
        ensures
            well_placed(self.hit_spec(ray, t_min, t_max), ray, t_min, t_max),
    ;

    /// Lowering the upper limit only drops the hit when it is no nearer
    /// than the new limit.
    proof fn lemma_narrow(&self, ray: Ray, t_min: Fixed, t_max: Fixed, bound: Fixed)
        requires
            bound.raw <= t_max.raw,
        ensures
            self.hit_spec(ray, t_min, bound) == narrowed(self.hit_spec(ray, t_min, t_max), bound),
    ;
}

} // verus!

verus! {

/// The accumulator scan over a scene: each member is asked only for a hit
/// nearer than the best one found before it.
pub open spec fn scan_hits<H: Hitable>(s: Seq<H>, ray: Ray, t_min: Fixed, t_max: Fixed) -> Option<Hit>
    decreases s.len(),
{
    if s.len() == 0 {
        None
    } else {
        let prev = scan_hits(s.drop_last(), ray, t_min, t_max);
        let bound = match prev {
            Some(h) => h.t,
            None => t_max,
        };
        match s.last().hit_spec(ray, t_min, bound) {
            Some(h) => Some(h),
            None => prev,
        }
    }
}

/// `h` is the nearest of the members' own hits in `(t_min, t_max)`, and
/// there is one exactly when some member is hit.
pub open spec fn nearest_of<H: Hitable>(s: Seq<H>, ray: Ray, t_min: Fixed, t_max: Fixed, h: Option<Hit>) -> bool {
    match h {
        Some(x) => {
            &&& exists|i: int| 0 <= i < s.len() && #[trigger] s[i].hit_spec(ray, t_min, t_max) == Some(x)
            &&& forall|i: int|
                0 <= i < s.len() && (#[trigger] s[i].hit_spec(ray, t_min, t_max)) is Some
                    ==> x.t.raw <= s[i].hit_spec(ray, t_min, t_max)->0.t.raw
        },
        None => forall|i: int| 0 <= i < s.len() ==> (#[trigger] s[i].hit_spec(ray, t_min, t_max)) is None,
    }
}

/// Nearest-surface selection: the scan of a scene returns the hit of least
/// `t` among those that its members return on their own for the whole
/// interval, and nothing when none of them is hit.
pub proof fn lemma_scan_is_nearest<H: Hitable>(s: Seq<H>, ray: Ray, t_min: Fixed, t_max: Fixed)
    ensures
        nearest_of(s, ray, t_min, t_max, scan_hits(s, ray, t_min, t_max)),
        well_placed(scan_hits(s, ray, t_min, t_max), ray, t_min, t_max),
    decreases s.len(),
{
    if s.len() > 0 {
        let init = s.drop_last();
        lemma_scan_is_nearest(init, ray, t_min, t_max);
        let prev = scan_hits(init, ray, t_min, t_max);
        let bound = match prev {
            Some(h) => h.t,
            None => t_max,
        };
        let last = s.last();
        last.lemma_narrow(ray, t_min, t_max, bound);
        last.lemma_well_placed(ray, t_min, t_max);
        let n = s.len() - 1;
        assert(s[n] == last);
        assert forall|i: int| 0 <= i < n implies #[trigger] s[i] == init[i] by {}
        let r = scan_hits(s, ray, t_min, t_max);
        match r {
            Some(x) => {
                if last.hit_spec(ray, t_min, bound) is Some {
                    assert(s[n].hit_spec(ray, t_min, t_max) == Some(x));
                    assert forall|i: int|
                        0 <= i < s.len() && (#[trigger] s[i].hit_spec(ray, t_min, t_max)) is Some
                        implies x.t.raw <= s[i].hit_spec(ray, t_min, t_max)->0.t.raw by {
                        if i < n {
                            assert(init[i].hit_spec(ray, t_min, t_max) is Some);
                        }
                    }
                } else {
                    let w = choose|i: int| 0 <= i < init.len() && #[trigger] init[i].hit_spec(ray, t_min, t_max) == Some(x);
                    assert(s[w].hit_spec(ray, t_min, t_max) == Some(x));
                    assert forall|i: int|
                        0 <= i < s.len() && (#[trigger] s[i].hit_spec(ray, t_min, t_max)) is Some
                        implies x.t.raw <= s[i].hit_spec(ray, t_min, t_max)->0.t.raw by {
                        if i < n {
                            assert(init[i].hit_spec(ray, t_min, t_max) is Some);
                        }
                    }
                }
            },
            None => {
                assert forall|i: int| 0 <= i < s.len() implies (#[trigger] s[i].hit_spec(ray, t_min, t_max)) is None by {
                    if i < n {
                        assert(init[i].hit_spec(ray, t_min, t_max) is None);
                    }
                }
            },
        }
    }
}

/// A scene: every member is asked, and the nearest hit wins.
impl<H: Hitable> Hitable for Vec<H> {
    open spec fn hit_spec(&self, ray: Ray, t_min: Fixed, t_max: Fixed) -> Option<Hit> {
        scan_hits(self@, ray, t_min, t_max)
    }

    fn hit(&self, ray: Ray, t_min: Fixed, t_max: Fixed) -> (r: Option<Hit>) {
        let mut hit: Option<Hit> = None;
        let mut closest_so_far = t_max;
        let mut i: usize = 0;
        while i < self.len()
            invariant
                i <= self@.len(),
                hit == scan_hits(self@.subrange(0, i as int), ray, t_min, t_max),
                closest_so_far == match hit {
                    Some(h) => h.t,
                    None => t_max,
                },
            decreases self@.len() - i,
        {
            assert(self@.subrange(0, i + 1).drop_last() =~= self@.subrange(0, i as int));
            if let Some(h) = self[i].hit(ray, t_min, closest_so_far) {
                closest_so_far = h.t;
                hit = Some(h);
            }
            i = i + 1;
        }
        assert(self@.subrange(0, self@.len() as int) =~= self@);
        hit
    }

    proof fn lemma_well_placed(&self, ray: Ray, t_min: Fixed, t_max: Fixed) {
        lemma_scan_is_nearest(self@, ray, t_min, t_max);
    }

    proof fn lemma_narrow(&self, ray: Ray, t_min: Fixed, t_max: Fixed, bound: Fixed) {
        lemma_scan_narrows(self@, ray, t_min, t_max, bound);
    }
}

proof fn lemma_scan_narrows<H: Hitable>(s: Seq<H>, ray: Ray, t_min: Fixed, t_max: Fixed, bound: Fixed)
    requires
        bound.raw <= t_max.raw,
    ensures
        scan_hits(s, ray, t_min, bound) == narrowed(scan_hits(s, ray, t_min, t_max), bound),
    decreases s.len(),
{
    if s.len() > 0 {
        let init = s.drop_last();
        lemma_scan_narrows(init, ray, t_min, t_max, bound);
        lemma_scan_is_nearest(init, ray, t_min, t_max);
        let p = scan_hits(init, ray, t_min, t_max);
        let q = scan_hits(init, ray, t_min, bound);
        let bp = match p {
            Some(h) => h.t,
            None => t_max,
        };
        let bq = match q {
            Some(h) => h.t,
            None => bound,
        };
        let last = s.last();
        last.lemma_well_placed(ray, t_min, t_max);
        last.lemma_narrow(ray, t_min, t_max, bp);
        last.lemma_narrow(ray, t_min, t_max, bq);
    }
}

} // verus!
