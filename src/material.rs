use vstd::prelude::*;

use crate::fixed::{Fixed, SCALE};
use crate::hitable::Hit;
use crate::ray::Ray;
use crate::vec3::{Color, Point3, Vec3};
use rand::rngs::StdRng;

verus! {

/// Draws allowed when sampling the unit ball before giving up.
pub const MAX_DRAWS: usize = 64;

/// Each component lies in `[0, 1]`.
pub open spec fn unit_color(c: Color<Fixed>) -> bool {
    &&& 0 <= c.x.raw <= SCALE
    &&& 0 <= c.y.raw <= SCALE
    &&& 0 <= c.z.raw <= SCALE
}

/// A point strictly inside the unit ball, other than its center.
pub open spec fn in_unit_ball(p: Point3<Fixed>) -> bool {
    p.length_squared_spec().raw < SCALE && !p.is_zero_spec()
}

/// Each component lies in `[-1, 1)`.
pub open spec fn in_cube(p: Point3<Fixed>) -> bool {
    &&& -SCALE <= p.x.raw < SCALE
    &&& -SCALE <= p.y.raw < SCALE
    &&& -SCALE <= p.z.raw < SCALE
}

/// The first of `draws[i..]` inside the unit ball, if any.
pub open spec fn first_in_ball_from(draws: Seq<Point3<Fixed>>, i: int) -> Option<Point3<Fixed>>
    decreases draws.len() - i,
{
    if i < 0 || i >= draws.len() {
        None
    } else if in_unit_ball(draws[i]) {
        Some(draws[i])
    } else {
        first_in_ball_from(draws, i + 1)
    }
}

/// The first of `draws` inside the unit ball, if any.
pub open spec fn first_in_ball_spec(draws: Seq<Point3<Fixed>>) -> Option<Point3<Fixed>> {
    first_in_ball_from(draws, 0)
}

/// Draws the sampler may have made: at most `MAX_DRAWS` points of the cube,
/// all of them used up when none fell inside the ball.
pub open spec fn sampler_draws(draws: Seq<Point3<Fixed>>) -> bool {
    &&& draws.len() <= MAX_DRAWS
    &&& forall|i: int| 0 <= i < draws.len() ==> in_cube(#[trigger] draws[i])
    &&& first_in_ball_spec(draws) is None ==> draws.len() == MAX_DRAWS
}

/// What a diffuse bounce may draw: the first point inside the unit ball of
/// some draws of the sampler, or nothing when all of them missed it.
pub open spec fn valid_sample(s: Option<Point3<Fixed>>) -> bool {
    exists|draws: Seq<Point3<Fixed>>| sampler_draws(draws) && s == first_in_ball_spec(draws)
}

/// The scan finds nothing exactly when every draw from `i` on misses the
/// ball; what it finds is one of those draws, inside the ball.
pub proof fn lemma_first_in_ball_from(draws: Seq<Point3<Fixed>>, i: int)
    requires
        0 <= i <= draws.len(),
    ensures
        first_in_ball_from(draws, i) is None <==> forall|j: int|
            i <= j < draws.len() ==> !in_unit_ball(#[trigger] draws[j]),
        first_in_ball_from(draws, i) matches Some(p) ==> exists|j: int|
            i <= j < draws.len() && #[trigger] draws[j] == p && in_unit_ball(p),
    decreases draws.len() - i,
{
    if i < draws.len() {
        lemma_first_in_ball_from(draws, i + 1);
    }
}

/// A sample of the sampler is inside the ball and the cube.
pub proof fn lemma_valid_sample_inside(s: Option<Point3<Fixed>>)
    requires
        valid_sample(s),
    ensures
        s matches Some(p) ==> in_unit_ball(p) && in_cube(p),
{
    let draws = choose|draws: Seq<Point3<Fixed>>| sampler_draws(draws) && s == first_in_ball_spec(draws);
    lemma_first_in_ball_from(draws, 0);
}

/// Nothing is a possible sample: every draw may miss the ball.
pub proof fn lemma_none_is_valid()
    ensures
        valid_sample(None),
{
    let m = Fixed { raw: (-SCALE) as i64 };
    let corner = Vec3 { x: m, y: m, z: m };
    assert(m.raw * m.raw == 1_000_000_000_000_000_000) by (nonlinear_arith)
        requires
            m.raw == -1_000_000_000,
    ;
    assert(1_000_000_000_000_000_000int / 1_000_000_000int == 1_000_000_000) by (nonlinear_arith);
    assert(corner.length_squared_spec().raw == 3 * SCALE);
    let draws = Seq::new(MAX_DRAWS as nat, |i: int| corner);
    lemma_first_in_ball_from(draws, 0);
    assert(sampler_draws(draws));
}

/// `p` lies inside the unit ball.
#[verifier::when_used_as_spec(in_unit_ball)]
pub fn is_in_unit_ball(p: Point3<Fixed>) -> (r: bool)
    ensures
        r == in_unit_ball(p),
{
    p.length_squared().raw < SCALE && !p.is_zero()
}

/// The first of `draws` inside the unit ball, if any.
pub fn first_in_ball(draws: &Vec<Point3<Fixed>>) -> (r: Option<Point3<Fixed>>)
    ensures
        r == first_in_ball_spec(draws@),
{
    let mut i: usize = 0;
    while i < draws.len()
        invariant
            i <= draws@.len(),
            first_in_ball_spec(draws@) == first_in_ball_from(draws@, i as int),
        decreases draws@.len() - i,
    {
        if is_in_unit_ball(draws[i]) {
            return Some(draws[i]);
        }
        i = i + 1;
    }
    None
}

/// Draws uniformly from the cube `[-1, 1)^3` until a point falls inside the
/// unit ball, and returns that point; `None` once `MAX_DRAWS` draws have all
/// missed it.
pub fn random_point_in_unit_sphere(rng: &mut StdRng) -> (r: Option<Point3<Fixed>>)
    ensures
        exists|draws: Seq<Point3<Fixed>>| sampler_draws(draws) && r == first_in_ball_spec(draws),
        valid_sample(r),
        r matches Some(p) ==> in_unit_ball(p) && in_cube(p),
{
    let mut draws: Vec<Point3<Fixed>> = Vec::new();
    while draws.len() < MAX_DRAWS
        invariant
            draws@.len() <= MAX_DRAWS,
            forall|i: int| 0 <= i < draws@.len() ==> in_cube(#[trigger] draws@[i]),
            forall|i: int| 0 <= i < draws@.len() ==> !in_unit_ball(#[trigger] draws@[i]),
        decreases MAX_DRAWS - draws@.len(),
    {
        let v = Vec3::random_range(rng, Fixed::from_raw(-SCALE), Fixed::from_raw(SCALE));
        draws.push(v);
        if is_in_unit_ball(v) {
            let r = first_in_ball(&draws);
            proof {
                lemma_first_in_ball_from(draws@, 0);
                assert(draws@[draws@.len() - 1] == v);
                assert(sampler_draws(draws@));
                lemma_valid_sample_inside(r);
            }
            return r;
        }
    }
    let r = first_in_ball(&draws);
    proof {
        lemma_first_in_ball_from(draws@, 0);
        assert(sampler_draws(draws@));
    }
    r
}

/// Outgoing direction of a diffuse bounce off `normal` for the drawn `sample`.
pub open spec fn diffuse_direction(normal: Vec3<Fixed>, sample: Option<Point3<Fixed>>) -> Vec3<Fixed> {
    match sample {
        Some(p) => {
            let d = normal.add_spec(p.unit_spec());
            if d.near_zero_spec() {
                normal
            } else {
                d
            }
        },
        None => normal,
    }
}

/// Matte surface: scatters every ray in a random direction about the normal.
#[derive(Clone, Copy, Debug)]
pub struct Lambertian {
    albedo: Color<Fixed>,
}

impl Lambertian {
    #[verifier::type_invariant]
    spec fn inv(self) -> bool {
        unit_color(self.albedo)
    }

    pub closed spec fn albedo(self) -> Color<Fixed> {
        self.albedo
    }

    pub fn new(albedo: Color<Fixed>) -> (r: Lambertian)
        requires
            unit_color(albedo),
        ensures
            r.albedo() == albedo,
    {
        Lambertian { albedo }
    }

    pub open spec fn scatter_spec(self, hit: Hit, sample: Option<Point3<Fixed>>) -> Option<(Color<Fixed>, Ray)> {
        Some((self.albedo(), Ray { origin: hit.p, direction: diffuse_direction(hit.normal, sample) }))
    }

    /// The bounce for a given draw from the unit ball.
    pub fn scatter_with(&self, hit: &Hit, sample: Option<Point3<Fixed>>) -> (r: Option<(Color<Fixed>, Ray)>)
        requires
            sample matches Some(p) ==> in_unit_ball(p),
        ensures
            r == self.scatter_spec(*hit, sample),
            unit_color(self.albedo()),
    {
        proof {
            use_type_invariant(self);
        }
        let direction = match sample {
            Some(p) => {
                let d = hit.normal.add(p.unit());
                if d.near_zero() {
                    hit.normal
                } else {
                    d
                }
            },
            None => hit.normal,
        };
        Some((self.albedo, Ray::new(hit.p, direction)))
    }

    /// Diffuse bounce: always scatters, attenuated by the albedo, from the hit point.
    pub fn scatter(&self, ray: Ray, hit: &Hit, rng: &mut StdRng) -> (r: Option<(Color<Fixed>, Ray)>)
        ensures
            exists|s: Option<Point3<Fixed>>| valid_sample(s) && r == self.scatter_spec(*hit, s),
            r matches Some((attenuation, scattered)) && attenuation == self.albedo()
                && scattered.origin == hit.p,
            unit_color(self.albedo()),
    {
        let sample = random_point_in_unit_sphere(rng);
        proof {
            lemma_valid_sample_inside(sample);
        }
        self.scatter_with(hit, sample)
    }
}

pub open spec fn reflect_spec(v: Vec3<Fixed>, n: Vec3<Fixed>) -> Vec3<Fixed> {
    v.sub_spec(n.scale_spec(Fixed { raw: (2 * SCALE) as i64 }).scale_spec(v.dot_spec(n)))
}

/// Mirror image of `v` about the plane with normal `n`: `v - n * 2 * (v . n)`.
#[verifier::when_used_as_spec(reflect_spec)]
pub fn reflect(v: Vec3<Fixed>, n: Vec3<Fixed>) -> (r: Vec3<Fixed>)
    ensures
        r == reflect_spec(v, n),
{
    v.sub(n.scale(Fixed::from_raw(2 * SCALE)).scale(v.dot(n)))
}

/// Mirror surface: reflects the incoming ray about the normal.
#[derive(Clone, Copy, Debug)]
pub struct Metal {
    albedo: Color<Fixed>,
}

impl Metal {
    #[verifier::type_invariant]
    spec fn inv(self) -> bool {
        unit_color(self.albedo)
    }

    pub closed spec fn albedo(self) -> Color<Fixed> {
        self.albedo
    }

    pub fn new(albedo: Color<Fixed>) -> (r: Metal)
        requires
            unit_color(albedo),
        ensures
            r.albedo() == albedo,
    {
        Metal { albedo }
    }

    /// Absorbs the ray where the reflection does not leave the surface, or
    /// where the incoming direction is the zero vector.
    pub open spec fn scatter_spec(self, ray: Ray, hit: Hit) -> Option<(Color<Fixed>, Ray)> {
        if ray.direction.is_zero_spec() {
            None
        } else {
            let reflected = reflect_spec(ray.direction.unit_spec(), hit.normal);
            if reflected.dot_spec(hit.normal).raw > 0 {
                Some((self.albedo(), Ray { origin: hit.p, direction: reflected }))
            } else {
                None
            }
        }
    }

    pub fn scatter(&self, ray: Ray, hit: &Hit) -> (r: Option<(Color<Fixed>, Ray)>)
        ensures
            r == self.scatter_spec(ray, *hit),
            unit_color(self.albedo()),
    {
        proof {
            use_type_invariant(self);
        }
        if ray.direction.is_zero() {
            return None;
        }
        let reflected = reflect(ray.direction.unit(), hit.normal);
        let scattered = Ray::new(hit.p, reflected);
        if scattered.direction.dot(hit.normal).raw > 0 {
            Some((self.albedo, scattered))
        } else {
            None
        }
    }
}

/// The kinds of surface material.
#[derive(Clone, Copy, Debug)]
pub enum Material {
    Lambertian(Lambertian),
    Metal(Metal),
}

impl Material {
    /// The bounce of `ray` at `hit` for a given draw from the unit ball
    /// (which only a diffuse surface uses).
    pub open spec fn scatter_spec(self, ray: Ray, hit: Hit, sample: Option<Point3<Fixed>>) -> Option<(Color<Fixed>, Ray)> {
        match self {
            Material::Lambertian(l) => l.scatter_spec(hit, sample),
            Material::Metal(m) => m.scatter_spec(ray, hit),
        }
    }

    pub open spec fn albedo(self) -> Color<Fixed> {
        match self {
            Material::Lambertian(l) => l.albedo(),
            Material::Metal(m) => m.albedo(),
        }
    }

    /// The bounce of `ray` at `hit` for a given draw from the unit ball.
    pub fn scatter_with(&self, ray: Ray, hit: &Hit, sample: Option<Point3<Fixed>>) -> (r: Option<(Color<Fixed>, Ray)>)
        requires
            sample matches Some(p) ==> in_unit_ball(p),
        ensures
            r == self.scatter_spec(ray, *hit, sample),
            unit_color(self.albedo()),
            r matches Some((a, _)) ==> a == self.albedo(),
    {
        match self {
            Material::Lambertian(l) => l.scatter_with(hit, sample),
            Material::Metal(m) => m.scatter(ray, hit),
        }
    }

    /// Decides whether `ray` scatters at `hit`: the attenuation and the
    /// outgoing ray, or nothing when the ray is absorbed.
    pub fn scatter(&self, ray: Ray, hit: &Hit, rng: &mut StdRng) -> (r: Option<(Color<Fixed>, Ray)>)
        ensures
            exists|s: Option<Point3<Fixed>>| valid_sample(s) && r == self.scatter_spec(ray, *hit, s),
            unit_color(self.albedo()),
            r matches Some((a, _)) ==> a == self.albedo(),
    {
        match self {
            Material::Lambertian(l) => l.scatter(ray, hit, rng),
            Material::Metal(m) => {
                let r = m.scatter(ray, hit);
                proof {
                    lemma_none_is_valid();
                }
                assert(valid_sample(None) && r == self.scatter_spec(ray, *hit, None));
                r
            },
        }
    }
}

} // verus!
