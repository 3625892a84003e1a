use vstd::prelude::*;

use crate::fixed::{clip_wide, fx, lemma_div_monotone, lemma_sqrt_nonneg, Fixed};
use crate::hitable::{Hit, Hitable};
use crate::material::Material;
use crate::ray::Ray;
use crate::vec3::Vec3;

verus! {

/// A ball of positive radius with one material.
#[derive(Clone, Copy, Debug)]
pub struct Sphere {
    center: Vec3<Fixed>,
    radius: Fixed,
    material: Material,
}

/// The ray with its direction doubled until it carries enough digits
/// (`Vec3::spread_spec`); its parameter runs `spread_factor` times slower.
pub open spec fn spread_ray(ray: Ray) -> Ray {
    Ray { origin: ray.origin, direction: ray.direction.spread_spec() }
}

/// Parameter `t` of a spread ray as a parameter of the ray itself: `t * f`.
pub open spec fn stretch(t: Fixed, f: int) -> Fixed {
    fx(t.raw * f)
}

fn stretch_by(t: Fixed, f: i64) -> (r: Fixed)
    requires
        1 <= f <= 0x1_0000_0000,
    ensures
        r == stretch(t, f as int),
{
    let w = t.raw as i128;
    assert(-0x1_0000_0000_0000_0000_0000_0000 <= w * f <= 0x1_0000_0000_0000_0000_0000_0000)
        by (nonlinear_arith)
        requires
            -0x8000_0000_0000_0000 <= w <= 0x8000_0000_0000_0000,
            1 <= f <= 0x1_0000_0000,
    ;
    Fixed::from_raw(clip_wide(w * f as i128))
}

proof fn lemma_stretch_monotone(x: Fixed, y: Fixed, f: int)
    requires
        x.raw <= y.raw,
        f >= 1,
    ensures
        stretch(x, f).raw <= stretch(y, f).raw,
{
    assert(x.raw * f <= y.raw * f) by (nonlinear_arith)
        requires
            x.raw <= y.raw,
            f >= 1,
    ;
}

/// Inside the open interval `(t_min, t_max)`.
pub open spec fn inside(t: Fixed, t_min: Fixed, t_max: Fixed) -> bool {
    t_min.raw < t.raw < t_max.raw
}

impl Sphere {
    #[verifier::type_invariant]
    spec fn inv(self) -> bool {
        self.radius.raw > 0
    }

    pub closed spec fn center(self) -> Vec3<Fixed> {
        self.center
    }

    pub closed spec fn radius(self) -> Fixed {
        self.radius
    }

    pub closed spec fn material(self) -> Material {
        self.material
    }

    pub fn new(center: Vec3<Fixed>, radius: Fixed, material: Material) -> (r: Sphere)
        requires
            radius.raw > 0,
        ensures
            r.center() == center,
            r.radius() == radius,
            r.material() == material,
    {
        Sphere { center, radius, material }
    }

    /// `|D|^2` of the quadratic `|O + tD - C|^2 = r^2`.
    pub open spec fn coef_a(self, ray: Ray) -> Fixed {
        ray.direction.length_squared_spec()
    }

    /// `D . (O - C)`.
    pub open spec fn coef_half_b(self, ray: Ray) -> Fixed {
        ray.direction.dot_spec(ray.origin.sub_spec(self.center()))
    }

    /// `|O - C|^2 - r^2`.
    pub open spec fn coef_c(self, ray: Ray) -> Fixed {
        ray.origin.sub_spec(self.center()).length_squared_spec().sub_spec(
            self.radius().mul_spec(self.radius()),
        )
    }

    pub open spec fn discriminant(self, ray: Ray) -> Fixed {
        let half_b = self.coef_half_b(ray);
        half_b.mul_spec(half_b).sub_spec(self.coef_a(ray).mul_spec(self.coef_c(ray)))
    }

    /// The nearer root `(-half_b - sqrt(discriminant)) / a`.
    pub open spec fn near_root(self, ray: Ray) -> Fixed {
        self.coef_half_b(ray).neg_spec().sub_spec(self.discriminant(ray).sqrt_spec()).div_spec(
            self.coef_a(ray),
        )
    }

    /// The farther root `(-half_b + sqrt(discriminant)) / a`.
    pub open spec fn far_root(self, ray: Ray) -> Fixed {
        self.coef_half_b(ray).neg_spec().add_spec(self.discriminant(ray).sqrt_spec()).div_spec(
            self.coef_a(ray),
        )
    }

    /// The record for the point at parameter `u` of the spread ray `sray`,
    /// which is parameter `t` of `ray`; the outward normal is
    /// `(point - center) / radius`.
    pub open spec fn hit_at(self, ray: Ray, sray: Ray, u: Fixed, t: Fixed) -> Hit {
        let point = sray.point_at_time_spec(u);
        Hit::new_spec(t, point, self.outward_normal(point), ray, self.material())
    }

    proof fn lemma_roots_ordered(self, ray: Ray)
        requires
            self.discriminant(ray).raw >= 0,
            self.coef_a(ray).raw > 0,
        ensures
            self.near_root(ray).raw <= self.far_root(ray).raw,
    {
        let s = self.discriminant(ray).sqrt_spec();
        lemma_sqrt_nonneg(self.discriminant(ray));
        let m = self.coef_half_b(ray).neg_spec();
        assert(m.sub_spec(s).raw <= m.add_spec(s).raw);
        lemma_div_monotone(m.sub_spec(s), m.add_spec(s), self.coef_a(ray));
    }
}

impl Sphere {
    /// Outward normal at `point`: `(point - center) / radius`.
    pub open spec fn outward_normal(self, point: Vec3<Fixed>) -> Vec3<Fixed> {
        point.sub_spec(self.center()).div_spec(self.radius())
    }

    /// The nearer root as a parameter of `ray`.
    pub open spec fn near_t(self, ray: Ray) -> Fixed {
        stretch(self.near_root(spread_ray(ray)), ray.direction.spread_factor())
    }

    /// The farther root as a parameter of `ray`.
    pub open spec fn far_t(self, ray: Ray) -> Fixed {
        stretch(self.far_root(spread_ray(ray)), ray.direction.spread_factor())
    }

    /// When the nearer root lies strictly inside the interval, the hit is at
    /// that root, at the point of the ray there, with the outward normal or
    /// its negation, whichever faces against the ray.
    pub proof fn lemma_hits_nearer_root(self, ray: Ray, t_min: Fixed, t_max: Fixed)
        requires
            self.coef_a(spread_ray(ray)).raw > 0,
            self.discriminant(spread_ray(ray)).raw >= 0,
            inside(self.near_t(ray), t_min, t_max),
        ensures
            self.hit_spec(ray, t_min, t_max) matches Some(h) && h.t == self.near_t(ray) && h.p
                == spread_ray(ray).point_at_time_spec(self.near_root(spread_ray(ray))) && (h.normal
                == self.outward_normal(h.p)
                || h.normal == self.outward_normal(h.p).neg_spec()) && h.normal.dot_spec(
                ray.direction,
            ).raw <= 0,
    {
        self.lemma_well_placed(ray, t_min, t_max);
    }

    /// A ray whose discriminant is negative (it passes farther from the
    /// center than the radius) meets nothing.
    pub proof fn lemma_miss(self, ray: Ray, t_min: Fixed, t_max: Fixed)
        requires
            self.discriminant(spread_ray(ray)).raw < 0,
        ensures
            self.hit_spec(ray, t_min, t_max) is None,
    {
    }
}

impl Hitable for Sphere {
    /// No hit for a ray whose direction has no length or whose discriminant
    /// is negative; else the nearer root when it lies strictly inside the
    /// interval, else the farther one when it does.
    open spec fn hit_spec(&self, ray: Ray, t_min: Fixed, t_max: Fixed) -> Option<Hit> {
        let sray = spread_ray(ray);
        if self.coef_a(sray).raw <= 0 || self.discriminant(sray).raw < 0 {
            None
        } else if inside(self.near_t(ray), t_min, t_max) {
            Some(self.hit_at(ray, sray, self.near_root(sray), self.near_t(ray)))
        } else if inside(self.far_t(ray), t_min, t_max) {
            Some(self.hit_at(ray, sray, self.far_root(sray), self.far_t(ray)))
        } else {
            None
        }
    }

    fn hit(&self, ray: Ray, t_min: Fixed, t_max: Fixed) -> (r: Option<Hit>) {
        proof {
            use_type_invariant(self);
        }
        let (direction, factor) = ray.direction.spread();
        let sray = Ray::new(ray.origin, direction);
        let oc = sray.origin.sub(self.center);
        let a = sray.direction.length_squared();
        let half_b = sray.direction.dot(oc);
        let c = oc.length_squared().sub(self.radius.mul(self.radius));
        let discriminant = half_b.mul(half_b).sub(a.mul(c));
        if a.raw == 0 || discriminant.raw < 0 {
            return None;
        }
        let sqrtd = discriminant.sqrt();
        let near = half_b.neg().sub(sqrtd).div(a);
        let near_t = stretch_by(near, factor);
        let (u, root) = if t_min.raw < near_t.raw && near_t.raw < t_max.raw {
            (near, near_t)
        } else {
            let far = half_b.neg().add(sqrtd).div(a);
            let far_t = stretch_by(far, factor);
            if t_min.raw < far_t.raw && far_t.raw < t_max.raw {
                (far, far_t)
            } else {
                return None;
            }
        };
        let point = sray.point_at_time(u);
        let outward_normal = point.sub(self.center).div(self.radius);
        Some(Hit::new(root, point, outward_normal, ray, self.material))
    }

    proof fn lemma_well_placed(&self, ray: Ray, t_min: Fixed, t_max: Fixed) {
        let h = self.hit_spec(ray, t_min, t_max);
        if let Some(x) = h {
            let outward = self.outward_normal(x.p);
            assert(outward.wf());
            Vec3::lemma_dot_commutes(outward, ray.direction);
            Vec3::lemma_dot_neg(outward, ray.direction);
        }
    }

    proof fn lemma_narrow(&self, ray: Ray, t_min: Fixed, t_max: Fixed, bound: Fixed) {
        let sray = spread_ray(ray);
        if self.coef_a(sray).raw > 0 && self.discriminant(sray).raw >= 0 {
            self.lemma_roots_ordered(sray);
            ray.direction.lemma_spread_factor_pos(32);
            lemma_stretch_monotone(self.near_root(sray), self.far_root(sray), ray.direction.spread_factor());
        }
    }
}

} // verus!
