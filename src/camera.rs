use vstd::prelude::*;

use crate::fixed::{Fixed, SCALE};
use crate::ray::Ray;
use crate::vec3::{Point3, Vec3};

verus! {

/// A pinhole camera at the origin looking down `-z` onto a viewport two
/// units high, one unit away.
#[derive(Clone, Copy, Debug)]
pub struct Camera {
    origin: Point3<Fixed>,
    lower_left_corner: Point3<Fixed>,
    horizontal: Vec3<Fixed>,
    vertical: Vec3<Fixed>,
}

pub open spec fn raw_fixed(raw: int) -> Fixed {
    Fixed { raw: raw as i64 }
}

pub open spec fn raw_vec(x: int, y: int, z: int) -> Vec3<Fixed> {
    Vec3 { x: raw_fixed(x), y: raw_fixed(y), z: raw_fixed(z) }
}

impl Camera {
    pub closed spec fn origin(self) -> Point3<Fixed> {
        self.origin
    }

    pub closed spec fn lower_left_corner(self) -> Point3<Fixed> {
        self.lower_left_corner
    }

    pub closed spec fn horizontal(self) -> Vec3<Fixed> {
        self.horizontal
    }

    pub closed spec fn vertical(self) -> Vec3<Fixed> {
        self.vertical
    }

    /// The viewport is `2 * aspect_ratio` wide; its lower-left corner is
    /// `origin - horizontal / 2 - vertical / 2 - (0, 0, 1)`.
    pub fn new(aspect_ratio: Fixed) -> (r: Camera)
        ensures
            r.origin() == raw_vec(0, 0, 0),
            r.horizontal() == (Vec3 { x: aspect_ratio.mul_spec(raw_fixed(2 * SCALE)), y: raw_fixed(0), z: raw_fixed(0) }),
            r.vertical() == raw_vec(0, 2 * SCALE, 0),
            r.lower_left_corner() == raw_vec(0, 0, 0).sub_spec(r.horizontal().div_spec(raw_fixed(2 * SCALE)))
                .sub_spec(r.vertical().div_spec(raw_fixed(2 * SCALE))).sub_spec(raw_vec(0, 0, SCALE as int)),
    {
        let two = Fixed::from_raw(2 * SCALE);
        let zero = Fixed::from_raw(0);
        let viewport_height = two;
        let viewport_width = aspect_ratio.mul(viewport_height);
        let focal_length = Fixed::from_raw(SCALE);
        let origin = Vec3::new(zero, zero, zero);
        let horizontal = Vec3::new(viewport_width, zero, zero);
        let vertical = Vec3::new(zero, viewport_height, zero);
        let lower_left_corner = origin.sub(horizontal.div(two)).sub(vertical.div(two)).sub(
            Vec3::new(zero, zero, focal_length),
        );
        Camera { origin, lower_left_corner, horizontal, vertical }
    }

    pub open spec fn ray_spec(&self, u: Fixed, v: Fixed) -> Ray {
        Ray {
            origin: self.origin(),
            direction: self.lower_left_corner().add_spec(self.horizontal().scale_spec(u)).add_spec(
                self.vertical().scale_spec(v),
            ),
        }
    }

    /// The ray from the eye through viewport point `(u, v)`, both in `[0, 1]`
    /// across the viewport (not clamped).
    #[verifier::when_used_as_spec(ray_spec)]
    pub fn ray(&self, u: Fixed, v: Fixed) -> (r: Ray)
        ensures
            r == self.ray_spec(u, v),
    {
        Ray::new(self.origin, self.lower_left_corner.add(self.horizontal.scale(u)).add(self.vertical.scale(v)))
    }
}

} // verus!
