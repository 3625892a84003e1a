use raytracer::fixed::{Fixed, LIMIT, SCALE};
use raytracer::hitable::{Hit, Hitable};
use raytracer::material::{Lambertian, Material, Metal};
use raytracer::ray::Ray;
use raytracer::sphere::Sphere;
use raytracer::vec3::Vec3;

/// A number given in thousandths.
fn f(milli: i64) -> Fixed {
    Fixed::from_raw(milli * (SCALE / 1000))
}

fn v(x: i64, y: i64, z: i64) -> Vec3<Fixed> {
    Vec3::new(f(x), f(y), f(z))
}

fn raw(a: Vec3<Fixed>) -> (i64, i64, i64) {
    (a.x.raw, a.y.raw, a.z.raw)
}

fn matte() -> Material {
    Material::Lambertian(Lambertian::new(v(700, 300, 300)))
}

fn ball(center: Vec3<Fixed>, radius: i64) -> Sphere {
    Sphere::new(center, f(radius), matte())
}

fn t_min() -> Fixed {
    f(1)
}

fn t_max() -> Fixed {
    Fixed::from_raw(LIMIT)
}

#[test]
fn fixed_arithmetic_is_exact_where_it_can_be() {
    assert_eq!(f(1500).mul(f(2000)).raw, 3 * SCALE);
    assert_eq!(f(1000).div(f(3000)).raw, 333_333_333);
    assert_eq!(f(-1000).div(f(3000)).raw, -333_333_333);
    assert_eq!(f(2000).sqrt().raw, 1_414_213_562);
    assert_eq!(f(250).sqrt().raw, 500_000_000);
    assert_eq!(Fixed::from_int(3).raw, 3 * SCALE);
    assert_eq!(f(1000).add(f(-250)).raw, 750_000_000);
    assert_eq!(f(1000).sub(f(250)).raw, 750_000_000);
    assert_eq!(f(1000).neg().raw, -SCALE);
}

#[test]
fn fixed_arithmetic_saturates() {
    let big = Fixed::from_raw(LIMIT);
    assert_eq!(big.add(f(1)).raw, LIMIT);
    assert_eq!(big.neg().sub(f(1)).raw, -LIMIT);
    assert_eq!(Fixed::from_raw(i64::MIN).neg().raw, LIMIT);
    assert_eq!(Fixed::from_int(i64::MAX).raw, LIMIT);
    assert_eq!(big.mul(big).raw, LIMIT);
}

#[test]
fn vector_operations() {
    let a = v(3000, 4000, 0);
    assert_eq!(a.dot(v(1000, 2000, 3000)).raw, 11 * SCALE);
    assert_eq!(a.length_squared().raw, 25 * SCALE);
    assert_eq!(a.length().raw, 5 * SCALE);
    assert_eq!(raw(a.unit()), (600_000_000, 800_000_000, 0));
    assert_eq!(raw(a.neg()), (-3 * SCALE, -4 * SCALE, 0));
    assert_eq!(raw(a.add(v(1000, 1000, 1000))), (4 * SCALE, 5 * SCALE, SCALE));
    assert_eq!(raw(a.sub(v(1000, 1000, 1000))), (2 * SCALE, 3 * SCALE, -SCALE));
    assert_eq!(raw(a.mul(v(500, 250, 7000))), (1_500_000_000, SCALE, 0));
    assert_eq!(raw(a.scale(f(500))), (1_500_000_000, 2 * SCALE, 0));
    assert_eq!(raw(a.div(f(2000))), (1_500_000_000, 2 * SCALE, 0));
    assert_eq!(raw(v(4000, 250, 0).sqrt()), (2 * SCALE, 500_000_000, 0));
    assert_eq!(raw(v(-500, 500, 1500).clamp(f(0), f(999))), (0, 500_000_000, 999_000_000));
}

#[test]
fn near_zero_looks_at_magnitudes() {
    assert!(Vec3::new(Fixed::from_raw(-9), Fixed::from_raw(9), Fixed::from_raw(0)).near_zero());
    assert!(!Vec3::new(Fixed::from_raw(10), Fixed::from_raw(0), Fixed::from_raw(0)).near_zero());
    assert!(!v(-1000, 0, 0).near_zero());
    assert!(!v(0, 0, -1).near_zero());
}

#[test]
fn tuple_into_vector() {
    let c: Vec3<u16> = (1, 2, 3).into();
    assert_eq!((c.x, c.y, c.z), (1, 2, 3));
}

#[test]
fn ray_point_at_time() {
    let r = Ray::new(v(1000, 2000, 3000), v(1000, 0, -500));
    assert_eq!(raw(r.point_at_time(f(2000))), (3 * SCALE, 2 * SCALE, 2 * SCALE));
    assert_eq!(raw(r.point_at_time(f(-1000))), (0, 2 * SCALE, 3_500_000_000));
}

#[test]
fn sphere_hit_returns_nearer_root() {
    let s = ball(v(0, 0, -1000), 500);
    let ray = Ray::new(v(0, 0, 0), v(0, 0, -1000));
    let h = s.hit(ray, t_min(), t_max()).expect("the ray passes through the sphere");
    assert_eq!(h.root().raw, 500_000_000);
    assert_eq!(raw(h.point()), (0, 0, -500_000_000));
    assert_eq!(raw(h.normal()), (0, 0, SCALE));
    assert!(h.front_face());
    assert!(h.normal().dot(ray.direction).raw <= 0);
}

#[test]
fn sphere_hit_takes_farther_root_when_nearer_is_outside() {
    let s = ball(v(0, 0, -1000), 500);
    let ray = Ray::new(v(0, 0, 0), v(0, 0, -1000));
    let h = s.hit(ray, f(600), t_max()).expect("the far side lies in the interval");
    assert_eq!(h.root().raw, 1_500_000_000);
    assert_eq!(raw(h.point()), (0, 0, -1_500_000_000));
    assert_eq!(raw(h.normal()), (0, 0, SCALE));
    assert!(!h.front_face());
    assert!(s.hit(ray, f(600), f(1500)).is_none());
    assert!(s.hit(ray, f(1500), t_max()).is_none());
}

#[test]
fn sphere_hit_scaled_direction() {
    let s = ball(v(0, 0, -1000), 500);
    let ray = Ray::new(v(0, 0, 0), v(0, 0, -2000));
    let h = s.hit(ray, t_min(), t_max()).unwrap();
    assert_eq!(h.root().raw, 250_000_000);
    assert_eq!(raw(h.point()), (0, 0, -500_000_000));
}

#[test]
fn sphere_miss() {
    let s = ball(v(0, 0, -1000), 500);
    assert!(s.hit(Ray::new(v(0, 0, 0), v(0, 1000, 0)), t_min(), t_max()).is_none());
    assert!(s.hit(Ray::new(v(0, 600, 0), v(0, 0, -1000)), t_min(), t_max()).is_none());
    assert!(s.hit(Ray::new(v(0, 0, 0), v(0, 0, 1000)), t_min(), t_max()).is_none());
    assert!(s.hit(Ray::new(v(0, 0, 0), v(0, 0, 0)), t_min(), t_max()).is_none());
}

#[test]
fn hit_from_inside_flips_normal() {
    let s = ball(v(0, 0, -1000), 500);
    let ray = Ray::new(v(0, 0, -1000), v(0, 0, -1000));
    let h = s.hit(ray, t_min(), t_max()).unwrap();
    assert_eq!(h.root().raw, 500_000_000);
    assert!(!h.front_face());
    assert_eq!(raw(h.normal()), (0, 0, SCALE));
    assert!(h.normal().dot(ray.direction).raw <= 0);
}

#[test]
fn hit_new_orients_normal() {
    let ray = Ray::new(v(0, 0, 0), v(1000, 0, 0));
    let out = Hit::new(f(1000), v(1000, 0, 0), v(1000, 0, 0), ray, matte());
    assert!(!out.front_face());
    assert_eq!(raw(out.normal()), (-SCALE, 0, 0));
    let inn = Hit::new(f(1000), v(1000, 0, 0), v(-1000, 0, 0), ray, matte());
    assert!(inn.front_face());
    assert_eq!(raw(inn.normal()), (-SCALE, 0, 0));
}

#[test]
fn nearest_of_two_overlapping_spheres() {
    let ray = Ray::new(v(0, 0, 0), v(0, 0, -1000));
    let a = ball(v(0, 0, -1000), 500);
    let b = ball(v(0, 0, -1300), 500);
    let ta = a.hit(ray, t_min(), t_max()).unwrap().root();
    let tb = b.hit(ray, t_min(), t_max()).unwrap().root();
    assert_eq!(ta.raw, 500_000_000);
    assert_eq!(tb.raw, 800_000_000);
    let scene = vec![b, a];
    assert_eq!(scene.hit(ray, t_min(), t_max()).unwrap().root().raw, ta.raw.min(tb.raw));
    let scene = vec![a, b];
    assert_eq!(scene.hit(ray, t_min(), t_max()).unwrap().root().raw, ta.raw.min(tb.raw));
}

#[test]
fn empty_scene_is_never_hit() {
    let scene: Vec<Sphere> = Vec::new();
    assert!(scene.hit(Ray::new(v(0, 0, 0), v(0, 0, -1000)), t_min(), t_max()).is_none());
}

#[test]
fn metal_reflects_and_absorbs() {
    let metal = Metal::new(v(800, 600, 200));
    let ray = Ray::new(v(0, 0, 0), v(0, 0, -2000));
    let hit = Hit::new(f(500), v(0, 0, -1000), v(0, 0, 1000), ray, Material::Metal(metal));
    let (att, out) = metal.scatter(ray, &hit).expect("head-on reflection leaves the surface");
    assert_eq!(raw(att), (800_000_000, 600_000_000, 200_000_000));
    assert_eq!(raw(out.origin), (0, 0, -SCALE));
    assert_eq!(raw(out.direction), (0, 0, SCALE));

    let slanted = Ray::new(v(0, 0, 0), v(3000, 0, -4000));
    let hit = Hit::new(f(500), v(0, 0, -1000), v(0, 0, 1000), slanted, Material::Metal(metal));
    let (_, out) = metal.scatter(slanted, &hit).unwrap();
    assert_eq!(raw(out.direction), (600_000_000, 0, 800_000_000));

    let grazing = Ray::new(v(0, 0, 0), v(1000, 0, 0));
    let hit = Hit::new(f(500), v(0, 0, -1000), v(0, 0, 1000), grazing, Material::Metal(metal));
    assert!(metal.scatter(grazing, &hit).is_none());
}

#[test]
fn short_vectors_keep_their_length_and_direction() {
    let tiny = Vec3::new(Fixed::from_raw(0), Fixed::from_raw(10_000), Fixed::from_raw(0));
    assert_eq!(tiny.length().raw, 10_000);
    assert_eq!(raw(tiny.unit()), (0, SCALE, 0));
    let small = Vec3::new(Fixed::from_raw(0), Fixed::from_raw(40_000), Fixed::from_raw(0));
    assert_eq!(raw(small.unit()), (0, SCALE, 0));
    let least = Vec3::new(Fixed::from_raw(3), Fixed::from_raw(4), Fixed::from_raw(0));
    assert_eq!(least.length().raw, 5);
    assert_eq!(raw(least.unit()), (600_000_000, 800_000_000, 0));
    let one = Vec3::new(Fixed::from_raw(1), Fixed::from_raw(0), Fixed::from_raw(0));
    assert_eq!(one.length().raw, 1);
    assert_eq!(v(0, 0, 0).length().raw, 0);
    assert!(v(0, 0, 0).is_zero());
    assert!(!one.is_zero());
}

#[test]
fn short_direction_still_meets_the_sphere() {
    let s = ball(v(0, 1000, 0), 500);
    let ray = Ray::new(v(0, 0, 0), Vec3::new(Fixed::from_raw(0), Fixed::from_raw(10_000), Fixed::from_raw(0)));
    let h = s.hit(ray, t_min(), t_max()).expect("the roots lie inside the interval");
    assert!((h.root().raw - 50_000 * SCALE).abs() <= SCALE / 1000);
    assert!((h.point().y.raw - 500_000_000).abs() <= 10);
    assert!(h.front_face());
}

#[test]
fn metal_reflects_a_short_direction() {
    let metal = Metal::new(v(800, 600, 200));
    let ray = Ray::new(v(0, 0, 0), Vec3::new(Fixed::from_raw(0), Fixed::from_raw(0), Fixed::from_raw(-10_000)));
    let hit = Hit::new(f(500), v(0, 0, -1000), v(0, 0, 1000), ray, Material::Metal(metal));
    let (_, out) = metal.scatter(ray, &hit).expect("the reflection leaves the surface");
    assert_eq!(raw(out.direction), (0, 0, SCALE));
    let zero = Ray::new(v(0, 0, 0), v(0, 0, 0));
    let hit = Hit::new(f(500), v(0, 0, -1000), v(0, 0, 1000), zero, Material::Metal(metal));
    assert!(metal.scatter(zero, &hit).is_none());
}
