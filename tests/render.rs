use rand::rngs::StdRng;
use rand::SeedableRng;
use raytracer::camera::Camera;
use raytracer::fixed::{Fixed, SCALE};
use raytracer::hitable::Hitable;
use raytracer::material::{first_in_ball, is_in_unit_ball, random_point_in_unit_sphere, Lambertian, Material};
use raytracer::ray::Ray;
use raytracer::render::{background, finish_pixel, ray_color, ray_color_with, render, render_pixel};
use raytracer::sphere::Sphere;
use raytracer::vec3::Vec3;

fn f(milli: i64) -> Fixed {
    Fixed::from_raw(milli * (SCALE / 1000))
}

fn v(x: i64, y: i64, z: i64) -> Vec3<Fixed> {
    Vec3::new(f(x), f(y), f(z))
}

fn raw(a: Vec3<Fixed>) -> (i64, i64, i64) {
    (a.x.raw, a.y.raw, a.z.raw)
}

fn one_sphere_scene() -> Vec<Sphere> {
    let mat = Material::Lambertian(Lambertian::new(v(700, 300, 300)));
    vec![Sphere::new(v(0, 0, -1000), f(500), mat)]
}

fn aspect() -> Fixed {
    Fixed::from_int(16).div(Fixed::from_int(9))
}

#[test]
fn background_zenith_and_nadir() {
    assert_eq!(raw(background(v(0, 1000, 0))), (500_000_000, 700_000_000, SCALE));
    assert_eq!(raw(background(v(0, -1000, 0))), (SCALE, SCALE, SCALE));
    assert_eq!(raw(background(v(0, 3000, 0))), (500_000_000, 700_000_000, SCALE));
    assert_eq!(raw(background(v(1000, 0, 0))), (750_000_000, 850_000_000, SCALE));
    assert_eq!(raw(background(v(0, 0, 0))), (0, 0, 0));
}

#[test]
fn ray_color_on_a_miss_is_the_sky() {
    let mut rng = StdRng::seed_from_u64(1);
    let scene = one_sphere_scene();
    let up = Ray::new(v(0, 0, 0), v(0, 1000, 0));
    assert_eq!(raw(ray_color(up, &scene, 5, &mut rng)), (500_000_000, 700_000_000, SCALE));
    let down = Ray::new(v(0, 0, 0), v(0, -1000, 0));
    assert_eq!(raw(ray_color(down, &scene, 5, &mut rng)), (SCALE, SCALE, SCALE));
    let empty: Vec<Sphere> = Vec::new();
    assert_eq!(raw(ray_color(up, &empty, 1, &mut rng)), (500_000_000, 700_000_000, SCALE));
}

#[test]
fn ray_color_without_bounces_is_black() {
    let mut rng = StdRng::seed_from_u64(2);
    let scene = one_sphere_scene();
    let up = Ray::new(v(0, 0, 0), v(0, 1000, 0));
    assert_eq!(raw(ray_color(up, &scene, 0, &mut rng)), (0, 0, 0));
    let at = Ray::new(v(0, 0, 0), v(0, 0, -1000));
    assert_eq!(raw(ray_color(at, &scene, 0, &mut rng)), (0, 0, 0));
}

#[test]
fn camera_centre_ray_looks_down_the_axis() {
    let camera = Camera::new(aspect());
    let r = camera.ray(f(500), f(500));
    assert_eq!(raw(r.origin), (0, 0, 0));
    assert_eq!(raw(r.direction), (0, 0, -SCALE));
    let corner = camera.ray(f(0), f(0));
    assert_eq!(raw(corner.direction), (-1_777_777_777, -SCALE, -SCALE));
}

#[test]
fn one_bounce_at_the_front_pole_is_black() {
    let camera = Camera::new(aspect());
    let scene = one_sphere_scene();
    let ray = camera.ray(f(500), f(500));
    let hit = scene.hit(ray, f(1), Fixed::from_raw(i64::MAX)).unwrap();
    assert_eq!(hit.root().raw, 500_000_000);
    assert_eq!(raw(hit.point()), (0, 0, -500_000_000));
    let mut rng = StdRng::seed_from_u64(42);
    assert_eq!(raw(ray_color(ray, &scene, 1, &mut rng)), (0, 0, 0));
    let mut rng = StdRng::seed_from_u64(42);
    assert_eq!(raw(render_pixel(&camera, &scene, 100, 100, 201, 201, 1, 1, &mut rng)), (0, 0, 0));
}

#[test]
fn lambertian_scatter_keeps_albedo_and_hit_point() {
    let camera = Camera::new(aspect());
    let scene = one_sphere_scene();
    let ray = camera.ray(f(500), f(500));
    let hit = scene.hit(ray, f(1), Fixed::from_raw(i64::MAX)).unwrap();
    let mut rng = StdRng::seed_from_u64(9);
    for _ in 0..20 {
        let (att, out) = hit.material().scatter(ray, &hit, &mut rng).expect("diffuse never absorbs");
        assert_eq!(raw(att), (700_000_000, 300_000_000, 300_000_000));
        assert_eq!(raw(out.origin), raw(hit.point()));
        assert!(!out.direction.near_zero());
    }
}

#[test]
fn diffuse_with_no_sample_follows_the_normal() {
    let camera = Camera::new(aspect());
    let scene = one_sphere_scene();
    let ray = camera.ray(f(500), f(500));
    let hit = scene.hit(ray, f(1), Fixed::from_raw(i64::MAX)).unwrap();
    let lam = Lambertian::new(v(700, 300, 300));
    let (_, out) = lam.scatter_with(&hit, None).unwrap();
    assert_eq!(raw(out.direction), (0, 0, SCALE));
    let (_, out) = lam.scatter_with(&hit, Some(v(0, 0, -500))).unwrap();
    assert_eq!(raw(out.direction), (0, 0, SCALE));
    let (_, out) = lam.scatter_with(&hit, Some(v(0, 500, 0))).unwrap();
    assert_eq!(raw(out.direction), (0, SCALE, SCALE));
}

#[test]
fn random_points_lie_in_the_unit_ball_and_vary() {
    let mut rng = StdRng::seed_from_u64(3);
    let mut seen = Vec::new();
    for _ in 0..50 {
        let p = random_point_in_unit_sphere(&mut rng).expect("a point is found");
        assert!(p.length_squared().raw < SCALE);
        assert!(p.length().raw > 0);
        seen.push(raw(p));
    }
    assert!(seen.iter().any(|p| *p != seen[0]));
    for _ in 0..50 {
        let q = Vec3::random(&mut rng);
        assert!(0 <= q.x.raw && q.x.raw < SCALE);
        assert!(0 <= q.z.raw && q.z.raw < SCALE);
    }
    let a = Vec3::random_range(&mut rng, f(-1000), f(1000));
    let b = Vec3::random_range(&mut rng, f(-1000), f(1000));
    assert_ne!(raw(a), raw(b));
}

#[test]
fn finishing_averages_takes_root_and_clamps() {
    assert_eq!(raw(finish_pixel(v(1000, 0, 4000), 4)), (500_000_000, 0, 999_000_000));
    assert_eq!(raw(finish_pixel(v(250, 90, 10), 1)), (500_000_000, 300_000_000, 100_000_000));
}

#[test]
fn rendered_image_has_the_requested_shape() {
    let camera = Camera::new(aspect());
    let scene = one_sphere_scene();
    let mut rng = StdRng::seed_from_u64(5);
    let image = render(&camera, &scene, 4, 3, 2, 3, &mut rng);
    assert_eq!(image.len(), 3);
    for row in &image {
        assert_eq!(row.len(), 4);
        for c in row {
            for x in [c.x.raw, c.y.raw, c.z.raw] {
                assert!(0 <= x && x <= 999_000_000);
            }
        }
    }
}

#[test]
fn sky_pixel_of_an_empty_scene() {
    let camera = Camera::new(aspect());
    let empty: Vec<Sphere> = Vec::new();
    let mut rng = StdRng::seed_from_u64(8);
    let c = render_pixel(&camera, &empty, 1, 1, 3, 3, 4, 5, &mut rng);
    assert!(c.x.raw > 700_000_000 && c.x.raw < 999_000_000);
    assert_eq!(c.z.raw, 999_000_000);
}

#[test]
fn first_in_ball_skips_points_outside() {
    assert!(is_in_unit_ball(v(500, 0, 0)));
    assert!(!is_in_unit_ball(v(1000, 0, 0)));
    assert!(!is_in_unit_ball(v(0, 0, 0)));
    assert!(!is_in_unit_ball(v(-900, -900, 0)));
    let draws = vec![v(-900, -900, 0), v(0, 0, 0), v(0, 300, -400), v(100, 0, 0)];
    assert_eq!(raw(first_in_ball(&draws).unwrap()), (0, 300_000_000, -400_000_000));
    assert!(first_in_ball(&vec![v(-1000, -1000, -1000), v(999, 999, 0)]).is_none());
    assert!(first_in_ball(&Vec::new()).is_none());
}

#[test]
fn sampled_points_lie_in_the_cube() {
    let mut rng = StdRng::seed_from_u64(11);
    for _ in 0..100 {
        let p = random_point_in_unit_sphere(&mut rng).unwrap();
        for c in [p.x.raw, p.y.raw, p.z.raw] {
            assert!(-SCALE <= c && c < SCALE);
        }
    }
}

#[test]
fn two_bounces_with_given_draws() {
    let camera = Camera::new(aspect());
    let scene = one_sphere_scene();
    let ray = camera.ray(f(500), f(500));
    let draws = vec![None];
    let c = ray_color_with(ray, &scene, 2, &draws);
    assert_eq!(raw(c), (525_000_000, 255_000_000, 300_000_000));
    assert_eq!(raw(ray_color_with(ray, &scene, 2, &draws)), raw(c));
    assert_eq!(raw(ray_color_with(ray, &scene, 1, &draws)), (0, 0, 0));
    let up = Ray::new(v(0, 0, 0), v(0, 1000, 0));
    assert_eq!(raw(ray_color_with(up, &scene, 3, &Vec::new())), (500_000_000, 700_000_000, SCALE));
}

#[test]
fn same_seed_same_colour() {
    let camera = Camera::new(aspect());
    let scene = one_sphere_scene();
    let ray = camera.ray(f(500), f(500));
    let mut a = StdRng::seed_from_u64(77);
    let mut b = StdRng::seed_from_u64(77);
    for _ in 0..10 {
        let ca = ray_color(ray, &scene, 5, &mut a);
        let cb = ray_color(ray, &scene, 5, &mut b);
        assert_eq!(raw(ca), raw(cb));
        for x in [ca.x.raw, ca.y.raw, ca.z.raw] {
            assert!(0 <= x && x <= SCALE);
        }
    }
}

#[test]
fn sky_along_a_short_direction() {
    let tiny = Vec3::new(Fixed::from_raw(0), Fixed::from_raw(10_000), Fixed::from_raw(0));
    assert_eq!(raw(background(tiny)), (500_000_000, 700_000_000, SCALE));
    let empty: Vec<Sphere> = Vec::new();
    let mut rng = StdRng::seed_from_u64(4);
    assert_eq!(raw(ray_color(Ray::new(v(0, 0, 0), tiny), &empty, 3, &mut rng)), (500_000_000, 700_000_000, SCALE));
}
