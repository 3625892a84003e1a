use raytracer::fixed::{Fixed, SCALE};
use raytracer::ppm::{ToPPM3, PPM};
use raytracer::vec3::Vec3;

#[test]
fn display_ppm() {
    let ppm = PPM::<u16, 2, 3>::new(Box::new([
        [(1, 10, 20).into(), (5, 2, 5).into()],
        [(5, 7, 4).into(), (1, 5, 4).into()],
        [(1, 10, 21).into(), (5, 2, 5).into()],
    ]));

    assert_eq!(
        "P3\n2 3\n21\n1 10 21\n5 2 5\n5 7 4\n1 5 4\n1 10 20\n5 2 5\n",
        ppm.to_string()
    )
}

#[test]
fn fixed_levels_scale_by_256_and_saturate() {
    assert_eq!(Fixed::from_raw(SCALE / 2).to_ppm3(), 128);
    assert_eq!(Fixed::from_raw(999_000_000).to_ppm3(), 255);
    assert_eq!(Fixed::from_raw(-SCALE).to_ppm3(), 0);
    assert_eq!(Fixed::from_raw(SCALE * 1000).to_ppm3(), 65535);
}

#[test]
fn ppm_of_fixed_colours() {
    let half = Fixed::from_raw(SCALE / 2);
    let zero = Fixed::from_raw(0);
    let ppm = PPM::<Fixed, 1, 2>::new(Box::new([
        [Vec3::new(half, zero, zero)],
        [Vec3::new(zero, zero, half)],
    ]));
    assert_eq!("P3\n1 2\n128\n0 0 128\n128 0 0\n", ppm.to_string());
}

#[test]
fn empty_image_has_zero_maximum() {
    let ppm = PPM::<u16, 0, 0>::new(Box::new([]));
    assert_eq!("P3\n0 0\n0\n", ppm.to_string());
}
