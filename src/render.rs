use vstd::prelude::*;

use crate::camera::Camera;
use crate::fixed::{lemma_div_nonneg, lemma_mul_unit, Fixed, LIMIT, SCALE};
use crate::hitable::Hitable;
use crate::material::{in_unit_ball, unit_color, valid_sample};
use crate::random::uniform_raw;
use crate::ray::Ray;
use crate::vec3::{clamp_fixed, Color, Point3, Vec3};
use rand::rngs::StdRng;

verus! {

/// Lower limit of the ray parameter for scene queries, `0.001`: keeps a
/// freshly scattered ray from meeting the surface it leaves.
pub const T_MIN_RAW: i64 = 1_000_000;

/// Largest colour component written out, `0.999`.
pub const CEILING_RAW: i64 = 999_000_000;

pub open spec fn rgb(r: int, g: int, b: int) -> Color<Fixed> {
    Vec3 { x: Fixed { raw: r as i64 }, y: Fixed { raw: g as i64 }, z: Fixed { raw: b as i64 } }
}

pub open spec fn black() -> Color<Fixed> {
    rgb(0, 0, 0)
}

/// Colour of the horizon.
pub open spec fn white() -> Color<Fixed> {
    rgb(SCALE as int, SCALE as int, SCALE as int)
}

/// Colour of the zenith: `(0.5, 0.7, 1.0)`.
pub open spec fn sky_blue() -> Color<Fixed> {
    rgb(500_000_000, 700_000_000, SCALE as int)
}

/// Blend parameter of the sky for a direction: `0.5 * (unit.y + 1)`, held
/// in `[0, 1]` against rounding in the unit vector.
pub open spec fn sky_t(direction: Vec3<Fixed>) -> Fixed {
    let half = Fixed { raw: 500_000_000 };
    let one = Fixed { raw: SCALE };
    clamp_fixed(half.mul_spec(direction.unit_spec().y.add_spec(one)), Fixed { raw: 0 }, one)
}

/// Background seen along `direction`: white at the horizon blended into sky
/// blue at the zenith. The zero vector has no direction and carries no light.
pub open spec fn background_spec(direction: Vec3<Fixed>) -> Color<Fixed> {
    if direction.is_zero_spec() {
        black()
    } else {
        let t = sky_t(direction);
        white().scale_spec(Fixed { raw: SCALE }.sub_spec(t)).add_spec(sky_blue().scale_spec(t))
    }
}

#[verifier::when_used_as_spec(background_spec)]
pub fn background(direction: Vec3<Fixed>) -> (r: Color<Fixed>)
    ensures
        r == background_spec(direction),
        r.nonneg(),
        unit_color(r),
{
    let zero = Fixed::from_raw(0);
    let one = Fixed::from_raw(SCALE);
    if direction.is_zero() {
        return Vec3::new(zero, zero, zero);
    }
    let unit_direction = direction.unit();
    let t = Fixed::from_raw(500_000_000).mul(unit_direction.y.add(one));
    let t = if t.raw < 0 {
        zero
    } else if t.raw > SCALE {
        one
    } else {
        t
    };
    let white = Vec3::new(one, one, one);
    let blue = Vec3::new(Fixed::from_raw(500_000_000), Fixed::from_raw(700_000_000), one);
    let rest = one.sub(t);
    proof {
        lemma_mul_unit(one, rest);
        lemma_mul_unit(blue.x, t);
        lemma_mul_unit(blue.y, t);
        lemma_mul_unit(one, t);
    }
    white.scale(rest).add(blue.scale(t))
}

/// The first draw of a sequence of diffuse samples, if any.
pub open spec fn first_sample(s: Seq<Option<Point3<Fixed>>>) -> Option<Point3<Fixed>> {
    if s.len() > 0 {
        s[0]
    } else {
        None
    }
}

pub open spec fn later_samples(s: Seq<Option<Point3<Fixed>>>) -> Seq<Option<Point3<Fixed>>> {
    if s.len() > 0 {
        s.drop_first()
    } else {
        s
    }
}

pub open spec fn valid_samples(s: Seq<Option<Point3<Fixed>>>) -> bool {
    forall|i: int| 0 <= i < s.len() ==> valid_sample(#[trigger] s[i])
}

/// Colour carried back along `ray` through `world` with `depth` bounces
/// left, where the diffuse bounces draw from `samples` in order: black once
/// the bounces run out or the ray is absorbed, the background on a miss,
/// and otherwise the attenuation times the colour of the scattered ray.
pub open spec fn trace<H: Hitable>(world: H, ray: Ray, depth: nat, samples: Seq<Option<Point3<Fixed>>>) -> Color<Fixed>
    decreases depth,
{
    if depth == 0 {
        black()
    } else {
        match world.hit_spec(ray, Fixed { raw: T_MIN_RAW }, Fixed { raw: LIMIT }) {
            None => background_spec(ray.direction),
            Some(hit) => match hit.material.scatter_spec(ray, hit, first_sample(samples)) {
                None => black(),
                Some((attenuation, scattered)) => attenuation.mul_spec(
                    trace(world, scattered, (depth - 1) as nat, later_samples(samples)),
                ),
            },
        }
    }
}

/// Draws that a diffuse bounce can use: every point given lies in the ball.
pub open spec fn usable_samples(s: Seq<Option<Point3<Fixed>>>) -> bool {
    forall|i: int| 0 <= i < s.len() ==> (#[trigger] s[i] matches Some(p) ==> in_unit_ball(p))
}

/// The draws from index `k` on.
pub open spec fn samples_from(s: Seq<Option<Point3<Fixed>>>, k: int) -> Seq<Option<Point3<Fixed>>> {
    if k < s.len() {
        s.subrange(k, s.len() as int)
    } else {
        Seq::empty()
    }
}

/// Path integrator for given draws of the diffuse bounces: the same ray,
/// scene, depth and draws always give the same colour.
pub fn ray_color_with<H: Hitable>(ray: Ray, world: &H, depth: usize, samples: &Vec<Option<Point3<Fixed>>>) -> (r: Color<Fixed>)
    requires
        usable_samples(samples@),
    ensures
        r == trace(*world, ray, depth as nat, samples@),
{
    assert(samples_from(samples@, 0) =~= samples@);
    trace_from(ray, world, depth, samples, 0)
}

fn trace_from<H: Hitable>(ray: Ray, world: &H, depth: usize, samples: &Vec<Option<Point3<Fixed>>>, k: usize) -> (r: Color<Fixed>)
    requires
        usable_samples(samples@),
        k <= samples@.len(),
    ensures
        r == trace(*world, ray, depth as nat, samples_from(samples@, k as int)),
    decreases depth,
{
    let zero = Fixed::from_raw(0);
    if depth == 0 {
        return Vec3::new(zero, zero, zero);
    }
    match world.hit(ray, Fixed::from_raw(T_MIN_RAW), Fixed::from_raw(LIMIT)) {
        None => background(ray.direction),
        Some(hit) => {
            let sample = if k < samples.len() {
                samples[k]
            } else {
                None
            };
            let next_k = if k < samples.len() {
                k + 1
            } else {
                k
            };
            proof {
                let s = samples_from(samples@, k as int);
                assert(first_sample(s) == sample);
                assert(later_samples(s) =~= samples_from(samples@, next_k as int));
            }
            match hit.material.scatter_with(ray, &hit, sample) {
                None => Vec3::new(zero, zero, zero),
                Some((attenuation, next)) => {
                    let c = trace_from(next, world, depth - 1, samples, next_k);
                    attenuation.mul(c)
                },
            }
        },
    }
}

/// Path integrator: the colour seen along `ray`, for some draws of the
/// diffuse bounces.
pub fn ray_color<H: Hitable>(ray: Ray, world: &H, depth: usize, rng: &mut StdRng) -> (r: Color<Fixed>)
    ensures
        exists|s: Seq<Option<Point3<Fixed>>>| valid_samples(s) && r == trace(*world, ray, depth as nat, s),
        depth == 0 ==> r == black(),
        r.nonneg(),
        unit_color(r),
    decreases depth,
{
    let zero = Fixed::from_raw(0);
    if depth == 0 {
        proof {
            let s = Seq::<Option<Point3<Fixed>>>::empty();
            assert(valid_samples(s) && black() == trace(*world, ray, depth as nat, s));
        }
        return Vec3::new(zero, zero, zero);
    }
    match world.hit(ray, Fixed::from_raw(T_MIN_RAW), Fixed::from_raw(LIMIT)) {
        None => {
            let c = background(ray.direction);
            proof {
                let s = Seq::<Option<Point3<Fixed>>>::empty();
                assert(valid_samples(s) && c == trace(*world, ray, depth as nat, s));
            }
            c
        },
        Some(hit) => {
            let scattered = hit.material.scatter(ray, &hit, rng);
            let ghost s0 = choose|s0: Option<Point3<Fixed>>| valid_sample(s0) && scattered
                == hit.material.scatter_spec(ray, hit, s0);
            match scattered {
                None => {
                    proof {
                        let s = seq![s0];
                        assert(first_sample(s) == s0);
                        assert(valid_samples(s) && black() == trace(*world, ray, depth as nat, s));
                    }
                    Vec3::new(zero, zero, zero)
                },
                Some((attenuation, next)) => {
                    let c = ray_color(next, world, depth - 1, rng);
                    let ghost rest = choose|s: Seq<Option<Point3<Fixed>>>| valid_samples(s) && c == trace(
                        *world,
                        next,
                        (depth - 1) as nat,
                        s,
                    );
                    proof {
                        let s = seq![s0] + rest;
                        assert(first_sample(s) == s0);
                        assert(later_samples(s) =~= rest);
                        assert(valid_samples(s)) by {
                            assert forall|i: int| 0 <= i < s.len() implies valid_sample(#[trigger] s[i]) by {
                                if i > 0 {
                                    assert(s[i] == rest[i - 1]);
                                }
                            }
                        }
                        assert(attenuation.mul_spec(c) == trace(*world, ray, depth as nat, s));
                        lemma_mul_unit(attenuation.x, c.x);
                        lemma_mul_unit(attenuation.y, c.y);
                        lemma_mul_unit(attenuation.z, c.z);
                    }
                    attenuation.mul(c)
                },
            }
        },
    }
}

} // verus!

verus! {

/// One sample of a pixel: the two jitters in `[0, 1)` and the draws of its
/// diffuse bounces.
pub type Draw = (Fixed, Fixed, Seq<Option<Point3<Fixed>>>);

pub open spec fn valid_draw(d: Draw) -> bool {
    &&& 0 <= d.0.raw < SCALE
    &&& 0 <= d.1.raw < SCALE
    &&& valid_samples(d.2)
}

/// Viewport coordinate `(index + jitter) / (extent - 1)`.
pub open spec fn viewport_coord(index: int, jitter: Fixed, extent: int) -> Fixed {
    crate::fixed::fx(index * SCALE).add_spec(jitter).div_spec(crate::fixed::fx((extent - 1) * SCALE))
}

/// Sum of the colours of the samples `draws` of pixel `(row, col)`.
pub open spec fn sample_sum<H: Hitable>(
    camera: Camera,
    world: H,
    row: int,
    col: int,
    width: int,
    height: int,
    depth: nat,
    draws: Seq<Draw>,
) -> Color<Fixed>
    decreases draws.len(),
{
    if draws.len() == 0 {
        black()
    } else {
        let d = draws.last();
        let ray = camera.ray_spec(viewport_coord(col, d.0, width), viewport_coord(row, d.1, height));
        sample_sum(camera, world, row, col, width, height, depth, draws.drop_last()).add_spec(
            trace(world, ray, depth, d.2),
        )
    }
}

/// Final colour from the sum of `samples` samples: the average, its square
/// root (gamma 2), clamped to `[0, 0.999]`.
pub open spec fn finish_spec(sum: Color<Fixed>, samples: int) -> Color<Fixed> {
    sum.div_spec(crate::fixed::fx(samples * SCALE)).sqrt_spec().clamp_spec(
        Fixed { raw: 0 },
        Fixed { raw: CEILING_RAW },
    )
}

pub fn finish_pixel(sum: Color<Fixed>, samples: i64) -> (r: Color<Fixed>)
    requires
        sum.nonneg(),
        samples >= 1,
    ensures
        r == finish_spec(sum, samples as int),
        0 <= r.x.raw <= CEILING_RAW,
        0 <= r.y.raw <= CEILING_RAW,
        0 <= r.z.raw <= CEILING_RAW,
{
    let n = Fixed::from_int(samples);
    assert(n.raw > 0) by (nonlinear_arith)
        requires
            n == crate::fixed::fx(samples * SCALE),
            samples >= 1,
    ;
    proof {
        lemma_div_nonneg(sum.x, n);
        lemma_div_nonneg(sum.y, n);
        lemma_div_nonneg(sum.z, n);
    }
    sum.div(n).sqrt().clamp(Fixed::from_raw(0), Fixed::from_raw(CEILING_RAW))
}

/// `c` is what pixel `(row, col)` may come out as: the finished sum of
/// `samples` samples for some valid draws.
pub open spec fn pixel_outcome<H: Hitable>(
    camera: Camera,
    world: H,
    row: int,
    col: int,
    width: int,
    height: int,
    samples: int,
    depth: nat,
    c: Color<Fixed>,
) -> bool {
    exists|draws: Seq<Draw>|
        {
            &&& draws.len() == samples
            &&& forall|i: int| 0 <= i < draws.len() ==> valid_draw(#[trigger] draws[i])
            &&& sample_sum(camera, world, row, col, width, height, depth, draws).nonneg()
            &&& c == finish_spec(sample_sum(camera, world, row, col, width, height, depth, draws), samples)
        }
}

/// Colour of pixel `(row, col)` of a `width` by `height` image: `samples`
/// jittered rays through the camera, each traced with `max_depth` bounces,
/// averaged and finished. Row 0 is the bottom of the viewport.
pub fn render_pixel<H: Hitable>(
    camera: &Camera,
    world: &H,
    row: i64,
    col: i64,
    width: i64,
    height: i64,
    samples: i64,
    max_depth: usize,
    rng: &mut StdRng,
) -> (r: Color<Fixed>)
    requires
        width >= 2,
        height >= 2,
        samples >= 1,
    ensures
        pixel_outcome(*camera, *world, row as int, col as int, width as int, height as int, samples as int, max_depth as nat, r),
        0 <= r.x.raw <= CEILING_RAW,
        0 <= r.y.raw <= CEILING_RAW,
        0 <= r.z.raw <= CEILING_RAW,
{
    let zero = Fixed::from_raw(0);
    let col_at = Fixed::from_int(col);
    let row_at = Fixed::from_int(row);
    let across = Fixed::from_int(width - 1);
    let up = Fixed::from_int(height - 1);
    assert(across.raw > 0 && up.raw > 0) by (nonlinear_arith)
        requires
            across == crate::fixed::fx((width - 1) * SCALE),
            up == crate::fixed::fx((height - 1) * SCALE),
            width >= 2,
            height >= 2,
    ;
    let mut color = Vec3::new(zero, zero, zero);
    let ghost mut draws: Seq<Draw> = Seq::empty();
    let mut k: i64 = 0;
    while k < samples
        invariant
            0 <= k <= samples,
            draws.len() == k,
            forall|i: int| 0 <= i < draws.len() ==> valid_draw(#[trigger] draws[i]),
            color == sample_sum(*camera, *world, row as int, col as int, width as int, height as int, max_depth as nat, draws),
            color.nonneg(),
            across == crate::fixed::fx((width - 1) * SCALE),
            up == crate::fixed::fx((height - 1) * SCALE),
            col_at == crate::fixed::fx(col * SCALE),
            row_at == crate::fixed::fx(row * SCALE),
            across.raw > 0,
            up.raw > 0,
        decreases samples - k,
    {
        let ju = Fixed::from_raw(uniform_raw(rng, 0, SCALE));
        let jv = Fixed::from_raw(uniform_raw(rng, 0, SCALE));
        let u = col_at.add(ju).div(across);
        let v = row_at.add(jv).div(up);
        let ray = camera.ray(u, v);
        let c = ray_color(ray, world, max_depth, rng);
        let ghost s = choose|s: Seq<Option<Point3<Fixed>>>| valid_samples(s) && c == trace(*world, ray, max_depth as nat, s);
        proof {
            let d: Draw = (ju, jv, s);
            let next = draws.push(d);
            assert(next.drop_last() =~= draws);
            assert(next.last() == d);
            assert forall|i: int| 0 <= i < next.len() implies valid_draw(#[trigger] next[i]) by {
                if i < draws.len() {
                    assert(next[i] == draws[i]);
                }
            }
            draws = next;
        }
        color = color.add(c);
        k = k + 1;
    }
    finish_pixel(color, samples)
}

} // verus!

verus! {

/// The whole image, `height` rows of `width` pixels; row 0 is the bottom of
/// the viewport. Each pixel is rendered on its own, as `render_pixel` does.
pub fn render<H: Hitable>(
    camera: &Camera,
    world: &H,
    width: i64,
    height: i64,
    samples: i64,
    max_depth: usize,
    rng: &mut StdRng,
) -> (r: Vec<Vec<Color<Fixed>>>)
    requires
        width >= 2,
        height >= 2,
        samples >= 1,
    ensures
        r@.len() == height,
        forall|h: int| 0 <= h < height ==> (#[trigger] r@[h])@.len() == width,
        forall|h: int, w: int|
            0 <= h < height && 0 <= w < width ==> pixel_outcome(
                *camera,
                *world,
                h,
                w,
                width as int,
                height as int,
                samples as int,
                max_depth as nat,
                #[trigger] r@[h]@[w],
            ),
{
    let mut rows: Vec<Vec<Color<Fixed>>> = Vec::new();
    let mut h: i64 = 0;
    while h < height
        invariant
            0 <= h <= height,
            width >= 2,
            height >= 2,
            samples >= 1,
            rows@.len() == h,
            forall|i: int| 0 <= i < h ==> (#[trigger] rows@[i])@.len() == width,
            forall|i: int, w: int|
                0 <= i < h && 0 <= w < width ==> pixel_outcome(
                    *camera,
                    *world,
                    i,
                    w,
                    width as int,
                    height as int,
                    samples as int,
                    max_depth as nat,
                    #[trigger] rows@[i]@[w],
                ),
        decreases height - h,
    {
        let mut row: Vec<Color<Fixed>> = Vec::new();
        let mut w: i64 = 0;
        while w < width
            invariant
                0 <= w <= width,
                width >= 2,
                height >= 2,
                samples >= 1,
                row@.len() == w,
                forall|j: int|
                    0 <= j < w ==> pixel_outcome(
                        *camera,
                        *world,
                        h as int,
                        j,
                        width as int,
                        height as int,
                        samples as int,
                        max_depth as nat,
                        #[trigger] row@[j],
                    ),
            decreases width - w,
        {
            let c = render_pixel(camera, world, h, w, width, height, samples, max_depth, rng);
            row.push(c);
            w = w + 1;
        }
        rows.push(row);
        h = h + 1;
    }
    rows
}

} // verus!
