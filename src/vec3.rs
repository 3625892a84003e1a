use vstd::prelude::*;

use crate::fixed::{clip_wide, fx, isqrt, isqrt_unsigned, lemma_isqrt_zero, tdiv, Fixed, SCALE};
use crate::random::uniform_raw;
use rand::rngs::StdRng;

verus! {

/// Magnitude (in raw units) below which every component must lie for a
/// vector to count as near zero: `1e-8`.
pub const NEAR_ZERO_RAW: i64 = 10;

/// Three components, used as a point, a direction or a colour.
#[derive(Clone, Copy, Debug)]
pub struct Vec3<T> {
    pub x: T,
    pub y: T,
    pub z: T,
}

/// A colour: the components are red, green and blue.
pub type Color<T> = Vec3<T>;

/// A position in space.
pub type Point3<T> = Vec3<T>;

impl<T> Vec3<T> {
    pub fn new(x: T, y: T, z: T) -> (r: Self)
        ensures
            r.x == x,
            r.y == y,
            r.z == z,
    {
        Vec3 { x, y, z }
    }
}

impl<T> From<(T, T, T)> for Vec3<T> {
    fn from(t: (T, T, T)) -> (r: Self) {
        Vec3 { x: t.0, y: t.1, z: t.2 }
    }
}

impl<T> vstd::std_specs::convert::FromSpecImpl<(T, T, T)> for Vec3<T> {
    open spec fn obeys_from_spec() -> bool {
        true
    }

    open spec fn from_spec(t: (T, T, T)) -> Self {
        Vec3 { x: t.0, y: t.1, z: t.2 }
    }
}

/// Raw magnitude below which a vector is doubled before it is normalised.
pub const SPREAD_RAW: i64 = 0x8000_0000;

pub open spec fn two_to(n: nat) -> int
    decreases n,
{
    if n == 0 {
        1
    } else {
        2 * two_to((n - 1) as nat)
    }
}

proof fn lemma_two_to_le(n: nat, m: nat)
    requires
        n <= m,
    ensures
        1 <= two_to(n) <= two_to(m),
    decreases m,
{
    if n < m {
        lemma_two_to_le(n, (m - 1) as nat);
    } else if n > 0 {
        lemma_two_to_le((n - 1) as nat, (n - 1) as nat);
    }
}

proof fn lemma_two_to_bound(n: nat)
    requires
        n <= 32,
    ensures
        1 <= two_to(n) <= 0x1_0000_0000,
        n < 32 ==> two_to(n) <= 0x8000_0000,
{
    reveal_with_fuel(two_to, 33);
    lemma_two_to_le(n, 32);
    if n < 32 {
        lemma_two_to_le(n, 31);
    }
}

/// `|a|` as an unsigned wide integer.
fn magnitude(a: i64) -> (r: u128)
    ensures
        r == a || r == -a,
        r <= 0x8000_0000_0000_0000,
{
    if a < 0 {
        (-(a as i128)) as u128
    } else {
        a as u128
    }
}

/// One term of a dot product: `a * b`, scaled back and rounded toward zero.
fn product_term(a: i64, b: i64) -> (r: i128)
    ensures
        r == tdiv(a * b, SCALE as int),
        -0x10_0000_0000_0000_0000_0000_0000 <= r <= 0x10_0000_0000_0000_0000_0000_0000,
{
    let wa = a as i128;
    let wb = b as i128;
    assert(-0x4000_0000_0000_0000_0000_0000_0000_0000 <= wa * wb
        <= 0x4000_0000_0000_0000_0000_0000_0000_0000) by (nonlinear_arith)
        requires
            -0x8000_0000_0000_0000 <= a <= 0x8000_0000_0000_0000,
            -0x8000_0000_0000_0000 <= b <= 0x8000_0000_0000_0000,
            wa == a,
            wb == b,
    ;
    let p = wa * wb;
    let q = if p >= 0 {
        p / SCALE as i128
    } else {
        let q = (-p) / SCALE as i128;
        -q
    };
    assert(-0x10_0000_0000_0000_0000_0000_0000 <= q <= 0x10_0000_0000_0000_0000_0000_0000)
        by (nonlinear_arith)
        requires
            q == tdiv(p as int, SCALE as int),
            -0x4000_0000_0000_0000_0000_0000_0000_0000 <= p
                <= 0x4000_0000_0000_0000_0000_0000_0000_0000,
    ;
    q
}

/// Sum of the three terms of a dot product, saturated.
pub open spec fn dot3(a0: i64, a1: i64, a2: i64, b0: i64, b1: i64, b2: i64) -> Fixed {
    fx(tdiv(a0 * b0, SCALE as int) + tdiv(a1 * b1, SCALE as int) + tdiv(a2 * b2, SCALE as int))
}

pub open spec fn near_zero_raw(v: i64) -> bool {
    -NEAR_ZERO_RAW < v < NEAR_ZERO_RAW
}

pub open spec fn clamp_fixed(t: Fixed, min: Fixed, max: Fixed) -> Fixed {
    if t.raw < min.raw {
        min
    } else if t.raw > max.raw {
        max
    } else {
        t
    }
}

fn clamp_one(t: Fixed, min: Fixed, max: Fixed) -> (r: Fixed)
    ensures
        r == clamp_fixed(t, min, max),
{
    if t.raw < min.raw {
        min
    } else if t.raw > max.raw {
        max
    } else {
        t
    }
}

impl Vec3<Fixed> {
    /// Every component lies in the symmetric range of `Fixed`.
    pub open spec fn wf(self) -> bool {
        self.x.wf() && self.y.wf() && self.z.wf()
    }

    /// Every component is at least zero.
    pub open spec fn nonneg(self) -> bool {
        self.x.raw >= 0 && self.y.raw >= 0 && self.z.raw >= 0
    }

    /// Uniformly random vector with each component in `[0, 1)`.
    pub fn random(rng: &mut StdRng) -> (r: Self)
        ensures
            0 <= r.x.raw < SCALE,
            0 <= r.y.raw < SCALE,
            0 <= r.z.raw < SCALE,
    {
        Self::random_range(rng, Fixed::from_raw(0), Fixed::from_raw(SCALE))
    }

    /// Uniformly random vector with each component in `[min, max)`.
    pub fn random_range(rng: &mut StdRng, min: Fixed, max: Fixed) -> (r: Self)
        requires
            min.raw < max.raw,
        ensures
            min.raw <= r.x.raw < max.raw,
            min.raw <= r.y.raw < max.raw,
            min.raw <= r.z.raw < max.raw,
    {
        let x = uniform_raw(rng, min.raw, max.raw);
        let y = uniform_raw(rng, min.raw, max.raw);
        let z = uniform_raw(rng, min.raw, max.raw);
        Vec3 { x: Fixed::from_raw(x), y: Fixed::from_raw(y), z: Fixed::from_raw(z) }
    }

    pub open spec fn dot_spec(&self, o: Self) -> Fixed {
        dot3(self.x.raw, self.y.raw, self.z.raw, o.x.raw, o.y.raw, o.z.raw)
    }

    #[verifier::when_used_as_spec(dot_spec)]
    pub fn dot(&self, o: Self) -> (r: Fixed)
        ensures
            r == self.dot_spec(o),
    {
        let s = product_term(self.x.raw, o.x.raw) + product_term(self.y.raw, o.y.raw)
            + product_term(self.z.raw, o.z.raw);
        Fixed::from_raw(clip_wide(s))
    }

    pub open spec fn length_squared_spec(self) -> Fixed {
        self.dot_spec(self)
    }

    #[verifier::when_used_as_spec(length_squared_spec)]
    pub fn length_squared(self) -> (r: Fixed)
        ensures
            r == self.length_squared_spec(),
            r.raw >= 0,
    {
        proof {
            crate::fixed::lemma_square_term(self.x.raw as int);
            crate::fixed::lemma_square_term(self.y.raw as int);
            crate::fixed::lemma_square_term(self.z.raw as int);
        }
        self.dot(self)
    }

    pub open spec fn is_zero_spec(self) -> bool {
        self.x.raw == 0 && self.y.raw == 0 && self.z.raw == 0
    }

    /// Every component is zero.
    #[verifier::when_used_as_spec(is_zero_spec)]
    pub fn is_zero(self) -> (r: bool)
        ensures
            r == self.is_zero_spec(),
    {
        self.x.raw == 0 && self.y.raw == 0 && self.z.raw == 0
    }

    /// Exact sum of the squares of the raw components.
    pub open spec fn sum_squares(self) -> int {
        self.x.raw * self.x.raw + self.y.raw * self.y.raw + self.z.raw * self.z.raw
    }

    /// `sqrt(x^2 + y^2 + z^2)`, rounded down once, from the exact sum.
    pub open spec fn length_spec(self) -> Fixed {
        fx(isqrt(self.sum_squares()))
    }

    /// Only the zero vector has length zero.
    pub proof fn lemma_length_zero(self)
        ensures
            self.sum_squares() >= 0,
            self.length_spec().raw >= 0,
            self.length_spec().raw == 0 <==> self.is_zero_spec(),
    {
        let (x, y, z) = (self.x.raw as int, self.y.raw as int, self.z.raw as int);
        assert(x * x >= 0 && (x != 0 ==> x * x >= 1)) by (nonlinear_arith);
        assert(y * y >= 0 && (y != 0 ==> y * y >= 1)) by (nonlinear_arith);
        assert(z * z >= 0 && (z != 0 ==> z * z >= 1)) by (nonlinear_arith);
        lemma_isqrt_zero(self.sum_squares());
    }

    #[verifier::when_used_as_spec(length_spec)]
    pub fn length(self) -> (r: Fixed)
        ensures
            r == self.length_spec(),
            r.raw >= 0,
            r.raw == 0 <==> self.is_zero(),
    {
        let ax = magnitude(self.x.raw);
        let ay = magnitude(self.y.raw);
        let az = magnitude(self.z.raw);
        assert(ax * ax <= 0x4000_0000_0000_0000_0000_0000_0000_0000 && ax * ax == self.x.raw * self.x.raw)
            by (nonlinear_arith)
            requires
                ax <= 0x8000_0000_0000_0000,
                ax == self.x.raw || ax == -self.x.raw,
        ;
        assert(ay * ay <= 0x4000_0000_0000_0000_0000_0000_0000_0000 && ay * ay == self.y.raw * self.y.raw)
            by (nonlinear_arith)
            requires
                ay <= 0x8000_0000_0000_0000,
                ay == self.y.raw || ay == -self.y.raw,
        ;
        assert(az * az <= 0x4000_0000_0000_0000_0000_0000_0000_0000 && az * az == self.z.raw * self.z.raw)
            by (nonlinear_arith)
            requires
                az <= 0x8000_0000_0000_0000,
                az == self.z.raw || az == -self.z.raw,
        ;
        let n = ax * ax + ay * ay + az * az;
        let r = isqrt_unsigned(n);
        proof {
            self.lemma_length_zero();
        }
        Fixed::from_raw(clip_wide(r as i128))
    }

    /// All components are below `2^31` raw units in magnitude.
    pub open spec fn short(self) -> bool {
        &&& -SPREAD_RAW < self.x.raw < SPREAD_RAW
        &&& -SPREAD_RAW < self.y.raw < SPREAD_RAW
        &&& -SPREAD_RAW < self.z.raw < SPREAD_RAW
    }

    pub open spec fn doubled(self) -> Self {
        Vec3 {
            x: Fixed { raw: (2 * self.x.raw) as i64 },
            y: Fixed { raw: (2 * self.y.raw) as i64 },
            z: Fixed { raw: (2 * self.z.raw) as i64 },
        }
    }

    /// Doubles a short non-zero vector, at most `n` times, until some
    /// component reaches `2^31` raw units.
    pub open spec fn spread_n(self, n: nat) -> Self
        decreases n,
    {
        if n == 0 || self.is_zero_spec() || !self.short() {
            self
        } else {
            self.doubled().spread_n((n - 1) as nat)
        }
    }

    /// The same direction with enough digits for a precise quotient.
    pub open spec fn spread_spec(self) -> Self {
        self.spread_n(32)
    }

    pub proof fn lemma_spread_nonzero(self, n: nat)
        requires
            !self.is_zero_spec(),
        ensures
            !self.spread_n(n).is_zero_spec(),
        decreases n,
    {
        if n > 0 && self.short() {
            self.doubled().lemma_spread_nonzero((n - 1) as nat);
        }
    }

    /// How many times over `spread_n` lengthens the vector.
    pub open spec fn spread_factor_n(self, n: nat) -> int
        decreases n,
    {
        if n == 0 || self.is_zero_spec() || !self.short() {
            1
        } else {
            2 * self.doubled().spread_factor_n((n - 1) as nat)
        }
    }

    pub proof fn lemma_spread_factor_pos(self, n: nat)
        ensures
            self.spread_factor_n(n) >= 1,
        decreases n,
    {
        if n > 0 && !self.is_zero_spec() && self.short() {
            self.doubled().lemma_spread_factor_pos((n - 1) as nat);
        }
    }

    pub open spec fn spread_factor(self) -> int {
        self.spread_factor_n(32)
    }

    /// The vector doubled until it carries enough digits, and the power of
    /// two it was multiplied by.
    pub fn spread(self) -> (r: (Self, i64))
        ensures
            r.0 == self.spread_spec(),
            r.1 == self.spread_factor(),
            1 <= r.1 <= 0x1_0000_0000,
            r.0.x.raw == self.x.raw * r.1 && r.0.y.raw == self.y.raw * r.1 && r.0.z.raw == self.z.raw * r.1,
    {
        let mut w = self;
        let mut f: i64 = 1;
        let mut i: u32 = 0;
        while i < 32 && !w.is_zero() && -SPREAD_RAW < w.x.raw && w.x.raw < SPREAD_RAW && -SPREAD_RAW
            < w.y.raw && w.y.raw < SPREAD_RAW && -SPREAD_RAW < w.z.raw && w.z.raw < SPREAD_RAW
            invariant
                i <= 32,
                self.spread_n(32) == w.spread_n((32 - i) as nat),
                self.spread_factor_n(32) == f * w.spread_factor_n((32 - i) as nat),
                f == two_to(i as nat),
                w.x.raw == self.x.raw * f && w.y.raw == self.y.raw * f && w.z.raw == self.z.raw * f,
            decreases 32 - i,
        {
            proof {
                lemma_two_to_bound(i as nat);
            }
            let ghost f0 = f;
            let ghost w0 = w;
            let ghost k = (32 - i) as nat;
            w = Vec3 {
                x: Fixed::from_raw(2 * w.x.raw),
                y: Fixed::from_raw(2 * w.y.raw),
                z: Fixed::from_raw(2 * w.z.raw),
            };
            f = 2 * f;
            i = i + 1;
            assert(w.x.raw == self.x.raw * f && w.y.raw == self.y.raw * f && w.z.raw == self.z.raw * f)
                by (nonlinear_arith)
                requires
                    f == 2 * f0,
                    w.x.raw == 2 * (self.x.raw * f0),
                    w.y.raw == 2 * (self.y.raw * f0),
                    w.z.raw == 2 * (self.z.raw * f0),
            ;
            assert(w0.doubled() == w);
            assert(w0.spread_factor_n(k) == 2 * w.spread_factor_n((k - 1) as nat));
            assert(f0 * w0.spread_factor_n(k) == f * w.spread_factor_n((k - 1) as nat)) by (nonlinear_arith)
                requires
                    f == 2 * f0,
                    w0.spread_factor_n(k) == 2 * w.spread_factor_n((k - 1) as nat),
            ;
        }
        proof {
            lemma_two_to_bound(i as nat);
        }
        (w, f)
    }

    /// `v / |v|` for `v` this vector doubled until it carries enough digits
    /// (same direction), so the quotient is exact to about the last digit.
    pub open spec fn unit_spec(self) -> Self {
        let w = self.spread_spec();
        w.div_spec(w.length_spec())
    }

    /// The vector scaled to length one; it must not be the zero vector.
    #[verifier::when_used_as_spec(unit_spec)]
    pub fn unit(self) -> (r: Self)
        requires
            !self.is_zero_spec(),
        ensures
            r == self.unit_spec(),
    {
        let (w, _) = self.spread();
        proof {
            self.lemma_spread_nonzero(32);
        }
        w.div(w.length())
    }

    pub open spec fn sqrt_spec(self) -> Self {
        Vec3 { x: self.x.sqrt_spec(), y: self.y.sqrt_spec(), z: self.z.sqrt_spec() }
    }

    /// Square root of each component.
    #[verifier::when_used_as_spec(sqrt_spec)]
    pub fn sqrt(self) -> (r: Self)
        requires
            self.nonneg(),
        ensures
            r == self.sqrt_spec(),
            r.nonneg(),
    {
        Vec3 { x: self.x.sqrt(), y: self.y.sqrt(), z: self.z.sqrt() }
    }

    pub open spec fn clamp_spec(self, min: Fixed, max: Fixed) -> Self {
        Vec3 {
            x: clamp_fixed(self.x, min, max),
            y: clamp_fixed(self.y, min, max),
            z: clamp_fixed(self.z, min, max),
        }
    }

    /// Each component held into `[min, max]`.
    #[verifier::when_used_as_spec(clamp_spec)]
    pub fn clamp(self, min: Fixed, max: Fixed) -> (r: Self)
        ensures
            r == self.clamp_spec(min, max),
    {
        Vec3 {
            x: clamp_one(self.x, min, max),
            y: clamp_one(self.y, min, max),
            z: clamp_one(self.z, min, max),
        }
    }

    pub open spec fn near_zero_spec(self) -> bool {
        near_zero_raw(self.x.raw) && near_zero_raw(self.y.raw) && near_zero_raw(self.z.raw)
    }

    /// Every component is below `1e-8` in magnitude.
    #[verifier::when_used_as_spec(near_zero_spec)]
    pub fn near_zero(self) -> (r: bool)
        ensures
            r == self.near_zero_spec(),
    {
        -NEAR_ZERO_RAW < self.x.raw && self.x.raw < NEAR_ZERO_RAW && -NEAR_ZERO_RAW < self.y.raw
            && self.y.raw < NEAR_ZERO_RAW && -NEAR_ZERO_RAW < self.z.raw && self.z.raw
            < NEAR_ZERO_RAW
    }

    pub open spec fn neg_spec(self) -> Self {
        Vec3 { x: self.x.neg_spec(), y: self.y.neg_spec(), z: self.z.neg_spec() }
    }

    #[verifier::when_used_as_spec(neg_spec)]
    pub fn neg(self) -> (r: Self)
        ensures
            r == self.neg_spec(),
    {
        Vec3 { x: self.x.neg(), y: self.y.neg(), z: self.z.neg() }
    }

    pub open spec fn add_spec(self, o: Self) -> Self {
        Vec3 { x: self.x.add_spec(o.x), y: self.y.add_spec(o.y), z: self.z.add_spec(o.z) }
    }

    #[verifier::when_used_as_spec(add_spec)]
    pub fn add(self, o: Self) -> (r: Self)
        ensures
            r == self.add_spec(o),
    {
        Vec3 { x: self.x.add(o.x), y: self.y.add(o.y), z: self.z.add(o.z) }
    }

    pub open spec fn sub_spec(self, o: Self) -> Self {
        Vec3 { x: self.x.sub_spec(o.x), y: self.y.sub_spec(o.y), z: self.z.sub_spec(o.z) }
    }

    #[verifier::when_used_as_spec(sub_spec)]
    pub fn sub(self, o: Self) -> (r: Self)
        ensures
            r == self.sub_spec(o),
    {
        Vec3 { x: self.x.sub(o.x), y: self.y.sub(o.y), z: self.z.sub(o.z) }
    }

    pub open spec fn mul_spec(self, o: Self) -> Self {
        Vec3 { x: self.x.mul_spec(o.x), y: self.y.mul_spec(o.y), z: self.z.mul_spec(o.z) }
    }

    /// Component-wise product (colour attenuation).
    #[verifier::when_used_as_spec(mul_spec)]
    pub fn mul(self, o: Self) -> (r: Self)
        ensures
            r == self.mul_spec(o),
    {
        Vec3 { x: self.x.mul(o.x), y: self.y.mul(o.y), z: self.z.mul(o.z) }
    }

    pub open spec fn scale_spec(self, t: Fixed) -> Self {
        Vec3 { x: self.x.mul_spec(t), y: self.y.mul_spec(t), z: self.z.mul_spec(t) }
    }

    /// Every component multiplied by `t`.
    #[verifier::when_used_as_spec(scale_spec)]
    pub fn scale(self, t: Fixed) -> (r: Self)
        ensures
            r == self.scale_spec(t),
    {
        Vec3 { x: self.x.mul(t), y: self.y.mul(t), z: self.z.mul(t) }
    }

    pub open spec fn div_spec(self, t: Fixed) -> Self {
        Vec3 { x: self.x.div_spec(t), y: self.y.div_spec(t), z: self.z.div_spec(t) }
    }

    /// Every component divided by `t`.
    #[verifier::when_used_as_spec(div_spec)]
    pub fn div(self, t: Fixed) -> (r: Self)
        requires
            t.raw != 0,
        ensures
            r == self.div_spec(t),
    {
        Vec3 { x: self.x.div(t), y: self.y.div(t), z: self.z.div(t) }
    }
}

} // verus!

verus! {

impl Vec3<Fixed> {
    pub proof fn lemma_dot_commutes(a: Self, b: Self)
        ensures
            a.dot_spec(b) == b.dot_spec(a),
    {
        assert(a.x.raw * b.x.raw == b.x.raw * a.x.raw) by (nonlinear_arith);
        assert(a.y.raw * b.y.raw == b.y.raw * a.y.raw) by (nonlinear_arith);
        assert(a.z.raw * b.z.raw == b.z.raw * a.z.raw) by (nonlinear_arith);
    }

    /// Negating a well-formed vector negates its dot products exactly.
    pub proof fn lemma_dot_neg(a: Self, b: Self)
        requires
            a.wf(),
        ensures
            a.neg_spec().dot_spec(b).raw == -a.dot_spec(b).raw,
    {
        let n = a.neg_spec();
        assert(n.x.raw == -a.x.raw && n.y.raw == -a.y.raw && n.z.raw == -a.z.raw);
        assert((-a.x.raw) * b.x.raw == -(a.x.raw * b.x.raw)) by (nonlinear_arith);
        assert((-a.y.raw) * b.y.raw == -(a.y.raw * b.y.raw)) by (nonlinear_arith);
        assert((-a.z.raw) * b.z.raw == -(a.z.raw * b.z.raw)) by (nonlinear_arith);
    }
}

} // verus!
