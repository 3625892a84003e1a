use vstd::prelude::*;

verus! {

/// Number of raw units in one whole: a `Fixed` holds `raw / SCALE`.
pub const SCALE: i64 = 1_000_000_000;

/// Largest magnitude a `Fixed` result takes; results beyond it saturate.
pub const LIMIT: i64 = 9_223_372_036_854_775_807;

/// A real number in decimal fixed-point form, nine digits after the point.
///
/// Arithmetic rounds toward zero and saturates at `±LIMIT`, so that every
/// operation is total and symmetric under negation.
#[derive(Clone, Copy, Debug, PartialEq, Eq, Structural)]
pub struct Fixed {
    pub raw: i64,
}

/// Saturation into the symmetric range `[-LIMIT, LIMIT]`.
pub open spec fn clip(v: int) -> int {
    if v > LIMIT {
        LIMIT as int
    } else if v < -LIMIT {
        -LIMIT
    } else {
        v
    }
}

/// Integer division rounding toward zero (zero for a zero divisor).
pub open spec fn tdiv(a: int, b: int) -> int {
    if b == 0 {
        0
    } else {
        let q = abs(a) / abs(b);
        if (a >= 0) == (b > 0) {
            q
        } else {
            -q
        }
    }
}

pub open spec fn abs(a: int) -> int {
    if a < 0 {
        -a
    } else {
        a
    }
}

/// Floor of the square root of `n`.
pub open spec fn isqrt(n: int) -> int {
    choose|r: int| #[trigger] is_root(n, r)
}

pub open spec fn is_root(n: int, r: int) -> bool {
    0 <= r && r * r <= n < (r + 1) * (r + 1)
}

/// The fixed-point number with raw value `clip(v)`.
pub open spec fn fx(v: int) -> Fixed {
    Fixed { raw: clip(v) as i64 }
}

proof fn lemma_root_unique(n: int, r1: int, r2: int)
    requires
        is_root(n, r1),
        is_root(n, r2),
    ensures
        r1 == r2,
{
    if r1 < r2 {
        assert((r1 + 1) * (r1 + 1) <= r2 * r2) by (nonlinear_arith)
            requires
                0 <= r1 + 1 <= r2,
        ;
    } else if r2 < r1 {
        assert((r2 + 1) * (r2 + 1) <= r1 * r1) by (nonlinear_arith)
            requires
                0 <= r2 + 1 <= r1,
        ;
    }
}

proof fn lemma_tdiv_bound(a: int, b: int)
    requires
        b > 0,
    ensures
        abs(tdiv(a, b)) <= abs(a),
        a >= 0 ==> tdiv(a, b) >= 0,
{
    assert(abs(a) / b <= abs(a)) by (nonlinear_arith)
        requires
            b > 0,
            abs(a) >= 0,
    ;
}

/// A scaled square is never negative.
pub proof fn lemma_square_term(a: int)
    ensures
        tdiv(a * a, SCALE as int) >= 0,
{
    assert(a * a >= 0) by (nonlinear_arith);
    lemma_tdiv_bound(a * a, SCALE as int);
}

pub proof fn lemma_root_exists(n: int)
    requires
        n >= 0,
    ensures
        exists|r: int| #[trigger] is_root(n, r),
    decreases n,
{
    if n == 0 {
        assert(is_root(0, 0));
    } else {
        lemma_root_exists(n - 1);
        let r = choose|r: int| #[trigger] is_root(n - 1, r);
        if (r + 1) * (r + 1) <= n {
            assert(n < (r + 2) * (r + 2)) by (nonlinear_arith)
                requires
                    n - 1 < (r + 1) * (r + 1),
                    r >= 0,
            ;
            assert(is_root(n, r + 1));
        } else {
            assert(is_root(n, r));
        }
    }
}

/// A square root is never negative.
pub proof fn lemma_sqrt_nonneg(a: Fixed)
    requires
        a.raw >= 0,
    ensures
        a.sqrt_spec().raw >= 0,
{
    let n = a.raw * SCALE;
    assert(0 <= n <= 0x1_0000_0000_0000_0000_0000_0000) by (nonlinear_arith)
        requires
            n == a.raw * SCALE,
            0 <= a.raw <= 0x8000_0000_0000_0000,
    ;
    lemma_root_exists(n);
    let r = isqrt(n);
    assert(is_root(n, r));
    assert(r <= 0x1_0000_0000_0000) by (nonlinear_arith)
        requires
            0 <= r,
            r * r <= n,
            n <= 0x1_0000_0000_0000_0000_0000_0000,
    ;
}

pub proof fn lemma_tdiv_monotone(x: int, y: int, b: int)
    requires
        x <= y,
        b > 0,
    ensures
        tdiv(x, b) <= tdiv(y, b),
{
    if x >= 0 {
        vstd::arithmetic::div_mod::lemma_div_is_ordered(x, y, b);
    } else if y < 0 {
        vstd::arithmetic::div_mod::lemma_div_is_ordered(-y, -x, b);
    } else {
        vstd::arithmetic::div_mod::lemma_div_pos_is_pos(-x, b);
        vstd::arithmetic::div_mod::lemma_div_pos_is_pos(y, b);
    }
}

/// Dividing by a positive number keeps order.
pub proof fn lemma_div_monotone(x: Fixed, y: Fixed, a: Fixed)
    requires
        x.raw <= y.raw,
        a.raw > 0,
    ensures
        x.div_spec(a).raw <= y.div_spec(a).raw,
{
    assert(x.raw * SCALE <= y.raw * SCALE) by (nonlinear_arith)
        requires
            x.raw <= y.raw,
    ;
    lemma_tdiv_monotone(x.raw * SCALE, y.raw * SCALE, a.raw as int);
}

/// Multiplying by a number in `[0, 1]` does not enlarge a number at least zero.
pub proof fn lemma_mul_unit(a: Fixed, b: Fixed)
    requires
        0 <= a.raw <= SCALE,
        b.raw >= 0,
    ensures
        0 <= a.mul_spec(b).raw <= b.raw,
{
    assert(0 <= a.raw * b.raw <= SCALE * b.raw) by (nonlinear_arith)
        requires
            0 <= a.raw <= SCALE,
            b.raw >= 0,
    ;
    vstd::arithmetic::div_mod::lemma_div_is_ordered(a.raw * b.raw, SCALE * b.raw, SCALE as int);
    vstd::arithmetic::div_mod::lemma_div_multiples_vanish(b.raw as int, SCALE as int);
    lemma_tdiv_bound(a.raw * b.raw, SCALE as int);
}

/// A quotient of a number at least zero by a positive one is at least zero.
pub proof fn lemma_div_nonneg(a: Fixed, b: Fixed)
    requires
        a.raw >= 0,
        b.raw > 0,
    ensures
        a.div_spec(b).raw >= 0,
{
    assert(a.raw * SCALE >= 0) by (nonlinear_arith)
        requires
            a.raw >= 0,
    ;
    lemma_tdiv_bound(a.raw * SCALE, b.raw as int);
}

/// Saturates a wide integer into the range of a `Fixed`.
pub(crate) fn clip_wide(v: i128) -> (r: i64)
    ensures
        r == clip(v as int),
{
    if v > LIMIT as i128 {
        LIMIT
    } else if v < -(LIMIT as i128) {
        -LIMIT
    } else {
        v as i64
    }
}

/// Division rounding toward zero of wide integers.
fn tdiv_wide(a: i128, b: i128) -> (r: i128)
    requires
        b > 0,
        a > i128::MIN,
    ensures
        r == tdiv(a as int, b as int),
{
    if a >= 0 {
        a / b
    } else {
        let q = (-a) / b;
        -q
    }
}

/// Zero is the only number whose square root is zero.
pub proof fn lemma_isqrt_zero(n: int)
    requires
        n >= 0,
    ensures
        isqrt(n) >= 0,
        isqrt(n) == 0 <==> n == 0,
{
    lemma_root_exists(n);
    let r = isqrt(n);
    assert(is_root(n, r));
    if r >= 1 {
        assert(r * r >= 1) by (nonlinear_arith)
            requires
                r >= 1,
        ;
    } else {
        assert((r + 1) * (r + 1) == 1) by (nonlinear_arith)
            requires
                0 <= r < 1,
        ;
    }
}

/// Floor square root of an unsigned wide integer, found by bisection.
pub(crate) fn isqrt_unsigned(n: u128) -> (r: u128)
    ensures
        r == isqrt(n as int),
        r <= 0x1_0000_0000_0000_0000,
{
    let mut lo: u128 = 0;
    let mut hi: u128 = 0x1_0000_0000_0000_0000;
    assert(n < hi * hi);
    while hi - lo > 1
        invariant
            0 <= lo < hi <= 0x1_0000_0000_0000_0000,
            lo * lo <= n,
            n < hi * hi,
        decreases hi - lo,
    {
        let mid = lo + (hi - lo) / 2;
        assert(mid * mid < 0x1_0000_0000_0000_0000 * 0x1_0000_0000_0000_0000) by (nonlinear_arith)
            requires
                0 <= mid < 0x1_0000_0000_0000_0000,
        ;
        if mid * mid <= n {
            lo = mid;
        } else {
            hi = mid;
        }
    }
    proof {
        assert(is_root(n as int, lo as int));
        lemma_root_unique(n as int, lo as int, isqrt(n as int));
    }
    lo
}

/// Floor square root of `n`, found by bisection.
fn isqrt_wide(n: i128) -> (r: i128)
    requires
        0 <= n <= 0x1_0000_0000_0000_0000_0000_0000,
    ensures
        r == isqrt(n as int),
        0 <= r <= 0x1_0000_0000_0000,
{
    let mut lo: i128 = 0;
    let mut hi: i128 = 0x1_0000_0000_0001;
    assert(hi * hi > 0x1_0000_0000_0000_0000_0000_0000) by (nonlinear_arith)
        requires
            hi == 0x1_0000_0000_0001,
    ;
    while hi - lo > 1
        invariant
            0 <= lo < hi <= 0x1_0000_0000_0001,
            lo * lo <= n,
            n < hi * hi,
        decreases hi - lo,
    {
        let mid = lo + (hi - lo) / 2;
        assert(mid * mid <= 0x1_0000_0000_0001 * 0x1_0000_0000_0001) by (nonlinear_arith)
            requires
                0 <= mid <= 0x1_0000_0000_0001,
        ;
        if mid * mid <= n {
            lo = mid;
        } else {
            hi = mid;
        }
    }
    proof {
        assert(is_root(n as int, lo as int));
        lemma_root_unique(n as int, lo as int, isqrt(n as int));
    }
    lo
}

impl Fixed {
    pub open spec fn wf(self) -> bool {
        self.raw >= -LIMIT
    }

    pub fn from_raw(raw: i64) -> (r: Fixed)
        ensures
            r.raw == raw,
    {
        Fixed { raw }
    }

    /// The whole number `n`, saturated.
    pub fn from_int(n: i64) -> (r: Fixed)
        ensures
            r == fx(n * SCALE),
    {
        let w = n as i128;
        assert(-0x8000_0000_0000_0000_0000_0000 <= w * SCALE <= 0x8000_0000_0000_0000_0000_0000)
            by (nonlinear_arith)
            requires
                -0x8000_0000_0000_0000 <= w <= 0x8000_0000_0000_0000,
        ;
        Fixed { raw: clip_wide(w * SCALE as i128) }
    }

    pub open spec fn add_spec(self, o: Fixed) -> Fixed {
        fx(self.raw + o.raw)
    }

    #[verifier::when_used_as_spec(add_spec)]
    pub fn add(self, o: Fixed) -> (r: Fixed)
        ensures
            r == self.add_spec(o),
    {
        Fixed { raw: clip_wide(self.raw as i128 + o.raw as i128) }
    }

    pub open spec fn sub_spec(self, o: Fixed) -> Fixed {
        fx(self.raw - o.raw)
    }

    #[verifier::when_used_as_spec(sub_spec)]
    pub fn sub(self, o: Fixed) -> (r: Fixed)
        ensures
            r == self.sub_spec(o),
    {
        Fixed { raw: clip_wide(self.raw as i128 - o.raw as i128) }
    }

    pub open spec fn neg_spec(self) -> Fixed {
        fx(-self.raw)
    }

    #[verifier::when_used_as_spec(neg_spec)]
    pub fn neg(self) -> (r: Fixed)
        ensures
            r == self.neg_spec(),
    {
        Fixed { raw: clip_wide(-(self.raw as i128)) }
    }

    pub open spec fn mul_spec(self, o: Fixed) -> Fixed {
        fx(tdiv(self.raw * o.raw, SCALE as int))
    }

    #[verifier::when_used_as_spec(mul_spec)]
    pub fn mul(self, o: Fixed) -> (r: Fixed)
        ensures
            r == self.mul_spec(o),
    {
        let a = self.raw as i128;
        let b = o.raw as i128;
        assert(-0x4000_0000_0000_0000_0000_0000_0000_0000 <= a * b
            <= 0x4000_0000_0000_0000_0000_0000_0000_0000) by (nonlinear_arith)
            requires
                -0x8000_0000_0000_0000 <= a <= 0x8000_0000_0000_0000,
                -0x8000_0000_0000_0000 <= b <= 0x8000_0000_0000_0000,
        ;
        let q = tdiv_wide(a * b, SCALE as i128);
        proof {
            lemma_tdiv_bound(a * b, SCALE as int);
        }
        Fixed { raw: clip_wide(q) }
    }

    pub open spec fn div_spec(self, o: Fixed) -> Fixed {
        fx(tdiv(self.raw * SCALE, o.raw as int))
    }

    #[verifier::when_used_as_spec(div_spec)]
    pub fn div(self, o: Fixed) -> (r: Fixed)
        requires
            o.raw != 0,
        ensures
            r == self.div_spec(o),
    {
        let a = self.raw as i128 * SCALE as i128;
        let b = o.raw as i128;
        assert(-0x8000_0000_0000_0000_0000_0000 <= a <= 0x8000_0000_0000_0000_0000_0000)
            by (nonlinear_arith)
            requires
                a == self.raw * SCALE,
                -0x8000_0000_0000_0000 <= self.raw <= 0x8000_0000_0000_0000,
        ;
        let q = if b > 0 {
            tdiv_wide(a, b)
        } else {
            let q = tdiv_wide(a, -b);
            -q
        };
        proof {
            lemma_tdiv_bound(a as int, abs(b as int));
        }
        Fixed { raw: clip_wide(q) }
    }

    pub open spec fn sqrt_spec(self) -> Fixed {
        Fixed { raw: isqrt(self.raw * SCALE) as i64 }
    }

    /// Square root, rounded down.
    #[verifier::when_used_as_spec(sqrt_spec)]
    pub fn sqrt(self) -> (r: Fixed)
        requires
            self.raw >= 0,
        ensures
            r == self.sqrt_spec(),
            r.raw >= 0,
    {
        let n = self.raw as i128 * SCALE as i128;
        assert(n <= 0x1_0000_0000_0000_0000_0000_0000) by (nonlinear_arith)
            requires
                n == self.raw * SCALE,
                0 <= self.raw <= 0x8000_0000_0000_0000,
        ;
        let r = isqrt_wide(n);
        Fixed { raw: r as i64 }
    }
}

} // verus!
