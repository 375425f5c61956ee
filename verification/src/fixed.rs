//! Signed fixed-point numbers with 32 fractional bits.
//!
//! Every quantity of the controller (speeds, lengths, angles, time steps) is a
//! `Fixed`: a 64-bit integer `raw` that stands for the number `raw / 2^32`.
//! All operations are total. A result that does not fit is saturated to the
//! nearest representable value, and products and quotients are rounded
//! toward zero, so that negating the operands negates the result.
use vstd::prelude::*;

verus! {

/// The raw representation of the number one.
pub const ONE_RAW: i64 = 0x1_0000_0000;

/// A fixed-point number: the integer `raw` stands for `raw / 2^32`.
#[derive(Clone, Copy, Debug, PartialEq, Eq, Structural)]
pub struct Fixed {
    pub raw: i64,
}

impl View for Fixed {
    type V = int;

    /// The raw representation as a mathematical integer.
    open spec fn view(&self) -> int {
        self.raw as int
    }
}

/// The representable value nearest to `x`.
pub open spec fn saturate(x: int) -> i64 {
    if x < i64::MIN {
        i64::MIN
    } else if x > i64::MAX {
        i64::MAX
    } else {
        x as i64
    }
}

/// The quotient of `a` by `b` rounded toward zero, for `b != 0`.
pub open spec fn trunc_div(a: int, b: int) -> int {
    if b > 0 {
        if a >= 0 {
            a / b
        } else {
            -((-a) / b)
        }
    } else {
        if a >= 0 {
            -(a / (-b))
        } else {
            (-a) / (-b)
        }
    }
}

/// The magnitude of `x`.
pub open spec fn magnitude(x: int) -> int {
    if x >= 0 {
        x
    } else {
        -x
    }
}

/// `r` is the integer square root of `n`, rounded down.
pub open spec fn is_sqrt_floor(n: int, r: int) -> bool {
    0 <= r && r * r <= n < (r + 1) * (r + 1)
}

/// The integer square root of `n`, rounded down, for `n >= 0`.
pub open spec fn sqrt_floor(n: int) -> int {
    choose|r: int| is_sqrt_floor(n, r)
}

/// At most one integer is the rounded-down square root of `n`.
pub proof fn lemma_sqrt_floor_unique(n: int, r1: int, r2: int)
    requires
        is_sqrt_floor(n, r1),
        is_sqrt_floor(n, r2),
    ensures
        r1 == r2,
{
    if r1 < r2 {
        assert((r1 + 1) * (r1 + 1) <= r2 * r2) by (nonlinear_arith)
            requires
                0 <= r1,
                r1 + 1 <= r2,
        ;
    } else if r2 < r1 {
        assert((r2 + 1) * (r2 + 1) <= r1 * r1) by (nonlinear_arith)
            requires
                0 <= r2,
                r2 + 1 <= r1,
        ;
    }
}

/// An integer with the defining property of the square root is the square root.
pub proof fn lemma_sqrt_floor_is(n: int, r: int)
    requires
        is_sqrt_floor(n, r),
    ensures
        sqrt_floor(n) == r,
{
    lemma_sqrt_floor_unique(n, r, sqrt_floor(n));
}

/// The rounded-down square root grows with its argument.
pub proof fn lemma_sqrt_floor_monotonic(m: int, r: int, n: int, s: int)
    requires
        is_sqrt_floor(m, r),
        is_sqrt_floor(n, s),
        m <= n,
    ensures
        r <= s,
{
    if s < r {
        assert((s + 1) * (s + 1) <= r * r) by (nonlinear_arith)
            requires
                0 <= s,
                s + 1 <= r,
        ;
    }
}

/// Every natural number has a rounded-down square root.
pub proof fn lemma_sqrt_floor_exists(n: int) -> (r: int)
    requires
        n >= 0,
    ensures
        is_sqrt_floor(n, r),
        sqrt_floor(n) == r,
    decreases n,
{
    if n == 0 {
        assert(is_sqrt_floor(0, 0));
        lemma_sqrt_floor_is(0, 0);
        0
    } else {
        let p = lemma_sqrt_floor_exists(n - 1);
        let r = if (p + 1) * (p + 1) <= n {
            p + 1
        } else {
            p
        };
        assert(is_sqrt_floor(n, r)) by (nonlinear_arith)
            requires
                0 <= p,
                p * p <= n - 1 < (p + 1) * (p + 1),
                r == if (p + 1) * (p + 1) <= n {
                    p + 1
                } else {
                    p
                },
        ;
        lemma_sqrt_floor_is(n, r);
        r
    }
}

/// The rounded-down square root of `n` is at most `s` where `n` is at most
/// the square of `s`.
pub proof fn lemma_sqrt_floor_le(n: int, s: int)
    requires
        0 <= n <= s * s,
        0 <= s,
    ensures
        0 <= sqrt_floor(n) <= s,
{
    let r = lemma_sqrt_floor_exists(n);
    if r > s {
        assert(r * r > s * s) by (nonlinear_arith)
            requires
                0 <= s,
                s + 1 <= r,
        ;
    }
}

/// Computes the integer square root of `n`, rounded down.
pub fn isqrt(n: u128) -> (r: u64)
    ensures
        is_sqrt_floor(n as int, r as int),
        r as int == sqrt_floor(n as int),
{
    let mut lo: u128 = 0;
    let mut hi: u128 = 0x1_0000_0000_0000_0000;
    assert(hi * hi > n) by (nonlinear_arith)
        requires
            hi == 0x1_0000_0000_0000_0000,
            n <= u128::MAX,
    ;
    while hi - lo > 1
        invariant
            lo < hi <= 0x1_0000_0000_0000_0000,
            lo * lo <= n < hi * hi,
        decreases hi - lo,
    {
        let mid: u128 = lo + (hi - lo) / 2;
        assert(mid * mid <= 0xffff_ffff_ffff_ffff * 0xffff_ffff_ffff_ffff) by (nonlinear_arith)
            requires
                0 <= mid <= 0xffff_ffff_ffff_ffff,
        ;
        if mid * mid <= n {
            lo = mid;
        } else {
            hi = mid;
        }
    }
    proof {
        assert(hi == lo + 1);
        lemma_sqrt_floor_is(n as int, lo as int);
    }
    lo as u64
}

impl Fixed {
    /// The number zero.
    pub open spec fn spec_zero() -> Fixed {
        Fixed { raw: 0 }
    }

    /// The number zero.
    #[verifier::when_used_as_spec(spec_zero)]
    pub fn zero() -> (r: Fixed)
        ensures
            r == Fixed::spec_zero(),
    {
        Fixed { raw: 0 }
    }

    /// The number one.
    pub open spec fn spec_one() -> Fixed {
        Fixed { raw: ONE_RAW }
    }

    /// The number one.
    #[verifier::when_used_as_spec(spec_one)]
    pub fn one() -> (r: Fixed)
        ensures
            r == Fixed::spec_one(),
    {
        Fixed { raw: ONE_RAW }
    }

    /// The whole number `n`.
    pub open spec fn spec_from_int(n: i32) -> Fixed {
        Fixed { raw: (n * ONE_RAW) as i64 }
    }

    /// The whole number `n`.
    #[verifier::when_used_as_spec(spec_from_int)]
    pub fn from_int(n: i32) -> (r: Fixed)
        ensures
            r == Fixed::spec_from_int(n),
            r@ == n * ONE_RAW,
    {
        Fixed { raw: (n as i64) * ONE_RAW }
    }

    /// The sum, saturated.
    pub open spec fn spec_add(self, rhs: Fixed) -> Fixed {
        Fixed { raw: saturate(self.raw + rhs.raw) }
    }

    /// The sum, saturated.
    #[verifier::when_used_as_spec(spec_add)]
    pub fn add(self, rhs: Fixed) -> (r: Fixed)
        ensures
            r == self.spec_add(rhs),
    {
        saturate_wide((self.raw as i128) + (rhs.raw as i128))
    }

    /// The difference, saturated.
    pub open spec fn spec_sub(self, rhs: Fixed) -> Fixed {
        Fixed { raw: saturate(self.raw - rhs.raw) }
    }

    /// The difference, saturated.
    #[verifier::when_used_as_spec(spec_sub)]
    pub fn sub(self, rhs: Fixed) -> (r: Fixed)
        ensures
            r == self.spec_sub(rhs),
    {
        saturate_wide((self.raw as i128) - (rhs.raw as i128))
    }

    /// The negation, saturated.
    pub open spec fn spec_neg(self) -> Fixed {
        Fixed { raw: saturate(-self.raw) }
    }

    /// The negation, saturated.
    #[verifier::when_used_as_spec(spec_neg)]
    pub fn neg(self) -> (r: Fixed)
        ensures
            r == self.spec_neg(),
    {
        if self.raw == i64::MIN {
            Fixed { raw: i64::MAX }
        } else {
            Fixed { raw: -self.raw }
        }
    }

    /// The product, rounded toward zero and saturated.
    pub open spec fn spec_mul(self, rhs: Fixed) -> Fixed {
        Fixed { raw: saturate(trunc_div(self.raw * rhs.raw, ONE_RAW as int)) }
    }

    /// The product, rounded toward zero and saturated.
    #[verifier::when_used_as_spec(spec_mul)]
    pub fn mul(self, rhs: Fixed) -> (r: Fixed)
        ensures
            r == self.spec_mul(rhs),
    {
        assert(-0x4000_0000_0000_0000_0000_0000_0000_0000 <= self.raw * rhs.raw
            <= 0x4000_0000_0000_0000_0000_0000_0000_0000) by (nonlinear_arith)
            requires
                -0x8000_0000_0000_0000 <= self.raw <= 0x7fff_ffff_ffff_ffff,
                -0x8000_0000_0000_0000 <= rhs.raw <= 0x7fff_ffff_ffff_ffff,
        ;
        let product: i128 = (self.raw as i128) * (rhs.raw as i128);
        let quotient: i128 = product / (ONE_RAW as i128);
        saturate_wide(quotient)
    }

    /// The quotient, rounded toward zero and saturated. Division by zero
    /// gives the largest value of the dividend's sign, and zero for zero.
    pub open spec fn spec_div(self, rhs: Fixed) -> Fixed {
        if rhs.raw == 0 {
            if self.raw > 0 {
                Fixed { raw: i64::MAX }
            } else if self.raw < 0 {
                Fixed { raw: i64::MIN }
            } else {
                Fixed { raw: 0 }
            }
        } else {
            Fixed { raw: saturate(trunc_div(self.raw * ONE_RAW, rhs.raw as int)) }
        }
    }

    /// The quotient, rounded toward zero and saturated. Division by zero
    /// gives the largest value of the dividend's sign, and zero for zero.
    #[verifier::when_used_as_spec(spec_div)]
    pub fn div(self, rhs: Fixed) -> (r: Fixed)
        ensures
            r == self.spec_div(rhs),
    {
        if rhs.raw == 0 {
            if self.raw > 0 {
                Fixed { raw: i64::MAX }
            } else if self.raw < 0 {
                Fixed { raw: i64::MIN }
            } else {
                Fixed { raw: 0 }
            }
        } else {
            let scaled: i128 = (self.raw as i128) * 0x1_0000_0000i128;
            let divisor: i128 = rhs.raw as i128;
            let quotient: i128 = if divisor > 0 {
                scaled / divisor
            } else {
                (-scaled) / (-divisor)
            };
            saturate_wide(quotient)
        }
    }

    /// The quotient `n / d` of two whole numbers, as `from_int(n).div(from_int(d))` gives it.
    pub open spec fn spec_from_ratio(n: i32, d: i32) -> Fixed {
        Fixed::spec_from_int(n).spec_div(Fixed::spec_from_int(d))
    }

    /// The quotient `n / d` of two whole numbers.
    #[verifier::when_used_as_spec(spec_from_ratio)]
    pub fn from_ratio(n: i32, d: i32) -> (r: Fixed)
        ensures
            r == Fixed::spec_from_ratio(n, d),
    {
        Fixed::from_int(n).div(Fixed::from_int(d))
    }

    /// The smaller of two numbers.
    pub open spec fn spec_min(self, rhs: Fixed) -> Fixed {
        if self.raw <= rhs.raw {
            self
        } else {
            rhs
        }
    }

    /// The smaller of two numbers.
    #[verifier::when_used_as_spec(spec_min)]
    pub fn min(self, rhs: Fixed) -> (r: Fixed)
        ensures
            r == self.spec_min(rhs),
    {
        if self.raw <= rhs.raw {
            self
        } else {
            rhs
        }
    }

    /// The larger of two numbers.
    pub open spec fn spec_max(self, rhs: Fixed) -> Fixed {
        if self.raw >= rhs.raw {
            self
        } else {
            rhs
        }
    }

    /// The larger of two numbers.
    #[verifier::when_used_as_spec(spec_max)]
    pub fn max(self, rhs: Fixed) -> (r: Fixed)
        ensures
            r == self.spec_max(rhs),
    {
        if self.raw >= rhs.raw {
            self
        } else {
            rhs
        }
    }

    /// `self` moved into the interval from `lo` to `hi`: `lo` where `self` is
    /// below it, else `hi` where `self` is above it, else `self`.
    pub open spec fn spec_clamp(self, lo: Fixed, hi: Fixed) -> Fixed {
        if self.raw < lo.raw {
            lo
        } else if self.raw > hi.raw {
            hi
        } else {
            self
        }
    }

    /// `self` moved into the interval from `lo` to `hi`.
    #[verifier::when_used_as_spec(spec_clamp)]
    pub fn clamp(self, lo: Fixed, hi: Fixed) -> (r: Fixed)
        ensures
            r == self.spec_clamp(lo, hi),
            lo.raw <= hi.raw ==> lo.raw <= r.raw <= hi.raw,
    {
        if self.raw < lo.raw {
            lo
        } else if self.raw > hi.raw {
            hi
        } else {
            self
        }
    }
}

/// A product that is not saturated is the exact product of the two numbers
/// rounded toward zero: in raw units scaled by one, it lies less than one
/// unit from the exact product, on the side of zero.
pub proof fn lemma_mul_rounds_toward_zero(a: Fixed, b: Fixed)
    requires
        i64::MIN < a.mul(b).raw < i64::MAX,
    ensures
        a.raw * b.raw >= 0 ==> a.raw * b.raw - ONE_RAW < a.mul(b).raw * ONE_RAW <= a.raw * b.raw,
        a.raw * b.raw <= 0 ==> a.raw * b.raw <= a.mul(b).raw * ONE_RAW < a.raw * b.raw + ONE_RAW,
{
    let exact = a.raw * b.raw;
    let q = trunc_div(exact, ONE_RAW as int);
    assert(a.mul(b).raw == q);
    assert(q * ONE_RAW == q * 0x1_0000_0000);
}

/// A quotient that is not saturated is the exact quotient of the two
/// numbers rounded toward zero: multiplied back by the divisor it lies less
/// than the divisor from the dividend, on the side of zero.
pub proof fn lemma_div_rounds_toward_zero(a: Fixed, b: Fixed)
    requires
        b.raw != 0,
        i64::MIN < a.div(b).raw < i64::MAX,
    ensures
        (a.raw >= 0) == (b.raw > 0) ==> 0 <= a.div(b).raw && a.div(b).raw * magnitude(b.raw as int)
            <= magnitude(a.raw as int) * ONE_RAW < (a.div(b).raw + 1) * magnitude(b.raw as int),
        (a.raw >= 0) != (b.raw > 0) ==> a.div(b).raw <= 0 && (-a.div(b).raw) * magnitude(b.raw as int)
            <= magnitude(a.raw as int) * ONE_RAW < (1 - a.div(b).raw) * magnitude(b.raw as int),
{
    let n = magnitude(a.raw as int) * ONE_RAW;
    let d = magnitude(b.raw as int);
    assert(n == magnitude(a.raw as int) * 0x1_0000_0000);
    assert(a.raw * ONE_RAW == a.raw * 0x1_0000_0000);
    assert(0 <= n / d && (n / d) * d <= n < (n / d + 1) * d) by (nonlinear_arith)
        requires
            0 <= n,
            0 < d,
    ;
    let q = trunc_div(a.raw * ONE_RAW, b.raw as int);
    assert(a.div(b).raw == q);
    if (a.raw >= 0) == (b.raw > 0) {
        assert(q == n / d);
    } else {
        assert(q == -(n / d));
        assert((-q) * d == (n / d) * d);
        assert((1 - q) * d == (n / d + 1) * d);
    }
}

/// A quotient rounded toward zero and then saturated, times the divisor, is
/// no larger in magnitude than the dividend, and has its sign.
pub proof fn lemma_trunc_div_magnitude(a: int, d: int) -> (q: int)
    requires
        d > 0,
    ensures
        q == saturate(trunc_div(a, d)),
        magnitude(q) * d <= magnitude(a),
        (q * q) * (d * d) <= a * a,
        a >= 0 ==> q >= 0,
        a <= 0 ==> q <= 0,
{
    let m = magnitude(a);
    let t = m / d;
    assert(0 <= t && t * d <= m) by (nonlinear_arith)
        requires
            0 <= m,
            0 < d,
            t == m / d,
    ;
    assert(magnitude(trunc_div(a, d)) == t);
    let q = saturate(trunc_div(a, d)) as int;
    let k = magnitude(q);
    assert(0 <= k <= t);
    assert(k * d <= m) by (nonlinear_arith)
        requires
            0 <= k <= t,
            t * d <= m,
            0 < d,
    ;
    assert((q * q) * (d * d) <= a * a) by (nonlinear_arith)
        requires
            0 <= k * d <= m,
            k == q || k == -q,
            m == a || m == -a,
    ;
    q
}

/// The square of a product is at most the product of the squares, raw unit
/// for raw unit, whether or not the product was rounded or saturated.
pub proof fn lemma_mul_magnitude(a: Fixed, b: Fixed)
    ensures
        (a.mul(b).raw * a.mul(b).raw) * (ONE_RAW * ONE_RAW) <= (a.raw * a.raw) * (b.raw * b.raw),
        a.raw * b.raw >= 0 ==> a.mul(b).raw >= 0,
        a.raw * b.raw <= 0 ==> a.mul(b).raw <= 0,
{
    let p = a.raw * b.raw;
    let q = lemma_trunc_div_magnitude(p, ONE_RAW as int);
    assert(p * p == (a.raw * a.raw) * (b.raw * b.raw)) by (nonlinear_arith)
        requires
            p == a.raw * b.raw,
    ;
}

/// The square of a quotient by a number above zero, times the square of
/// the divisor, is at most the square of the dividend, raw unit for raw
/// unit, whether or not the quotient was rounded or saturated.
pub proof fn lemma_div_magnitude(a: Fixed, b: Fixed)
    requires
        b.raw > 0,
    ensures
        (a.div(b).raw * a.div(b).raw) * (b.raw * b.raw) <= (a.raw * a.raw) * (ONE_RAW * ONE_RAW),
        a.raw >= 0 ==> a.div(b).raw >= 0,
        a.raw <= 0 ==> a.div(b).raw <= 0,
{
    let p = a.raw * ONE_RAW;
    assert(p == a.raw * 0x1_0000_0000);
    let q = lemma_trunc_div_magnitude(p, b.raw as int);
    assert(p * p == (a.raw * a.raw) * (ONE_RAW * ONE_RAW)) by (nonlinear_arith)
        requires
            p == a.raw * ONE_RAW,
    ;
}

/// Zero times anything is zero, and zero over anything is zero.
pub proof fn lemma_zero_absorbs(a: Fixed)
    ensures
        a.mul(Fixed::zero()) == Fixed::zero(),
        Fixed::zero().mul(a) == Fixed::zero(),
        Fixed::zero().div(a) == Fixed::zero(),
{
    assert(a.raw * 0 == 0 && 0 * a.raw == 0 && 0 * ONE_RAW == 0);
    if a.raw > 0 {
        assert(0int / (a.raw as int) == 0) by (nonlinear_arith)
            requires
                a.raw > 0,
        ;
    } else if a.raw < 0 {
        assert(0int / (-a.raw) == 0) by (nonlinear_arith)
            requires
                a.raw < 0,
        ;
    }
}

/// One times anything is that thing, and so is anything over one.
pub proof fn lemma_one_is_neutral(a: Fixed)
    ensures
        a.mul(Fixed::one()) == a,
        Fixed::one().mul(a) == a,
        a.div(Fixed::one()) == a,
{
    assert(a.raw * ONE_RAW == a.raw * 0x1_0000_0000 && ONE_RAW * a.raw == a.raw * 0x1_0000_0000);
}

/// Saturates a wide intermediate result.
fn saturate_wide(x: i128) -> (r: Fixed)
    ensures
        r.raw == saturate(x as int),
{
    if x < i64::MIN as i128 {
        Fixed { raw: i64::MIN }
    } else if x > i64::MAX as i128 {
        Fixed { raw: i64::MAX }
    } else {
        Fixed { raw: x as i64 }
    }
}

} // verus!
