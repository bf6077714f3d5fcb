use vstd::prelude::*;

verus! {

/// A fixed-point number. The integer held is the number of millionths, so that
/// the value one is `ONE` and one half is `ONE / 2`.
pub type Scalar = i64;

/// The raw count that stands for the value one.
pub const ONE: Scalar = 1_000_000;

/// Whether a mathematical integer can be held in a `Scalar`.
pub open spec fn fits(v: int) -> bool {
    i64::MIN <= v <= i64::MAX
}

/// The quotient of `a` by a nonzero `b`, rounded toward zero.
pub open spec fn trunc_div(a: int, b: int) -> int {
    if b > 0 {
        if a >= 0 {
            a / b
        } else {
            -((-a) / b)
        }
    } else {
        if a >= 0 {
            -(a / (-b))
        } else {
            (-a) / (-b)
        }
    }
}

/// The quotient of `a` by a positive `b`, rounded away from zero, so that
/// only zero gives zero.
pub open spec fn away_div(a: int, b: int) -> int {
    if a >= 0 {
        (a + b - 1) / b
    } else {
        -((-a + b - 1) / b)
    }
}

/// The fixed-point product of two raw counts: their product in millionths,
/// rounded toward zero.
pub open spec fn times(a: int, b: int) -> int {
    trunc_div(a * b, ONE as int)
}

/// The fixed-point quotient of two raw counts, rounded toward zero.
pub open spec fn ratio(a: int, b: int) -> int {
    trunc_div(a * ONE, b)
}

/// `r` is the integer square root of `n`: the largest integer whose square
/// does not exceed `n`.
pub open spec fn is_isqrt(n: int, r: int) -> bool {
    0 <= r && r * r <= n < (r + 1) * (r + 1)
}

/// The integer square root of a non-negative `n`.
pub open spec fn isqrt(n: int) -> int {
    choose|r: int| is_isqrt(n, r)
}

/// Squaring is strictly monotone on the non-negative integers.
pub proof fn lemma_square_monotone(a: int, b: int)
    by (nonlinear_arith)
    requires
        0 <= a < b,
    ensures
        a * a < b * b,
{
}

/// An integer with the defining property of the square root is the square root.
pub proof fn lemma_isqrt_unique(n: int, r: int)
    requires
        is_isqrt(n, r),
    ensures
        isqrt(n) == r,
{
    let s = isqrt(n);
    assert(is_isqrt(n, s));
    if s < r {
        lemma_square_monotone(s, r);
        assert((s + 1) * (s + 1) <= r * r) by (nonlinear_arith)
            requires
                0 <= s,
                s + 1 <= r,
        ;
    } else if r < s {
        assert((r + 1) * (r + 1) <= s * s) by (nonlinear_arith)
            requires
                0 <= r,
                r + 1 <= s,
        ;
    }
}

/// Every non-negative integer has an integer square root.
pub proof fn lemma_isqrt_exists(n: int)
    requires
        0 <= n,
    ensures
        is_isqrt(n, isqrt(n)),
    decreases n,
{
    if n == 0 {
        assert(is_isqrt(0, 0));
    } else {
        lemma_isqrt_exists(n - 1);
        let r = isqrt(n - 1);
        assert((r + 1) * (r + 1) == r * r + 2 * r + 1) by (nonlinear_arith);
        assert((r + 2) * (r + 2) == r * r + 4 * r + 4) by (nonlinear_arith);
        if n < (r + 1) * (r + 1) {
            assert(is_isqrt(n, r));
        } else {
            assert(is_isqrt(n, r + 1));
        }
    }
}

/// Rounding toward zero commutes with a change of sign.
pub proof fn lemma_trunc_div_negated(a: int, b: int)
    requires
        b > 0,
    ensures
        trunc_div(-a, b) == -trunc_div(a, b),
{
}

/// A quotient of a non-negative number by one at least as large lies between
/// zero and one.
pub proof fn lemma_ratio_unit_interval(a: int, b: int)
    requires
        0 <= a <= b,
        0 < b,
    ensures
        0 <= ratio(a, b) <= ONE,
{
    assert(0 <= (a * 1_000_000) / b <= 1_000_000) by (nonlinear_arith)
        requires
            0 <= a <= b,
            0 < b,
    ;
}

/// A non-negative number times a fraction between zero and one lies between
/// zero and that number.
pub proof fn lemma_times_fraction(a: int, t: int)
    requires
        0 <= a,
        0 <= t <= ONE,
    ensures
        0 <= times(a, t) <= a,
{
    assert(0 <= (a * t) / 1_000_000 <= a) by (nonlinear_arith)
        requires
            0 <= a,
            0 <= t <= 1_000_000,
    ;
}

/// The product of two 64-bit integers takes no more than 127 bits.
pub proof fn lemma_product_bound(a: int, b: int)
    by (nonlinear_arith)
    requires
        -0x8000_0000_0000_0000 <= a <= 0x7fff_ffff_ffff_ffff,
        -0x8000_0000_0000_0000 <= b <= 0x7fff_ffff_ffff_ffff,
    ensures
        -0x3fff_ffff_ffff_ffff_8000_0000_0000_0000 <= a * b
            <= 0x4000_0000_0000_0000_0000_0000_0000_0000,
{
}

/// The product of two fixed-point numbers, rounded toward zero.
pub fn mul_fixed(a: Scalar, b: Scalar) -> (r: Scalar)
    requires
        fits(times(a as int, b as int)),
    ensures
        r == times(a as int, b as int),
{
    proof {
        lemma_product_bound(a as int, b as int);
    }
    let p: i128 = (a as i128) * (b as i128);
    let q: i128 = p / (ONE as i128);
    q as i64
}

/// The quotient of a fixed-point number by a nonzero one, rounded toward zero.
pub fn div_fixed(a: Scalar, b: Scalar) -> (r: Scalar)
    requires
        b != 0,
        fits(ratio(a as int, b as int)),
    ensures
        r == ratio(a as int, b as int),
{
    let p: i128 = (a as i128) * (ONE as i128);
    let q: i128 = if b > 0 {
        p / (b as i128)
    } else {
        (-p) / (-(b as i128))
    };
    q as i64
}

/// The integer square root: the largest integer whose square does not exceed
/// `n`.
pub fn isqrt_u128(n: u128) -> (r: u64)
    ensures
        r == isqrt(n as int),
        is_isqrt(n as int, r as int),
{
    let mut lo: u128 = 0;
    let mut hi: u128 = 0x1_0000_0000_0000_0000;
    assert(0x1_0000_0000_0000_0000 * 0x1_0000_0000_0000_0000
        == 0x1_0000_0000_0000_0000_0000_0000_0000_0000) by (nonlinear_arith);
    while hi - lo > 1
        invariant
            lo < hi <= 0x1_0000_0000_0000_0000,
            lo * lo <= n < hi * hi,
        decreases hi - lo,
    {
        let mid: u128 = lo + (hi - lo) / 2;
        assert(mid * mid < 0x1_0000_0000_0000_0000_0000_0000_0000_0000) by (nonlinear_arith)
            requires
                0 <= mid < 0x1_0000_0000_0000_0000,
        ;
        if mid * mid <= n {
            lo = mid;
        } else {
            hi = mid;
        }
    }
    proof {
        lemma_isqrt_unique(n as int, lo as int);
    }
    lo as u64
}

} // verus!
