//! Saturating fixed-point arithmetic on scaled integers.
//!
//! A physical quantity is an `i128` counting units of `1 / SCALE` (one
//! millionth of a whole unit). Multiplication and division rescale their
//! result and truncate toward zero, as machine division does, and every
//! result saturates into `[-LIMIT, LIMIT]`, so the arithmetic is total:
//! no operation overflows or panics.

use vstd::arithmetic::div_mod::{
    lemma_div_is_ordered, lemma_div_nonincreasing, lemma_div_pos_is_pos,
};
use vstd::prelude::*;

verus! {

/// Number of fixed-point units in one whole unit.
pub const SCALE: i128 = 1_000_000;

/// Largest representable magnitude; results saturate here.
pub const LIMIT: i128 = 1_000_000_000_000_000;

/// Largest argument magnitude accepted by the multiplying operations.
pub const MUL_ARG_MAX: i128 = 100_000_000_000_000_000;

/// Largest argument magnitude accepted by the dividing operations.
pub const DIV_ARG_MAX: i128 = 1_000_000_000_000_000_000_000_000_000_000;

/// Saturation of a mathematical integer into the representable range.
pub open spec fn clamp_s(v: int) -> int {
    if v > LIMIT {
        LIMIT as int
    } else if v < -LIMIT {
        -(LIMIT as int)
    } else {
        v
    }
}

/// Division truncating toward zero (the behaviour of machine division),
/// for positive divisors.
pub open spec fn tdiv_s(a: int, b: int) -> int {
    if a >= 0 {
        a / b
    } else {
        -((-a) / b)
    }
}

/// Fixed-point product: rescaled, truncated, saturated.
pub open spec fn fmul_s(a: int, b: int) -> int {
    clamp_s(tdiv_s(a * b, SCALE as int))
}

/// Fixed-point quotient: rescaled, truncated, saturated.
pub open spec fn fdiv_s(a: int, b: int) -> int {
    clamp_s(tdiv_s(a * SCALE, b))
}

/// Saturating sum.
pub open spec fn fadd_s(a: int, b: int) -> int {
    clamp_s(a + b)
}

/// Saturating difference.
pub open spec fn fsub_s(a: int, b: int) -> int {
    clamp_s(a - b)
}

/// The integer square root: the greatest `r` with `r * r <= n`.
pub open spec fn sqrt_s(n: int) -> int {
    choose|r: int| 0 <= r && #[trigger] (r * r) <= n && n < (r + 1) * (r + 1)
}

/// Saturation into the representable range.
pub fn clamp_fix(v: i128) -> (r: i128)
    ensures
        r == clamp_s(v as int),
{
    if v > LIMIT {
        LIMIT
    } else if v < -LIMIT {
        -LIMIT
    } else {
        v
    }
}

/// Division truncating toward zero, computed on magnitudes.
pub fn tdiv_fix(a: i128, b: i128) -> (r: i128)
    requires
        b > 0,
        a != i128::MIN,
    ensures
        r == tdiv_s(a as int, b as int),
{
    if a >= 0 {
        let q: u128 = (a as u128) / (b as u128);
        proof {
            lemma_div_nonincreasing(a as int, b as int);
        }
        q as i128
    } else {
        let m: i128 = -a;
        let q: u128 = (m as u128) / (b as u128);
        proof {
            lemma_div_nonincreasing(m as int, b as int);
            lemma_div_pos_is_pos(m as int, b as int);
        }
        -(q as i128)
    }
}

/// Fixed-point product.
pub fn mul_fix(a: i128, b: i128) -> (r: i128)
    requires
        -MUL_ARG_MAX <= a <= MUL_ARG_MAX,
        -MUL_ARG_MAX <= b <= MUL_ARG_MAX,
    ensures
        r == fmul_s(a as int, b as int),
{
    proof {
        assert((a as int) * (b as int) <= (MUL_ARG_MAX as int) * (MUL_ARG_MAX as int)
            && (a as int) * (b as int) >= -((MUL_ARG_MAX as int) * (MUL_ARG_MAX as int)))
            by (nonlinear_arith)
            requires
                -MUL_ARG_MAX <= a <= MUL_ARG_MAX,
                -MUL_ARG_MAX <= b <= MUL_ARG_MAX,
        ;
    }
    let p: i128 = a * b;
    let q: i128 = tdiv_fix(p, SCALE);
    clamp_fix(q)
}

/// Fixed-point quotient; the divisor must be positive.
pub fn div_fix(a: i128, b: i128) -> (r: i128)
    requires
        b > 0,
        -DIV_ARG_MAX <= a <= DIV_ARG_MAX,
    ensures
        r == fdiv_s(a as int, b as int),
{
    let p: i128 = a * SCALE;
    let q: i128 = tdiv_fix(p, b);
    clamp_fix(q)
}

/// Saturating sum.
pub fn add_fix(a: i128, b: i128) -> (r: i128)
    requires
        -MUL_ARG_MAX <= a <= MUL_ARG_MAX,
        -MUL_ARG_MAX <= b <= MUL_ARG_MAX,
    ensures
        r == fadd_s(a as int, b as int),
{
    clamp_fix(a + b)
}

/// Saturating difference.
pub fn sub_fix(a: i128, b: i128) -> (r: i128)
    requires
        -MUL_ARG_MAX <= a <= MUL_ARG_MAX,
        -MUL_ARG_MAX <= b <= MUL_ARG_MAX,
    ensures
        r == fsub_s(a as int, b as int),
{
    clamp_fix(a - b)
}

/// Upper bound of the bisection in `isqrt`: no square root exceeds 2^64.
pub const SQRT_HI: u128 = 0x1_0000_0000_0000_0000;

/// The integer square root, by bisection.
pub fn isqrt(n: u128) -> (r: u128)
    ensures
        (r as int) * (r as int) <= n as int,
        (n as int) < (r + 1) * (r + 1),
        r == sqrt_s(n as int),
{
    let mut lo: u128 = 0;
    let mut hi: u128 = SQRT_HI;
    proof {
        assert((n as int) < (SQRT_HI as int) * (SQRT_HI as int)) by (nonlinear_arith)
            requires
                n <= u128::MAX,
        ;
    }
    while hi - lo > 1
        invariant
            lo < hi <= SQRT_HI,
            (lo as int) * (lo as int) <= n as int,
            (n as int) < (hi as int) * (hi as int),
        decreases hi - lo,
    {
        let mid: u128 = lo + (hi - lo) / 2;
        proof {
            assert((mid as int) * (mid as int) <= u128::MAX as int) by (nonlinear_arith)
                requires
                    mid < 0x1_0000_0000_0000_0000u128,
            ;
        }
        if mid * mid <= n {
            lo = mid;
        } else {
            hi = mid;
        }
    }
    proof {
        lemma_sqrt_s_unique(n as int, lo as int);
    }
    lo
}

/// The integer square root is single-valued: any `r` bracketing `n`
/// between consecutive squares is the square root.
pub proof fn lemma_sqrt_s_unique(n: int, r: int)
    requires
        0 <= r,
        r * r <= n,
        n < (r + 1) * (r + 1),
    ensures
        sqrt_s(n) == r,
{
    assert(exists|c: int| 0 <= c && #[trigger] (c * c) <= n && n < (c + 1) * (c + 1)) by {
        assert(0 <= r && r * r <= n && n < (r + 1) * (r + 1));
    }
    let c = sqrt_s(n);
    assert(0 <= c && c * c <= n && n < (c + 1) * (c + 1));
    if c < r {
        assert((c + 1) * (c + 1) <= r * r) by (nonlinear_arith)
            requires
                0 <= c < r,
        ;
        assert(false);
    }
    if r < c {
        assert((r + 1) * (r + 1) <= c * c) by (nonlinear_arith)
            requires
                0 <= r < c,
        ;
        assert(false);
    }
}

/// Every nonnegative integer has an integer square root, so `sqrt_s` is
/// bracketed by consecutive squares.
pub proof fn lemma_sqrt_s_props(n: int)
    requires
        0 <= n,
    ensures
        0 <= sqrt_s(n),
        sqrt_s(n) * sqrt_s(n) <= n,
        n < (sqrt_s(n) + 1) * (sqrt_s(n) + 1),
    decreases n,
{
    if n == 0 {
        lemma_sqrt_s_unique(0, 0);
    } else {
        lemma_sqrt_s_props(n - 1);
        let r = sqrt_s(n - 1);
        if n < (r + 1) * (r + 1) {
            lemma_sqrt_s_unique(n, r);
        } else {
            assert(n == (r + 1) * (r + 1));
            assert((r + 2) * (r + 2) > n) by (nonlinear_arith)
                requires
                    n == (r + 1) * (r + 1),
                    r >= 0,
            ;
            lemma_sqrt_s_unique(n, r + 1);
        }
    }
}

/// Scaling by a factor of at most one whole unit never grows a magnitude.
pub proof fn lemma_fmul_contracts(k: int, d: int)
    requires
        0 <= k <= SCALE,
    ensures
        d >= 0 ==> 0 <= fmul_s(k, d) <= d,
        d < 0 ==> d <= fmul_s(k, d) <= 0,
{
    let s = SCALE as int;
    if d >= 0 {
        assert(k * d >= 0 && k * d <= s * d) by (nonlinear_arith)
            requires
                0 <= k <= s,
                d >= 0,
        ;
        lemma_div_pos_is_pos(k * d, s);
        lemma_div_is_ordered(k * d, s * d, s);
        assert((s * d) / s == d) by (nonlinear_arith)
            requires
                s > 0,
        ;
    } else {
        let m = -d;
        assert(k * m >= 0 && k * m <= s * m) by (nonlinear_arith)
            requires
                0 <= k <= s,
                m >= 0,
        ;
        lemma_div_pos_is_pos(k * m, s);
        lemma_div_is_ordered(k * m, s * m, s);
        assert((s * m) / s == m) by (nonlinear_arith)
            requires
                s > 0,
        ;
        assert(k * d == -(k * m)) by (nonlinear_arith)
            requires
                m == -d,
        ;
    }
}

/// A quotient of magnitude at most the divisor stays within one whole unit.
pub proof fn lemma_fdiv_unit(a: int, b: int)
    requires
        b > 0,
        -b <= a <= b,
    ensures
        a >= 0 ==> 0 <= fdiv_s(a, b) <= SCALE,
        a < 0 ==> -SCALE <= fdiv_s(a, b) <= 0,
{
    let s = SCALE as int;
    if a >= 0 {
        assert(a * s <= b * s) by (nonlinear_arith)
            requires
                a <= b,
                s > 0,
        ;
        lemma_div_pos_is_pos(a * s, b);
        lemma_div_is_ordered(a * s, b * s, b);
        assert((b * s) / b == s) by (nonlinear_arith)
            requires
                b > 0,
        ;
    } else {
        let m = -a;
        assert(m * s <= b * s) by (nonlinear_arith)
            requires
                m <= b,
                s > 0,
        ;
        lemma_div_pos_is_pos(m * s, b);
        lemma_div_is_ordered(m * s, b * s, b);
        assert((b * s) / b == s) by (nonlinear_arith)
            requires
                b > 0,
        ;
        assert(a * s == -(m * s)) by (nonlinear_arith)
            requires
                m == -a,
        ;
    }
}

/// A fixed-point product of nonnegative factors is nonnegative; a fixed-point
/// square of a value of at least one thousandth is at least one raw unit.
pub proof fn lemma_fmul_square_pos(a: int)
    requires
        a >= 1000,
    ensures
        fmul_s(a, a) >= 1,
{
    assert(a * a >= 1000000) by (nonlinear_arith)
        requires
            a >= 1000,
    ;
    lemma_div_is_ordered(1000000, a * a, SCALE as int);
}

/// Nonnegative factors give a nonnegative fixed-point product.
pub proof fn lemma_fmul_nonneg(a: int, b: int)
    requires
        a >= 0,
        b >= 0,
    ensures
        fmul_s(a, b) >= 0,
{
    assert(a * b >= 0) by (nonlinear_arith)
        requires
            a >= 0,
            b >= 0,
    ;
    lemma_div_pos_is_pos(a * b, SCALE as int);
}

/// A saturated value lies within the representable range.
pub proof fn lemma_clamp_bounds(v: int)
    ensures
        -LIMIT <= clamp_s(v) <= LIMIT,
{
}

/// A fixed-point product by a nonnegative factor keeps the sign of the
/// other factor.
pub proof fn lemma_fmul_sign(a: int, b: int)
    requires
        b >= 0,
    ensures
        a >= 0 ==> fmul_s(a, b) >= 0,
        a <= 0 ==> fmul_s(a, b) <= 0,
{
    if a >= 0 {
        lemma_fmul_nonneg(a, b);
    } else {
        let m = -(a * b);
        assert(a * b <= 0 && m == (-a) * b) by (nonlinear_arith)
            requires
                a <= 0,
                b >= 0,
                m == -(a * b),
        ;
        lemma_div_pos_is_pos(m, SCALE as int);
        vstd::arithmetic::div_mod::lemma_div_of0(SCALE as int);
    }
}

/// Scaling zero gives zero.
pub proof fn lemma_fmul_zero(k: int)
    ensures
        fmul_s(0, k) == 0,
{
    assert(0 * k == 0) by (nonlinear_arith);
    vstd::arithmetic::div_mod::lemma_div_of0(SCALE as int);
}

/// The fixed-point product does not depend on the order of its factors.
pub proof fn lemma_fmul_commutes(a: int, b: int)
    ensures
        fmul_s(a, b) == fmul_s(b, a),
{
    assert(a * b == b * a) by (nonlinear_arith);
}

/// The fixed-point product is monotone over nonnegative factors.
pub proof fn lemma_fmul_mono(a: int, b: int, a0: int, b0: int)
    requires
        0 <= a0 <= a,
        0 <= b0 <= b,
    ensures
        fmul_s(a0, b0) <= fmul_s(a, b),
{
    assert(0 <= a0 * b0 && a0 * b0 <= a * b) by (nonlinear_arith)
        requires
            0 <= a0 <= a,
            0 <= b0 <= b,
    ;
    lemma_div_is_ordered(a0 * b0, a * b, SCALE as int);
    lemma_div_pos_is_pos(a0 * b0, SCALE as int);
}

/// The magnitude of a fixed-point product is bounded by the product of the
/// factors' bounds.
pub proof fn lemma_fmul_mag(a: int, b: int, ma: int, mb: int)
    requires
        -ma <= a <= ma,
        -mb <= b <= mb,
        0 <= ma,
        0 <= mb,
    ensures
        -clamp_s(tdiv_s(ma * mb, SCALE as int)) <= fmul_s(a, b) <= clamp_s(
            tdiv_s(ma * mb, SCALE as int),
        ),
{
    let v = a * b;
    let m = ma * mb;
    assert(-m <= v <= m) by (nonlinear_arith)
        requires
            -ma <= a <= ma,
            -mb <= b <= mb,
            0 <= ma,
            0 <= mb,
            v == a * b,
            m == ma * mb,
    ;
    lemma_div_pos_is_pos(m, SCALE as int);
    if v >= 0 {
        lemma_div_is_ordered(v, m, SCALE as int);
        lemma_div_pos_is_pos(v, SCALE as int);
    } else {
        lemma_div_is_ordered(-v, m, SCALE as int);
        lemma_div_pos_is_pos(-v, SCALE as int);
    }
}

/// The integer cube root: the greatest `r` with `r * r * r <= n`.
pub open spec fn cbrt_s(n: int) -> int {
    choose|r: int| 0 <= r && #[trigger] (r * r * r) <= n && n < (r + 1) * (r + 1) * (r + 1)
}

/// The fixed-point cube root of a nonnegative value.
pub open spec fn fcbrt_s(v: int) -> int {
    cbrt_s(v * SCALE * SCALE)
}

/// The integer cube root is single-valued.
pub proof fn lemma_cbrt_s_unique(n: int, r: int)
    requires
        0 <= r,
        r * r * r <= n,
        n < (r + 1) * (r + 1) * (r + 1),
    ensures
        cbrt_s(n) == r,
{
    assert(exists|c: int|
        0 <= c && #[trigger] (c * c * c) <= n && n < (c + 1) * (c + 1) * (c + 1)) by {
        assert(0 <= r && r * r * r <= n && n < (r + 1) * (r + 1) * (r + 1));
    }
    let c = cbrt_s(n);
    assert(0 <= c && c * c * c <= n && n < (c + 1) * (c + 1) * (c + 1));
    if c < r {
        assert((c + 1) * (c + 1) * (c + 1) <= r * r * r) by (nonlinear_arith)
            requires
                0 <= c < r,
        ;
        assert(false);
    }
    if r < c {
        assert((r + 1) * (r + 1) * (r + 1) <= c * c * c) by (nonlinear_arith)
            requires
                0 <= r < c,
        ;
        assert(false);
    }
}

/// Upper bound of the bisection in `icbrt`: 2^34, whose cube exceeds every
/// accepted input.
pub const CBRT_HI: u128 = 0x4_0000_0000;

/// Largest input `icbrt` accepts.
pub const CBRT_ARG_MAX: u128 = 1_000_000_000_000_000_000_000_000_000;

/// The integer cube root, by bisection.
pub fn icbrt(n: u128) -> (r: u128)
    requires
        n <= CBRT_ARG_MAX,
    ensures
        (r as int) * (r as int) * (r as int) <= n as int,
        (n as int) < (r + 1) * (r + 1) * (r + 1),
        r == cbrt_s(n as int),
{
    let mut lo: u128 = 0;
    let mut hi: u128 = CBRT_HI;
    proof {
        assert((n as int) < (CBRT_HI as int) * (CBRT_HI as int) * (CBRT_HI as int))
            by (nonlinear_arith)
            requires
                n <= CBRT_ARG_MAX,
        ;
    }
    while hi - lo > 1
        invariant
            lo < hi <= CBRT_HI,
            (lo as int) * (lo as int) * (lo as int) <= n as int,
            (n as int) < (hi as int) * (hi as int) * (hi as int),
        decreases hi - lo,
    {
        let mid: u128 = lo + (hi - lo) / 2;
        proof {
            assert((mid as int) * (mid as int) <= u128::MAX as int && (mid as int) * (mid as int)
                * (mid as int) <= u128::MAX as int) by (nonlinear_arith)
                requires
                    mid <= 0x4_0000_0000u128,
            ;
        }
        if mid * mid * mid <= n {
            lo = mid;
        } else {
            hi = mid;
        }
    }
    proof {
        lemma_cbrt_s_unique(n as int, lo as int);
    }
    lo
}

/// The fixed-point cube root of a value of at most `LIMIT`.
pub fn cbrt_fix(v: i128) -> (r: i128)
    requires
        0 <= v <= LIMIT,
    ensures
        r == fcbrt_s(v as int),
        0 <= r <= 1_000_000_000,
        v <= SCALE ==> r <= SCALE,
{
    proof {
        assert((v as int) * (SCALE as int) * (SCALE as int) <= CBRT_ARG_MAX as int)
            by (nonlinear_arith)
            requires
                0 <= v <= LIMIT,
        ;
    }
    let n: u128 = (v as u128) * (SCALE as u128) * (SCALE as u128);
    let r = icbrt(n);
    proof {
        assert(n as int == (v as int) * (SCALE as int) * (SCALE as int));
        assert(r <= 1_000_000_000) by (nonlinear_arith)
            requires
                (r as int) * (r as int) * (r as int) <= n as int,
                n as int <= CBRT_ARG_MAX as int,
                r >= 0,
        ;
        if v <= SCALE {
            assert(r <= SCALE) by (nonlinear_arith)
                requires
                    (r as int) * (r as int) * (r as int) <= n as int,
                    n as int <= (SCALE as int) * (SCALE as int) * (SCALE as int),
                    r >= 0,
                    SCALE == 1_000_000i128,
            ;
        }
    }
    r as i128
}

/// A nonnegative dividend gives a nonnegative fixed-point quotient.
pub proof fn lemma_fdiv_nonneg(a: int, b: int)
    requires
        a >= 0,
        b > 0,
    ensures
        fdiv_s(a, b) >= 0,
{
    assert(a * SCALE >= 0) by (nonlinear_arith)
        requires
            a >= 0,
    ;
    lemma_div_pos_is_pos(a * SCALE, b);
}

} // verus!
