//! Fixed-point scalars: an `i64` holds the value times `SCALE`.
//!
//! The executable operations truncate toward zero, exactly as the
//! specification functions `tdiv`, `fmul` and `fdiv` say they do, so every
//! arithmetic result in the crate is pinned to the last raw unit.

use vstd::prelude::*;
use vstd::arithmetic::div_mod::{lemma_div_is_ordered, lemma_div_by_multiple};

verus! {

/// Raw units per world unit: 16 fractional bits.
pub const SCALE: i64 = 65536;

pub open spec fn fits_i64(x: int) -> bool {
    i64::MIN <= x <= i64::MAX
}

/// Division truncating toward zero (machine rounding), for a positive divisor.
pub open spec fn tdiv(n: int, d: int) -> int {
    if n >= 0 {
        n / d
    } else {
        -((-n) / d)
    }
}

/// Fixed-point product: `(a * b) / SCALE`, truncated toward zero.
pub open spec fn fmul(a: int, b: int) -> int {
    tdiv(a * b, 65536)
}

/// Fixed-point quotient: `(a * SCALE) / b`, truncated toward zero.
pub open spec fn fdiv(a: int, b: int) -> int {
    tdiv(a * 65536, b)
}

/// Integer square root: the greatest `r >= 0` with `r * r <= n` (0 below 1).
pub open spec fn sqrt_s(n: int) -> int
    decreases n,
{
    if n <= 0 {
        0
    } else {
        let r = sqrt_s(n - 1);
        if (r + 1) * (r + 1) <= n {
            r + 1
        } else {
            r
        }
    }
}

pub proof fn lemma_sq_monotone(a: int, b: int)
    by (nonlinear_arith)
    requires
        0 <= a <= b,
    ensures
        a * a <= b * b,
{
}

pub proof fn lemma_sqrt_bounds(n: int)
    requires
        n >= 0,
    ensures
        0 <= sqrt_s(n),
        sqrt_s(n) * sqrt_s(n) <= n,
        n < (sqrt_s(n) + 1) * (sqrt_s(n) + 1),
    decreases n,
{
    if n == 0 {
    } else {
        lemma_sqrt_bounds(n - 1);
        let r = sqrt_s(n - 1);
        if (r + 1) * (r + 1) <= n {
            assert((r + 2) * (r + 2) > (r + 1) * (r + 1)) by (nonlinear_arith)
                requires r >= 0;
        } else {
        }
    }
}

pub proof fn lemma_sqrt_unique(n: int, r: int)
    requires
        n >= 0,
        0 <= r,
        r * r <= n,
        n < (r + 1) * (r + 1),
    ensures
        r == sqrt_s(n),
{
    lemma_sqrt_bounds(n);
    let s = sqrt_s(n);
    if r < s {
        lemma_sq_monotone(r + 1, s);
        assert(n < s * s);
    }
    if s < r {
        lemma_sq_monotone(s + 1, r);
        assert(n < r * r);
    }
}

/// A divisor-scaled bound carries over to the truncated quotient.
pub proof fn lemma_tdiv_bound(n: int, d: int, b: int)
    requires
        d > 0,
        b >= 0,
        -(b * d) <= n <= b * d,
    ensures
        -b <= tdiv(n, d) <= b,
{
    if n >= 0 {
        lemma_div_is_ordered(n, b * d, d);
        lemma_div_by_multiple(b, d);
    } else {
        lemma_div_is_ordered(-n, b * d, d);
        lemma_div_by_multiple(b, d);
        assert((-n) / d >= 0) by {
            vstd::arithmetic::div_mod::lemma_div_pos_is_pos(-n, d);
        }
    }
}

/// The truncated quotient keeps the numerator's sign (weakly).
pub proof fn lemma_tdiv_sign(n: int, d: int)
    requires
        d > 0,
    ensures
        n >= 0 ==> tdiv(n, d) >= 0,
        n <= 0 ==> tdiv(n, d) <= 0,
        tdiv(-n, d) == -tdiv(n, d),
    decreases 0int,
{
    if n >= 0 {
        vstd::arithmetic::div_mod::lemma_div_pos_is_pos(n, d);
    } else {
        vstd::arithmetic::div_mod::lemma_div_pos_is_pos(-n, d);
    }
}

/// Truncating division by a positive divisor, on wide intermediates.
pub fn div_wide(n: i128, d: i128) -> (r: i128)
    requires
        d > 0,
        n > i128::MIN,
    ensures
        r == tdiv(n as int, d as int),
{
    if n >= 0 {
        let q: u128 = (n as u128) / (d as u128);
        q as i128
    } else {
        let m: i128 = -n;
        let q: u128 = (m as u128) / (d as u128);
        proof {
            vstd::arithmetic::div_mod::lemma_div_is_ordered_by_denominator(m as int, 1, d as int);
            vstd::arithmetic::div_mod::lemma_div_pos_is_pos(m as int, d as int);
        }
        -(q as i128)
    }
}

/// Fixed-point multiplication, truncating toward zero.
pub fn fx_mul(a: i64, b: i64) -> (r: i64)
    requires
        fits_i64(fmul(a as int, b as int)),
    ensures
        r == fmul(a as int, b as int),
{
    let w: i128 = (a as i128) * (b as i128);
    let q = div_wide(w, 65536);
    q as i64
}

/// Fixed-point division by a positive divisor, truncating toward zero.
pub fn fx_div(a: i64, b: i64) -> (r: i64)
    requires
        b > 0,
        fits_i64(fdiv(a as int, b as int)),
    ensures
        r == fdiv(a as int, b as int),
{
    let w: i128 = (a as i128) * 65536;
    let q = div_wide(w, b as i128);
    q as i64
}

/// Integer square root of a wide nonnegative value.
pub fn isqrt_wide(n: i128) -> (r: i128)
    requires
        0 <= n < 0x40000000000000000000000000000000,
    ensures
        r == sqrt_s(n as int),
        0 <= r < 0x8000000000000000,
{
    let mut lo: i128 = 0;
    let mut hi: i128 = 0x8000000000000000;
    proof {
        assert(hi * hi == 0x40000000000000000000000000000000) by (nonlinear_arith)
            requires hi == 0x8000000000000000;
    }
    while lo + 1 < hi
        invariant
            0 <= lo < hi <= 0x8000000000000000,
            lo * lo <= n,
            n < hi * hi,
        decreases hi - lo,
    {
        let mid: i128 = lo + (((hi - lo) as u128 / 2) as i128);
        proof {
            assert(mid * mid <= 0x40000000000000000000000000000000) by (nonlinear_arith)
                requires 0 <= mid <= 0x8000000000000000;
        }
        if mid * mid <= n {
            lo = mid;
        } else {
            hi = mid;
        }
    }
    proof {
        lemma_sqrt_unique(n as int, lo as int);
    }
    lo
}

/// Fixed-point square root: `sqrt_fx(a)` is the root of the value `a / SCALE`,
/// again at `SCALE`, rounded down.
pub fn sqrt_fx(a: i64) -> (r: i64)
    requires
        a >= 0,
    ensures
        r == sqrt_s(a * 65536),
        r >= 0,
{
    let w: i128 = (a as i128) * 65536;
    let r = isqrt_wide(w);
    proof {
        lemma_sqrt_bounds(w as int);
        let s = sqrt_s(w as int);
        assert(s < 0x10000000000) by {
            if s >= 0x10000000000 {
                lemma_sq_monotone(0x10000000000, s);
            }
        }
    }
    r as i64
}

/// Clamp a scalar into `[lo, hi]`.
pub fn clamp_fx(x: i64, lo: i64, hi: i64) -> (r: i64)
    requires
        lo <= hi,
    ensures
        r == if x < lo { lo as int } else if x > hi { hi as int } else { x as int },
{
    if x < lo {
        lo
    } else if x > hi {
        hi
    } else {
        x
    }
}


/// A tight bound on a fixed-point product from factor bounds.
pub proof fn lemma_fmul_tight(a: int, b: int, ba: int, bb: int, c: int)
    requires
        ba >= 0,
        bb >= 0,
        -ba <= a <= ba,
        -bb <= b <= bb,
        ba * bb <= c * 65536,
    ensures
        -c <= fmul(a, b) <= c,
{
    assert(0 <= ba * bb && -(ba * bb) <= a * b && a * b <= ba * bb) by (nonlinear_arith)
        requires ba >= 0 && bb >= 0 && -ba <= a <= ba && -bb <= b <= bb;
    lemma_tdiv_bound(a * b, 65536, c);
}

/// A product of two unit-interval scalars stays in the unit interval.
pub proof fn lemma_fmul_unit(a: int, b: int)
    requires
        0 <= a <= 65536,
        0 <= b <= 65536,
    ensures
        0 <= fmul(a, b) <= 65536,
{
    lemma_fmul_tight(a, b, 65536, 65536, 65536);
    assert(a * b >= 0) by (nonlinear_arith)
        requires a >= 0 && b >= 0;
    lemma_tdiv_sign(a * b, 65536);
}


/// The exact wide product of two 64-bit scalars.
pub fn mul_wide(a: i64, b: i64) -> (r: i128)
    ensures
        r == a as int * b as int,
        -0x40000000000000000000000000000000 <= r <= 0x40000000000000000000000000000000,
{
    proof {
        assert(-0x40000000000000000000000000000000 <= a as int * b as int
            && a as int * b as int <= 0x40000000000000000000000000000000) by (nonlinear_arith)
            requires i64::MIN <= a <= i64::MAX && i64::MIN <= b <= i64::MAX;
    }
    (a as i128) * (b as i128)
}


/// Truncated division by a positive divisor is monotone in the numerator.
pub proof fn lemma_tdiv_monotone(n1: int, n2: int, d: int)
    requires
        d > 0,
        n1 <= n2,
    ensures
        tdiv(n1, d) <= tdiv(n2, d),
{
    if n1 >= 0 {
        lemma_div_is_ordered(n1, n2, d);
    } else if n2 < 0 {
        lemma_div_is_ordered(-n2, -n1, d);
    } else {
        lemma_tdiv_sign(n1, d);
        lemma_tdiv_sign(n2, d);
    }
}


/// Expansion of a squared difference.
pub proof fn lemma_binomial_sub(a: int, b: int)
    by (nonlinear_arith)
    ensures
        (a - b) * (a - b) == a * a - 2 * (a * b) + b * b,
{
}

/// Expansion of a squared sum.
pub proof fn lemma_binomial_add(a: int, b: int)
    by (nonlinear_arith)
    ensures
        (a + b) * (a + b) == a * a + 2 * (a * b) + b * b,
{
}

/// The square of a product splits into squares of the factors.
pub proof fn lemma_square_of_product(x: int, y: int)
    by (nonlinear_arith)
    ensures
        (x * y) * (x * y) == (y * y) * (x * x),
{
}

/// Factors of a product of products may be exchanged.
pub proof fn lemma_mul_exchange(a: int, b: int, c: int, e: int)
    by (nonlinear_arith)
    ensures
        (a * b) * (c * e) == (b * e) * (a * c),
{
}

/// Regrouping of the cross term of a reflection square.
pub proof fn lemma_mul_twist(v: int, s: int, d: int, n: int)
    by (nonlinear_arith)
    ensures
        (v * s) * (2 * d * n) == 2 * ((s * d) * (v * n)),
{
}

/// The square of a doubled product.
pub proof fn lemma_double_sq(d: int, n: int)
    by (nonlinear_arith)
    ensures
        (2 * d * n) * (2 * d * n) == 4 * ((d * d) * (n * n)),
{
}

/// A common factor distributes over a three-term sum.
pub proof fn lemma_mul_dist3(k: int, a: int, b: int, c: int)
    by (nonlinear_arith)
    ensures
        k * a + k * b + k * c == k * (a + b + c),
{
}

/// Rotation of factors in a triple product.
pub proof fn lemma_mul_rotate(s: int, d: int)
    by (nonlinear_arith)
    ensures
        (s * d) * d == (d * d) * s,
{
}

/// A negated factor pulls out of a product.
pub proof fn lemma_neg_right(s: int, c: int)
    by (nonlinear_arith)
    ensures
        (s * c) * (-c) == -(s * (c * c)),
{
}

} // verus!
