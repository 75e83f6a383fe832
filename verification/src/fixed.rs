//! The fixed-point number format used throughout the tracer: an `i128`
//! carrying 16 fractional bits.  Products and quotients renormalise with
//! division truncating toward zero, as the contracts below state exactly.

use vstd::prelude::*;
use vstd::arithmetic::div_mod::lemma_div_is_ordered;
use vstd::arithmetic::div_mod::lemma_div_pos_is_pos;

verus! {

/// The fixed-point representation of 1.0: values carry 16 fractional bits.
pub const FX_ONE: i128 = 65536;

/// Largest magnitude accepted by `mul_fx` for each factor (2^62).
pub const FX_MUL_LIMIT: i128 = 4611686018427387904;

/// Largest magnitude accepted by `div_fx` for the numerator (2^100).
pub const FX_DIV_LIMIT: i128 = 1267650600228229401496703205376;

/// Largest value accepted by `sqrt_fx` (2^100).
pub const FX_SQRT_LIMIT: i128 = 1267650600228229401496703205376;

pub open spec fn abs1(a: int) -> int {
    if a >= 0 {
        a
    } else {
        -a
    }
}

/// Division truncating toward zero, the rounding of every fixed-point
/// renormalisation step in this crate.
pub open spec fn tdiv(a: int, b: int) -> int {
    if (a >= 0) == (b >= 0) {
        abs1(a) / abs1(b)
    } else {
        -(abs1(a) / abs1(b))
    }
}

/// Fixed-point product: multiply, then drop the extra 16 fractional bits.
pub open spec fn fx_mul(a: int, b: int) -> int {
    tdiv(a * b, FX_ONE as int)
}

/// Fixed-point quotient: widen by 16 fractional bits, then divide.
pub open spec fn fx_div(a: int, b: int) -> int {
    tdiv(a * (FX_ONE as int), b)
}

/// `r` is the integer square root of `n`.
pub open spec fn is_isqrt(n: int, r: int) -> bool {
    0 <= r && r * r <= n && n < (r + 1) * (r + 1)
}

pub open spec fn isqrt(n: int) -> int {
    choose|r: int| is_isqrt(n, r)
}

/// Fixed-point square root: the integer square root of the value widened
/// by 16 further fractional bits.
pub open spec fn fx_sqrt(x: int) -> int {
    isqrt(x * (FX_ONE as int))
}

/// Fixed-point power with a natural exponent, multiplying from the left.
pub open spec fn fx_pow(b: int, n: nat) -> int
    decreases n,
{
    if n == 0 {
        FX_ONE as int
    } else {
        fx_mul(b, fx_pow(b, (n - 1) as nat))
    }
}

/// The magnitude of a product is bounded by the product of the bounds.
pub proof fn lemma_mul_range(a: int, b: int, aa: int, bb: int)
    by (nonlinear_arith)
    requires
        -aa <= a <= aa,
        -bb <= b <= bb,
        0 <= aa,
        0 <= bb,
    ensures
        -(aa * bb) <= a * b <= aa * bb,
{
}

/// The magnitude of a truncating quotient is bounded by the quotient of
/// the bounds.
pub proof fn lemma_tdiv_bound(p: int, d: int, m: int)
    requires
        1 <= d,
        0 <= m,
        -m <= p <= m,
    ensures
        -(m / d) <= tdiv(p, d) <= m / d,
{
    lemma_div_pos_is_pos(m, d);
    if p >= 0 {
        lemma_div_is_ordered(p, m, d);
        lemma_div_pos_is_pos(p, d);
    } else {
        lemma_div_is_ordered(-p, m, d);
        lemma_div_pos_is_pos(-p, d);
    }
}

/// Range fact for fixed-point products, in one step.
pub proof fn lemma_fx_mul_range(a: int, b: int, aa: int, bb: int)
    requires
        -aa <= a <= aa,
        -bb <= b <= bb,
        0 <= aa,
        0 <= bb,
    ensures
        -(aa * bb) <= a * b <= aa * bb,
        -((aa * bb) / (FX_ONE as int)) <= fx_mul(a, b) <= (aa * bb) / (FX_ONE as int),
{
    lemma_mul_range(a, b, aa, bb);
    lemma_tdiv_bound(a * b, FX_ONE as int, aa * bb);
}

/// A fixed-point product of two values in [0, 1] stays in [0, 1].
pub proof fn lemma_fx_mul_unit(a: int, b: int)
    requires
        0 <= a <= FX_ONE,
        0 <= b <= FX_ONE,
    ensures
        0 <= fx_mul(a, b) <= FX_ONE,
        b == FX_ONE ==> fx_mul(a, b) == a,
{
    lemma_mul_range(a, b, a, FX_ONE as int);
    lemma_fx_mul_range(a, b, FX_ONE as int, FX_ONE as int);
    assert(0 <= a * b) by (nonlinear_arith)
        requires 0 <= a && 0 <= b;
    lemma_div_pos_is_pos(a * b, FX_ONE as int);
    if b == FX_ONE {
        assert(a * b == a * 65536) by (nonlinear_arith)
            requires b == 65536;
        assert((a * 65536) / 65536 == a) by (nonlinear_arith);
    }
}

/// The integer square root exists for every nonnegative argument.
pub proof fn lemma_isqrt_exists(n: int)
    requires
        0 <= n,
    ensures
        is_isqrt(n, isqrt(n)),
    decreases n,
{
    if n == 0 {
        assert(is_isqrt(0, 0));
        assert(exists|r: int| is_isqrt(0, r));
    } else {
        lemma_isqrt_exists(n - 1);
        let r = isqrt(n - 1);
        if n < (r + 1) * (r + 1) {
            assert(is_isqrt(n, r));
            assert(exists|r2: int| is_isqrt(n, r2));
        } else {
            assert((r + 1) * (r + 1) <= n);
            assert(n - 1 < (r + 1) * (r + 1));
            assert(n == (r + 1) * (r + 1));
            assert(n < (r + 2) * (r + 2)) by (nonlinear_arith)
                requires 0 <= r && n == (r + 1) * (r + 1);
            assert(is_isqrt(n, r + 1));
            assert(exists|r2: int| is_isqrt(n, r2));
        }
    }
}

/// The integer square root is unique.
pub proof fn lemma_isqrt_unique(n: int, r: int)
    requires
        is_isqrt(n, r),
    ensures
        r == isqrt(n),
{
    assert(exists|r2: int| is_isqrt(n, r2));
    let r2 = isqrt(n);
    assert(is_isqrt(n, r2));
    if r < r2 {
        assert(false) by (nonlinear_arith)
            requires is_isqrt(n, r) && is_isqrt(n, r2) && r < r2;
    }
    if r2 < r {
        assert(false) by (nonlinear_arith)
            requires is_isqrt(n, r) && is_isqrt(n, r2) && r2 < r;
    }
}

/// Divide by the scale constant, truncating toward zero.
fn div_by_one_fx(p: i128) -> (q: i128)
    requires
        -85070591730234615865843651857942052864 <= p,
    ensures
        q == tdiv(p as int, FX_ONE as int),
{
    if p >= 0 {
        ((p as u128) / 65536u128) as i128
    } else {
        proof {
            lemma_div_is_ordered((-p) as int, 170141183460469231731687303715884105727, 65536);
            lemma_div_pos_is_pos((-p) as int, 65536);
        }
        -((((-p) as u128) / 65536u128) as i128)
    }
}

/// Fixed-point multiplication.
pub fn mul_fx(a: i128, b: i128) -> (r: i128)
    requires
        -FX_MUL_LIMIT <= a <= FX_MUL_LIMIT,
        -FX_MUL_LIMIT <= b <= FX_MUL_LIMIT,
    ensures
        r == fx_mul(a as int, b as int),
{
    proof {
        lemma_mul_range(a as int, b as int, FX_MUL_LIMIT as int, FX_MUL_LIMIT as int);
    }
    let p: i128 = a * b;
    div_by_one_fx(p)
}

/// Fixed-point division.
pub fn div_fx(a: i128, b: i128) -> (r: i128)
    requires
        b != 0,
        -85070591730234615865843651857942052864 <= b,
        -FX_DIV_LIMIT <= a <= FX_DIV_LIMIT,
    ensures
        r == fx_div(a as int, b as int),
{
    proof {
        lemma_mul_range(a as int, 65536, FX_DIV_LIMIT as int, 65536);
    }
    let p: i128 = a * 65536;
    let pa: u128 = if p >= 0 { p as u128 } else { (-p) as u128 };
    let pb: u128 = if b >= 0 { b as u128 } else { (-b) as u128 };
    proof {
        lemma_div_is_ordered(pa as int, 170141183460469231731687303715884105727, pb as int);
        lemma_div_pos_is_pos(pa as int, pb as int);
    }
    let q: u128 = pa / pb;
    if (p >= 0) == (b >= 0) {
        q as i128
    } else {
        -(q as i128)
    }
}

/// Integer square root by bisection.
fn sqrt_u(n: u128) -> (r: u128)
    requires
        n < 1329227995784915872903807060280344576,
    ensures
        is_isqrt(n as int, r as int),
{
    let mut lo: u128 = 0;
    let mut hi: u128 = 1152921504606846976;
    proof {
        assert((1152921504606846976 as int) * (1152921504606846976 as int)
            == 1329227995784915872903807060280344576int) by (nonlinear_arith);
    }
    while lo + 1 < hi
        invariant
            lo < hi,
            hi <= 1152921504606846976,
            (lo as int) * (lo as int) <= n as int,
            (n as int) < (hi as int) * (hi as int),
        decreases hi - lo,
    {
        let mid: u128 = lo + (hi - lo) / 2;
        proof {
            lemma_mul_range(mid as int, mid as int, 1152921504606846976, 1152921504606846976);
        }
        if mid * mid <= n {
            lo = mid;
        } else {
            hi = mid;
        }
    }
    lo
}

/// Fixed-point square root.
pub fn sqrt_fx(x: i128) -> (r: i128)
    requires
        0 <= x <= FX_SQRT_LIMIT,
    ensures
        r == fx_sqrt(x as int),
        is_isqrt((x as int) * (FX_ONE as int), r as int),
        0 <= r <= 1152921504606846976,
{
    proof {
        lemma_mul_range(x as int, 65536, FX_SQRT_LIMIT as int, 65536);
    }
    let n: u128 = (x as u128) * 65536u128;
    let r = sqrt_u(n);
    proof {
        lemma_isqrt_unique(n as int, r as int);
        assert(r as int <= 1152921504606846976) by (nonlinear_arith)
            requires
                is_isqrt(n as int, r as int)
                    && n as int <= 1329227995784915872903807060280344576;
    }
    r as i128
}

/// Fixed-point power with a natural exponent.
pub fn pow_fx(b: i128, n: u32) -> (r: i128)
    requires
        0 <= b <= FX_ONE,
    ensures
        r == fx_pow(b as int, n as nat),
        0 <= r <= FX_ONE,
{
    let mut acc: i128 = FX_ONE;
    let mut i: u32 = 0;
    while i < n
        invariant
            i <= n,
            0 <= b <= FX_ONE,
            0 <= acc <= FX_ONE,
            acc == fx_pow(b as int, i as nat),
        decreases n - i,
    {
        proof {
            lemma_fx_mul_unit(b as int, acc as int);
        }
        acc = mul_fx(b, acc);
        i = i + 1;
    }
    acc
}

} // verus!
