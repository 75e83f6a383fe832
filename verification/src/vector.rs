//! 3D vectors over the fixed-point format, with subtract, add, scale,
//! dot product and normalisation.  Specifications mirror each operation
//! exactly over triples of unbounded integers.

use vstd::prelude::*;
use vstd::arithmetic::div_mod::lemma_div_pos_is_pos;
use vstd::arithmetic::div_mod::lemma_fundamental_div_mod;
use vstd::arithmetic::div_mod::lemma_mod_division_less_than_divisor;
use vstd::arithmetic::div_mod::lemma_div_multiples_vanish;
use crate::fixed::FX_ONE;
use crate::fixed::FX_MUL_LIMIT;
use crate::fixed::fx_mul;
use crate::fixed::fx_div;
use crate::fixed::fx_sqrt;
use crate::fixed::is_isqrt;
use crate::fixed::lemma_fx_mul_range;
use crate::fixed::lemma_tdiv_bound;
use crate::fixed::lemma_isqrt_unique;
use crate::fixed::mul_fx;
use crate::fixed::div_fx;
use crate::fixed::sqrt_fx;

verus! {

/// Magnitude bound accepted by `add` and `subtract` (2^110).
pub const VEC_LIMIT: i128 = 1298074214633706907132624082305024;

/// Magnitude bound accepted by `normalized` (2^56).
pub const NORM_LIMIT: i128 = 72057594037927936;

/// Every component of a normalised vector is below this (4.0 in fixed point).
pub const UNIT_LIMIT: i128 = 262144;

#[derive(Clone, Copy, Debug)]
pub struct Vector {
    pub x: i128,
    pub y: i128,
    pub z: i128,
}

impl View for Vector {
    type V = (int, int, int);

    open spec fn view(&self) -> (int, int, int) {
        (self.x as int, self.y as int, self.z as int)
    }
}

pub open spec fn v_bounded(a: (int, int, int), m: int) -> bool {
    &&& -m <= a.0 <= m
    &&& -m <= a.1 <= m
    &&& -m <= a.2 <= m
}

pub open spec fn v_sub(a: (int, int, int), b: (int, int, int)) -> (int, int, int) {
    (a.0 - b.0, a.1 - b.1, a.2 - b.2)
}

pub open spec fn v_add(a: (int, int, int), b: (int, int, int)) -> (int, int, int) {
    (a.0 + b.0, a.1 + b.1, a.2 + b.2)
}

pub open spec fn v_scale(a: (int, int, int), s: int) -> (int, int, int) {
    (fx_mul(a.0, s), fx_mul(a.1, s), fx_mul(a.2, s))
}

pub open spec fn v_dot(a: (int, int, int), b: (int, int, int)) -> int {
    fx_mul(a.0, b.0) + fx_mul(a.1, b.1) + fx_mul(a.2, b.2)
}

/// Fixed-point length: square root of the squared norm.
pub open spec fn v_norm(a: (int, int, int)) -> int {
    fx_sqrt(v_dot(a, a))
}

/// Each component divided by the length.
pub open spec fn v_normalized(a: (int, int, int)) -> (int, int, int) {
    (fx_div(a.0, v_norm(a)), fx_div(a.1, v_norm(a)), fx_div(a.2, v_norm(a)))
}

/// A square is nonnegative, so each squared-norm summand is nonnegative.
pub proof fn lemma_square_term_nonneg(c: int)
    ensures
        c * c >= 0,
        fx_mul(c, c) >= 0,
        fx_mul(c, c) == (c * c) / (FX_ONE as int),
{
    assert(c * c >= 0) by (nonlinear_arith);
    lemma_div_pos_is_pos(c * c, FX_ONE as int);
}

/// The squared norm of a vector is nonnegative.
pub proof fn lemma_dot_self_nonneg(a: (int, int, int))
    ensures
        v_dot(a, a) >= 0,
{
    lemma_square_term_nonneg(a.0);
    lemma_square_term_nonneg(a.1);
    lemma_square_term_nonneg(a.2);
}

/// A component of a vector with squared norm `n2` is at most four times
/// the fixed-point length `m`; the length itself is at least 256.
proof fn lemma_component_vs_norm(x: int, n2: int, m: int)
    requires
        n2 >= 1,
        is_isqrt(n2 * (FX_ONE as int), m),
        fx_mul(x, x) <= n2,
    ensures
        m >= 256,
        -4 * m <= x <= 4 * m,
{
    lemma_square_term_nonneg(x);
    assert(m >= 256) by (nonlinear_arith)
        requires
            n2 >= 1 && 0 <= m && n2 * 65536 < (m + 1) * (m + 1);
    // x * x <= n2 * 65536 + 65535, from the division identity.
    lemma_fundamental_div_mod(x * x, 65536);
    lemma_mod_division_less_than_divisor(x * x, 65536);
    assert(x * x <= n2 * 65536 + 65535) by (nonlinear_arith)
        requires
            (x * x) / 65536 <= n2
                && x * x == 65536 * ((x * x) / 65536) + (x * x) % 65536
                && 0 <= (x * x) % 65536 < 65536;
    assert(-4 * m <= x <= 4 * m) by (nonlinear_arith)
        requires
            m >= 256 && x * x <= n2 * 65536 + 65535 && n2 * 65536 < (m + 1) * (m + 1);
}

/// Components divided by the length stay below `UNIT_LIMIT`.
proof fn lemma_normalized_component_bounded(x: int, n2: int, m: int)
    requires
        n2 >= 1,
        is_isqrt(n2 * (FX_ONE as int), m),
        fx_mul(x, x) <= n2,
    ensures
        m >= 256,
        -(UNIT_LIMIT as int) <= fx_div(x, m) <= UNIT_LIMIT as int,
{
    lemma_component_vs_norm(x, n2, m);
    assert(x * 65536 <= 4 * m * 65536 && -(4 * m * 65536) <= x * 65536) by (nonlinear_arith)
        requires
            -4 * m <= x <= 4 * m && m >= 256;
    assert(4 * m * 65536 == m * 262144) by (nonlinear_arith);
    lemma_tdiv_bound(x * 65536, m, m * 262144);
    lemma_div_multiples_vanish(262144, m);
    assert((m * 262144) / m == 262144);
}

impl Vector {
    /// The zero vector.
    pub fn default() -> (r: Self)
        ensures
            r@ == (0int, 0int, 0int),
    {
        Vector { x: 0, y: 0, z: 0 }
    }

    pub fn subtract(&self, v: &Vector) -> (r: Vector)
        requires
            v_bounded(self@, VEC_LIMIT as int),
            v_bounded(v@, VEC_LIMIT as int),
        ensures
            r@ == v_sub(self@, v@),
    {
        Vector { x: self.x - v.x, y: self.y - v.y, z: self.z - v.z }
    }

    pub fn add(&self, v: &Vector) -> (r: Vector)
        requires
            v_bounded(self@, VEC_LIMIT as int),
            v_bounded(v@, VEC_LIMIT as int),
        ensures
            r@ == v_add(self@, v@),
    {
        Vector { x: self.x + v.x, y: self.y + v.y, z: self.z + v.z }
    }

    pub fn multiply(&self, s: i128) -> (r: Vector)
        requires
            v_bounded(self@, FX_MUL_LIMIT as int),
            -FX_MUL_LIMIT <= s <= FX_MUL_LIMIT,
        ensures
            r@ == v_scale(self@, s as int),
    {
        Vector { x: mul_fx(self.x, s), y: mul_fx(self.y, s), z: mul_fx(self.z, s) }
    }

    pub fn dot(&self, v: &Vector) -> (r: i128)
        requires
            v_bounded(self@, FX_MUL_LIMIT as int),
            v_bounded(v@, FX_MUL_LIMIT as int),
        ensures
            r == v_dot(self@, v@),
    {
        proof {
            lemma_fx_mul_range(self@.0, v@.0, FX_MUL_LIMIT as int, FX_MUL_LIMIT as int);
            lemma_fx_mul_range(self@.1, v@.1, FX_MUL_LIMIT as int, FX_MUL_LIMIT as int);
            lemma_fx_mul_range(self@.2, v@.2, FX_MUL_LIMIT as int, FX_MUL_LIMIT as int);
        }
        mul_fx(self.x, v.x) + mul_fx(self.y, v.y) + mul_fx(self.z, v.z)
    }

    /// Divide by the fixed-point length.  The caller guarantees the vector
    /// is long enough that its squared norm is nonzero.
    pub fn normalized(&self) -> (r: Vector)
        requires
            v_bounded(self@, NORM_LIMIT as int),
            v_dot(self@, self@) >= 1,
        ensures
            r@ == v_normalized(self@),
            v_bounded(r@, UNIT_LIMIT as int),
            v_norm(self@) >= 256,
    {
        proof {
            lemma_fx_mul_range(self@.0, self@.0, NORM_LIMIT as int, NORM_LIMIT as int);
            lemma_fx_mul_range(self@.1, self@.1, NORM_LIMIT as int, NORM_LIMIT as int);
            lemma_fx_mul_range(self@.2, self@.2, NORM_LIMIT as int, NORM_LIMIT as int);
        }
        let n2 = self.dot(self);
        let m = sqrt_fx(n2);
        proof {
            lemma_square_term_nonneg(self@.0);
            lemma_square_term_nonneg(self@.1);
            lemma_square_term_nonneg(self@.2);
            lemma_normalized_component_bounded(self@.0, n2 as int, m as int);
            lemma_normalized_component_bounded(self@.1, n2 as int, m as int);
            lemma_normalized_component_bounded(self@.2, n2 as int, m as int);
        }
        Vector { x: div_fx(self.x, m), y: div_fx(self.y, m), z: div_fx(self.z, m) }
    }
}

/// A vector that is exactly unit length keeps its value under
/// normalisation, and the normalised result is exactly unit length again.
pub proof fn lemma_unit_normalized(a: (int, int, int))
    requires
        v_dot(a, a) == FX_ONE as int,
    ensures
        v_norm(a) == FX_ONE as int,
        v_normalized(a) == a,
        v_dot(v_normalized(a), v_normalized(a)) == FX_ONE as int,
{
    assert(65536int * 65536 == 4294967296) by (nonlinear_arith);
    assert(65537int * 65537 == 4295098369) by (nonlinear_arith);
    assert(is_isqrt(65536int * 65536, 65536));
    lemma_isqrt_unique(65536int * 65536, 65536);
    assert(v_norm(a) == 65536);
    lemma_exact_div_fx(a.0);
    lemma_exact_div_fx(a.1);
    lemma_exact_div_fx(a.2);
}

/// Dividing by the scale constant undoes widening by it.
proof fn lemma_exact_div_fx(x: int)
    ensures
        fx_div(x, FX_ONE as int) == x,
{
    if x >= 0 {
        lemma_div_multiples_vanish(x, 65536);
        assert(x * 65536 == 65536 * x) by (nonlinear_arith);
    } else {
        lemma_div_multiples_vanish(-x, 65536);
        assert(-(x * 65536) == 65536 * (-x)) by (nonlinear_arith);
    }
}

} // verus!
