//! Arithmetic modulo an interval of the integers.
//!
//! A fixed-width integer type holds the integers from its least value `lo` to its greatest
//! value `hi`, and its wrapping operations reduce the exact result modulo the number of values
//! in that interval. `wrap` is that reduction, stated once for every interval.

use vstd::arithmetic::div_mod::{
    lemma_div_basics, lemma_div_is_strictly_smaller, lemma_div_multiples_vanish,
    lemma_div_nonincreasing, lemma_div_pos_is_pos, lemma_fundamental_div_mod,
    lemma_fundamental_div_mod_converse, lemma_mod_bound, lemma_mod_multiples_vanish,
    lemma_small_mod,
};
use vstd::prelude::*;

verus! {

/// The number of integers from `lo` to `hi`, both included.
pub open spec fn span(lo: int, hi: int) -> int {
    hi - lo + 1
}

/// The one integer from `lo` to `hi` that differs from `x` by a multiple of `span(lo, hi)`.
pub open spec fn wrap(x: int, lo: int, hi: int) -> int {
    lo + (x - lo) % span(lo, hi)
}

/// The quotient of `x` by `d` rounded toward zero, as the machine's integer division computes it.
pub open spec fn div_toward_zero(x: int, d: int) -> int
    recommends
        d != 0,
{
    if x >= 0 && d > 0 {
        x / d
    } else if x < 0 && d < 0 {
        (-x) / (-d)
    } else if x < 0 {
        -((-x) / d)
    } else {
        -(x / (-d))
    }
}

/// The absolute value of `x`.
pub open spec fn magnitude(x: int) -> int {
    if x < 0 {
        -x
    } else {
        x
    }
}

/// `wrap` leaves the members of the interval where they are.
pub proof fn lemma_wrap_fixes_range(x: int, lo: int, hi: int)
    requires
        lo <= x <= hi,
    ensures
        wrap(x, lo, hi) == x,
{
    lemma_small_mod((x - lo) as nat, span(lo, hi) as nat);
}

/// `wrap` does not see a multiple of the span.
pub proof fn lemma_wrap_periodic(x: int, k: int, lo: int, hi: int)
    requires
        lo <= hi,
    ensures
        wrap(x + k * span(lo, hi), lo, hi) == wrap(x, lo, hi),
{
    let m = span(lo, hi);
    assert(x + k * m - lo == m * k + (x - lo)) by (nonlinear_arith);
    lemma_mod_multiples_vanish(k, x - lo, m);
}

/// `wrap` moves `x` by a multiple of the span; the multiple is returned.
pub proof fn lemma_wrap_offset(x: int, lo: int, hi: int) -> (k: int)
    requires
        lo <= hi,
    ensures
        wrap(x, lo, hi) == x + k * span(lo, hi),
{
    let m = span(lo, hi);
    let q = (x - lo) / m;
    lemma_fundamental_div_mod(x - lo, m);
    assert((-q) * m == -(m * q)) by (nonlinear_arith);
    -q
}

/// A member of the interval that differs from `x` by a multiple of the span is `wrap` of `x`.
pub proof fn lemma_wrap_unique(x: int, y: int, k: int, lo: int, hi: int)
    requires
        lo <= y <= hi,
        x == y + k * span(lo, hi),
    ensures
        wrap(x, lo, hi) == y,
{
    lemma_wrap_periodic(y, k, lo, hi);
    lemma_wrap_fixes_range(y, lo, hi);
}

/// Reducing one operand before a sum is reduced changes nothing.
pub proof fn lemma_wrap_absorbs(x: int, y: int, lo: int, hi: int)
    requires
        lo <= hi,
    ensures
        wrap(x + wrap(y, lo, hi), lo, hi) == wrap(x + y, lo, hi),
        wrap(wrap(y, lo, hi) - x, lo, hi) == wrap(y - x, lo, hi),
        wrap(x - wrap(y, lo, hi), lo, hi) == wrap(x - y, lo, hi),
{
    let m = span(lo, hi);
    let k = lemma_wrap_offset(y, lo, hi);
    lemma_wrap_periodic(x + y, k, lo, hi);
    lemma_wrap_periodic(y - x, k, lo, hi);
    lemma_wrap_periodic(x - y, -k, lo, hi);
    assert((-k) * m == -(k * m)) by (nonlinear_arith);
}

/// One step over either end of the interval is taken back by one span.
pub proof fn lemma_wrap_one_step(x: int, lo: int, hi: int)
    requires
        lo <= hi,
    ensures
        lo <= x <= hi ==> wrap(x, lo, hi) == x,
        hi < x <= hi + span(lo, hi) ==> wrap(x, lo, hi) == x - span(lo, hi),
        lo - span(lo, hi) <= x < lo ==> wrap(x, lo, hi) == x + span(lo, hi),
{
    let m = span(lo, hi);
    if lo <= x <= hi {
        lemma_wrap_fixes_range(x, lo, hi);
    } else if hi < x <= hi + m {
        assert(x == (x - m) + 1 * m) by (nonlinear_arith);
        lemma_wrap_unique(x, x - m, 1, lo, hi);
    } else if lo - m <= x < lo {
        assert(x == (x + m) + (-1) * m) by (nonlinear_arith);
        lemma_wrap_unique(x, x + m, -1, lo, hi);
    }
}

/// The residue of `x` modulo the span, moved below zero where it lies above `hi`, is `wrap`
/// of `x`, for an interval that holds zero.
pub proof fn lemma_wrap_of_residue(x: int, lo: int, hi: int)
    requires
        lo <= 0 <= hi,
    ensures
        x % span(lo, hi) > hi ==> wrap(x, lo, hi) == x % span(lo, hi) - span(lo, hi),
        x % span(lo, hi) <= hi ==> wrap(x, lo, hi) == x % span(lo, hi),
{
    let m = span(lo, hi);
    let r = x % m;
    let q = x / m;
    lemma_mod_bound(x, m);
    lemma_fundamental_div_mod(x, m);
    if r > hi {
        assert(x == (r - m) + (q + 1) * m) by (nonlinear_arith)
            requires
                x == m * q + r,
        ;
        lemma_wrap_unique(x, r - m, q + 1, lo, hi);
    } else {
        assert(x == r + q * m) by (nonlinear_arith)
            requires
                x == m * q + r,
        ;
        lemma_wrap_unique(x, r, q, lo, hi);
    }
}

/// Division toward zero never grows the dividend's magnitude: by one or minus one it keeps
/// it, by anything else it shrinks it. The last two clauses give the quotient by Euclidean
/// division alone, whatever the divisor's sign.
pub proof fn lemma_div_toward_zero_bounds(x: int, d: int)
    requires
        d != 0,
    ensures
        magnitude(div_toward_zero(x, d)) <= magnitude(x),
        d == 1 ==> div_toward_zero(x, d) == x,
        d == -1 ==> div_toward_zero(x, d) == -x,
        magnitude(d) > 1 && x != 0 ==> magnitude(div_toward_zero(x, d)) < magnitude(x),
        x >= 0 ==> div_toward_zero(x, d) == x / d,
        x < 0 ==> div_toward_zero(x, d) == -((-x) / d),
{
    let a = magnitude(x);
    let b = magnitude(d);
    if d < 0 {
        assert(a / (-b) == -(a / b)) by (nonlinear_arith)
            requires
                0 <= a,
                0 < b,
        ;
    }
    lemma_div_nonincreasing(a, b);
    lemma_div_pos_is_pos(a, b);
    lemma_div_basics(a);
    if b > 1 && a > 0 {
        lemma_div_is_strictly_smaller(a, b);
    }
}

/// Dividing a product toward zero by one of its factors gives the other.
pub proof fn lemma_div_of_product(x: int, k: int)
    requires
        k != 0,
    ensures
        div_toward_zero(x * k, k) == x,
{
    let a = magnitude(x);
    let b = magnitude(k);
    lemma_div_multiples_vanish(a, b);
    assert(b * a == a * b) by (nonlinear_arith);
    assert((-x) * k == -(x * k) && x * (-k) == -(x * k) && (-x) * (-k) == x * k)
        by (nonlinear_arith);
    assert(x * k >= 0 <==> (x == 0 || (x > 0) == (k > 0))) by (nonlinear_arith)
        requires
            k != 0,
    ;
}

/// The Euclidean residue of `x` by a positive `m`, from the remainder `t` that the machine's
/// division toward zero leaves.
pub proof fn lemma_residue_of_remainder(x: int, m: int, t: int)
    requires
        0 < m,
        x >= 0 ==> t == x % m,
        x < 0 ==> t == -((-x) % m),
    ensures
        t < 0 ==> x % m == t + m,
        t >= 0 ==> x % m == t,
{
    if x < 0 {
        let q = (-x) / m;
        lemma_fundamental_div_mod(-x, m);
        lemma_mod_bound(-x, m);
        if t < 0 {
            assert(x == (-q - 1) * m + (t + m)) by (nonlinear_arith)
                requires
                    -x == m * q + (-t),
            ;
            lemma_fundamental_div_mod_converse(x, m, -q - 1, t + m);
        } else {
            assert(x == (-q) * m + 0) by (nonlinear_arith)
                requires
                    -x == m * q + 0,
            ;
            lemma_fundamental_div_mod_converse(x, m, -q, 0);
        }
    } else {
        lemma_mod_bound(x, m);
    }
}

/// Reduces a wide integer into an interval that holds zero and one and is no wider than two
/// 64-bit ranges side by side.
pub fn wrap_wide(w: i128, lo: i128, hi: i128) -> (r: i128)
    requires
        -0x8000_0000_0000_0000 <= lo <= 0,
        1 <= hi <= 0xffff_ffff_ffff_ffff,
    ensures
        r == wrap(w as int, lo as int, hi as int),
{
    let m: i128 = hi - lo + 1;
    let t: i128 = w % m;
    let r: i128 = if t < 0 {
        t + m
    } else {
        t
    };
    proof {
        lemma_residue_of_remainder(w as int, m as int, t as int);
        lemma_wrap_of_residue(w as int, lo as int, hi as int);
    }
    if r > hi {
        r - m
    } else {
        r
    }
}

} // verus!
