//! Rounding of ratios to a significand of twenty-four bits.
//!
//! A single-precision binary number carries twenty-four significant bits.
//! This module describes, over the natural numbers, what such a number keeps
//! of a ratio `p / q`: the ratio is rounded to the nearest multiple of a
//! power of two (its granularity), ties going to the even multiple, and the
//! granularity is the smallest one that leaves a significand below two to
//! the power twenty-four. The granularity is never finer than one, so the
//! model is exact for ratios of at least two to the power twenty-three and
//! for whole numbers.
use vstd::prelude::*;

verus! {

/// Two to the power twenty-four: the number of significands.
pub const SIGNIFICAND_SPAN: u128 = 0x100_0000;

/// Largest numerator that `round_ratio` accepts: two to the power 126.
pub const NUMERATOR_LIMIT: u128 = 0x4000_0000_0000_0000_0000_0000_0000_0000;

/// Largest denominator that `round_ratio` accepts: two to the power 64.
pub const DENOMINATOR_LIMIT: u128 = 0x1_0000_0000_0000_0000;

/// The whole number nearest to `p / q`; a ratio half-way between two whole
/// numbers goes to the even one.
pub open spec fn round_half_even(p: nat, q: nat) -> nat
    recommends
        q > 0,
{
    let f = p / q;
    let r = p % q;
    if 2 * r < q || (2 * r == q && f % 2 == 0) {
        f
    } else {
        f + 1
    }
}

/// The smallest power of two `g` for which `p / q` is below `g` times two to
/// the power twenty-four.
pub open spec fn granularity(p: nat, q: nat) -> nat
    decreases p - q,
{
    if q == 0 || p < q * SIGNIFICAND_SPAN {
        1
    } else {
        2 * granularity(p, 2 * q)
    }
}

/// `p / q` rounded to twenty-four significant bits: the multiple of the
/// ratio's granularity that is nearest to it, ties to the even multiple.
pub open spec fn round_to_significand(p: nat, q: nat) -> nat {
    let g = granularity(p, q);
    g * round_half_even(p, q * g)
}

/// A ratio that is below two to the power twenty-four is rounded to the
/// nearest whole number; a larger one is rounded at twice the granularity of
/// its half.
pub proof fn lemma_round_unfold(p: nat, q: nat)
    requires
        q > 0,
    ensures
        p < q * SIGNIFICAND_SPAN ==> round_to_significand(p, q) == round_half_even(p, q),
        p >= q * SIGNIFICAND_SPAN ==> round_to_significand(p, q) == 2 * round_to_significand(
            p,
            2 * q,
        ),
{
    if p < q * SIGNIFICAND_SPAN {
        assert(granularity(p, q) == 1);
        assert(q * 1 == q);
        assert(round_half_even(p, q * 1) == round_half_even(p, q));
        assert(1 * round_half_even(p, q) == round_half_even(p, q));
    } else {
        let h = granularity(p, 2 * q);
        assert(granularity(p, q) == 2 * h);
        assert(q * (2 * h) == (2 * q) * h) by (nonlinear_arith);
        assert((2 * h) * round_half_even(p, (2 * q) * h) == 2 * (h * round_half_even(
            p,
            (2 * q) * h,
        ))) by (nonlinear_arith);
    }
}

/// Rounding to the nearest whole number never decreases when the numerator
/// grows.
pub proof fn lemma_round_half_even_monotonic(lesser: nat, greater: nat, q: nat)
    requires
        q > 0,
        lesser <= greater,
    ensures
        round_half_even(lesser, q) <= round_half_even(greater, q),
{
    let lesser_whole = lesser / q;
    let greater_whole = greater / q;
    vstd::arithmetic::div_mod::lemma_fundamental_div_mod(lesser as int, q as int);
    vstd::arithmetic::div_mod::lemma_fundamental_div_mod(greater as int, q as int);
    vstd::arithmetic::div_mod::lemma_div_is_ordered(lesser as int, greater as int, q as int);
    if lesser_whole == greater_whole {
        assert(lesser % q <= greater % q);
    }
}

/// The nearest whole number lies between the ratio rounded down and one
/// above it.
pub proof fn lemma_round_half_even_bounds(p: nat, q: nat, low: nat, high: nat)
    requires
        q > 0,
        q * low <= p,
        p < q * high,
    ensures
        low <= round_half_even(p, q) <= high,
{
    let f = p / q;
    vstd::arithmetic::div_mod::lemma_fundamental_div_mod(p as int, q as int);
    vstd::arithmetic::div_mod::lemma_mod_bound(p as int, q as int);
    assert(low <= f) by (nonlinear_arith)
        requires
            q > 0,
            q * low <= p,
            p == q * f + p % q,
            p % q < q,
    ;
    assert(f < high) by (nonlinear_arith)
        requires
            q > 0,
            p < q * high,
            p == q * f + p % q,
            0 <= p % q,
    ;
}

/// A ratio of at least two to the power twenty-four is rounded to at least
/// that power.
pub proof fn lemma_round_large(p: nat, q: nat)
    requires
        q > 0,
        p >= q * SIGNIFICAND_SPAN,
    ensures
        round_to_significand(p, q) >= SIGNIFICAND_SPAN,
    decreases p - q,
{
    lemma_round_unfold(p, q);
    lemma_round_unfold(p, 2 * q);
    if p >= (2 * q) * SIGNIFICAND_SPAN {
        lemma_round_large(p, 2 * q);
    } else {
        lemma_round_half_even_bounds(p, 2 * q, 0x80_0000, SIGNIFICAND_SPAN as nat);
    }
}

/// Rounding to twenty-four significant bits never decreases when the
/// numerator grows.
pub proof fn lemma_round_monotonic(lesser: nat, greater: nat, q: nat)
    requires
        q > 0,
        lesser <= greater,
    ensures
        round_to_significand(lesser, q) <= round_to_significand(greater, q),
    decreases greater - q,
{
    lemma_round_unfold(lesser, q);
    lemma_round_unfold(greater, q);
    if greater < q * SIGNIFICAND_SPAN {
        lemma_round_half_even_monotonic(lesser, greater, q);
    } else if lesser >= q * SIGNIFICAND_SPAN {
        lemma_round_monotonic(lesser, greater, 2 * q);
    } else {
        lemma_round_half_even_bounds(lesser, q, 0, SIGNIFICAND_SPAN as nat);
        lemma_round_large(greater, q);
    }
}

/// Nothing rounds to nothing.
pub proof fn lemma_round_zero(q: nat)
    requires
        q > 0,
    ensures
        round_to_significand(0, q) == 0,
{
    lemma_round_unfold(0, q);
    assert(0 < q * SIGNIFICAND_SPAN) by (nonlinear_arith)
        requires
            q > 0,
    ;
    vstd::arithmetic::div_mod::lemma_small_mod(0, q);
    vstd::arithmetic::div_mod::lemma_div_of0(q as int);
}

/// The granularity of a ratio is the smallest that serves: the ratio is below
/// the granularity times two to the power twenty-four, and unless the
/// granularity is one, the ratio is at least the granularity times two to the
/// power twenty-three.
pub proof fn lemma_granularity_bounds(p: nat, q: nat)
    requires
        q > 0,
    ensures
        granularity(p, q) >= 1,
        p < q * granularity(p, q) * SIGNIFICAND_SPAN,
        granularity(p, q) == 1 || q * granularity(p, q) * 0x80_0000 <= p,
    decreases p - q,
{
    if p < q * SIGNIFICAND_SPAN {
        assert(q * 1 == q);
    } else {
        let h = granularity(p, 2 * q);
        lemma_granularity_bounds(p, 2 * q);
        assert(q * (2 * h) == (2 * q) * h) by (nonlinear_arith);
        if h == 1 {
            assert((2 * q) * 1 * 0x80_0000 == q * SIGNIFICAND_SPAN);
        }
    }
}

/// The rounded ratio is a multiple of the granularity, and no other multiple
/// is nearer to the ratio: it is at most half a granularity away.
pub proof fn lemma_round_is_nearest(p: nat, q: nat)
    requires
        q > 0,
    ensures
        round_to_significand(p, q) % granularity(p, q) == 0,
        2 * (q * round_to_significand(p, q) - p) <= q * granularity(p, q),
        2 * (p - q * round_to_significand(p, q)) <= q * granularity(p, q),
{
    let g = granularity(p, q);
    lemma_granularity_bounds(p, q);
    let d = q * g;
    assert(d > 0) by (nonlinear_arith)
        requires
            d == q * g,
            q > 0,
            g >= 1,
    ;
    let m = round_half_even(p, d);
    let f = p / d;
    let r = p % d;
    vstd::arithmetic::div_mod::lemma_fundamental_div_mod(p as int, d as int);
    vstd::arithmetic::div_mod::lemma_mod_bound(p as int, d as int);
    assert(q * (g * m) == d * m) by (nonlinear_arith)
        requires
            d == q * g,
    ;
    assert(d * (f + 1) == d * f + d) by (nonlinear_arith);
    vstd::arithmetic::div_mod::lemma_mod_multiples_basic(m as int, g as int);
    assert(g * m == m * g) by (nonlinear_arith);
}

/// A whole number below two to the power twenty-four is kept as it is.
pub proof fn lemma_round_keeps_small(n: nat)
    requires
        n < SIGNIFICAND_SPAN,
    ensures
        round_to_significand(n, 1) == n,
{
    lemma_round_unfold(n, 1);
}

/// Rounds `p / q` to twenty-four significant bits.
pub fn round_ratio(p: u128, q: u128) -> (r: u128)
    requires
        0 < q <= DENOMINATOR_LIMIT,
        p <= NUMERATOR_LIMIT,
    ensures
        r == round_to_significand(p as nat, q as nat),
        r <= 2 * p + 1,
{
    let mut g: u128 = 1;
    let mut d: u128 = q;
    assert(q * 1 == q);
    while p >= d * SIGNIFICAND_SPAN
        invariant
            0 < q <= DENOMINATOR_LIMIT,
            p <= NUMERATOR_LIMIT,
            1 <= g <= d,
            d == q * g,
            granularity(p as nat, q as nat) == g * granularity(p as nat, d as nat),
            g == 1 || d * SIGNIFICAND_SPAN <= 2 * p,
        decreases p - d,
    {
        proof {
            let h = granularity(p as nat, (2 * d) as nat);
            assert(granularity(p as nat, d as nat) == 2 * h);
            assert(g * (2 * h) == (2 * g) * h) by (nonlinear_arith);
            assert(q * (2 * g) == 2 * (q * g)) by (nonlinear_arith);
        }
        d = d * 2;
        g = g * 2;
    }
    let f: u128 = p / d;
    let rem: u128 = p % d;
    proof {
        assert(granularity(p as nat, d as nat) == 1);
        assert(g * 1 == g);
        lemma_round_half_even_bounds(p as nat, d as nat, 0, SIGNIFICAND_SPAN as nat);
    }
    let m: u128 = if rem < d - rem || (rem == d - rem && f % 2 == 0) {
        f
    } else {
        f + 1
    };
    assert(m == round_half_even(p as nat, d as nat));
    proof {
        assert(m * g <= SIGNIFICAND_SPAN * d) by (nonlinear_arith)
            requires
                m <= SIGNIFICAND_SPAN,
                g <= d,
        ;
        if g == 1 {
            vstd::arithmetic::div_mod::lemma_fundamental_div_mod(p as int, d as int);
            assert(f <= p) by (nonlinear_arith)
                requires
                    d >= 1,
                    p == d * f + p % d,
                    0 <= p % d,
            ;
            assert(m * g == m);
        }
        assert(g * m == m * g) by (nonlinear_arith);
    }
    m * g
}

} // verus!
