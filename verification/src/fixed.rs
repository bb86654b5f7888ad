//! Fixed-point arithmetic in millionths.
//!
//! A temperature of `25.0` degrees is the integer `25_000_000`, a duty
//! cycle of `1.0` is `1_000_000`. Quotients are rounded to the nearest
//! integer, a tie going upward.

use vstd::arithmetic::div_mod::{lemma_fundamental_div_mod, lemma_fundamental_div_mod_converse};
use vstd::prelude::*;

verus! {

/// How many fixed-point units make one whole.
pub const MICRO: i64 = 1_000_000;

/// `n / d` rounded to the nearest integer, halves upward.
pub open spec fn round_div(n: int, d: int) -> int
    recommends
        d > 0,
{
    (2 * n + d) / (2 * d)
}

/// `x` limited to the closed interval from `low` to `high`.
pub open spec fn clamp(x: int, low: int, high: int) -> int
    recommends
        low <= high,
{
    if x < low {
        low
    } else if x > high {
        high
    } else {
        x
    }
}

/// Rounding adds one to the floor exactly when the remainder is at least
/// half the divisor.
pub proof fn lemma_round_div_by_remainder(n: int, d: int)
    requires
        d > 0,
    ensures
        round_div(n, d) == n / d + (if 2 * (n % d) >= d { 1int } else { 0int }),
{
    let q = n / d;
    let r = n % d;
    lemma_fundamental_div_mod(n, d);
    assert(0 <= r < d) by {
        vstd::arithmetic::div_mod::lemma_mod_bound(n, d);
    };
    if 2 * r >= d {
        assert(2 * n + d == (q + 1) * (2 * d) + (2 * r - d)) by (nonlinear_arith)
            requires
                n == d * q + r,
        ;
        lemma_fundamental_div_mod_converse(2 * n + d, 2 * d, q + 1, 2 * r - d);
    } else {
        assert(2 * n + d == q * (2 * d) + (2 * r + d)) by (nonlinear_arith)
            requires
                n == d * q + r,
        ;
        lemma_fundamental_div_mod_converse(2 * n + d, 2 * d, q, 2 * r + d);
    }
}

/// An exact multiple divides without rounding.
pub proof fn lemma_round_div_exact(k: int, d: int)
    requires
        d > 0,
    ensures
        round_div(k * d, d) == k,
{
    assert(2 * (k * d) + d == k * (2 * d) + d) by (nonlinear_arith);
    lemma_fundamental_div_mod_converse(2 * (k * d) + d, 2 * d, k, d);
}

/// Adding whole multiples of the divisor shifts the rounded quotient by
/// as many.
pub proof fn lemma_round_div_shift(n: int, k: int, d: int)
    requires
        d > 0,
    ensures
        round_div(n + k * d, d) == round_div(n, d) + k,
{
    let m = 2 * n + d;
    let q = m / (2 * d);
    let r = m % (2 * d);
    lemma_fundamental_div_mod(m, 2 * d);
    assert(0 <= r < 2 * d) by {
        vstd::arithmetic::div_mod::lemma_mod_bound(m, 2 * d);
    };
    assert(2 * (n + k * d) + d == (q + k) * (2 * d) + r) by (nonlinear_arith)
        requires
            2 * n + d == (2 * d) * q + r,
    ;
    lemma_fundamental_div_mod_converse(2 * (n + k * d) + d, 2 * d, q + k, r);
}

/// A quotient of a numerator between two multiples of the divisor lies
/// between the two factors.
pub proof fn lemma_round_div_between(n: int, d: int, low: int, high: int)
    requires
        d > 0,
        low * d <= n <= high * d,
    ensures
        low <= round_div(n, d) <= high,
{
    let m = 2 * n + d;
    let q = m / (2 * d);
    let r = m % (2 * d);
    lemma_fundamental_div_mod(m, 2 * d);
    assert(0 <= r < 2 * d) by {
        vstd::arithmetic::div_mod::lemma_mod_bound(m, 2 * d);
    };
    assert(low <= q) by (nonlinear_arith)
        requires
            m == (2 * d) * q + r,
            r < 2 * d,
            m >= 2 * (low * d) + d,
            d > 0,
    ;
    assert(q <= high) by (nonlinear_arith)
        requires
            m == (2 * d) * q + r,
            0 <= r,
            m <= 2 * (high * d) + d,
            d > 0,
    ;
}

/// Rounded division keeps the order of its numerators.
pub proof fn lemma_round_div_monotonic(a: int, b: int, d: int)
    requires
        d > 0,
        a <= b,
    ensures
        round_div(a, d) <= round_div(b, d),
{
    vstd::arithmetic::div_mod::lemma_div_is_ordered(2 * a + d, 2 * b + d, 2 * d);
}

/// Computes [`round_div`] without overflow.
pub fn div_round(n: i128, d: i128) -> (q: i128)
    requires
        d > 0,
    ensures
        q == round_div(n as int, d as int),
{
    proof {
        lemma_round_div_by_remainder(n as int, d as int);
        lemma_fundamental_div_mod(n as int, d as int);
        vstd::arithmetic::div_mod::lemma_mod_bound(n as int, d as int);
        assert(i128::MIN <= (n as int) / (d as int) <= i128::MAX) by (nonlinear_arith)
            requires
                n as int == (d as int) * ((n as int) / (d as int)) + (n as int) % (d as int),
                0 <= (n as int) % (d as int) < d as int,
                d as int > 0,
                i128::MIN <= n as int <= i128::MAX,
        ;
    }
    let floor = match n.checked_div_euclid(d) {
        Some(v) => v,
        None => 0,
    };
    let rest = match n.checked_rem_euclid(d) {
        Some(v) => v,
        None => 0,
    };
    if rest >= d - rest {
        proof {
            assert(floor < i128::MAX) by (nonlinear_arith)
                requires
                    n as int == (d as int) * (floor as int) + (rest as int),
                    0 <= rest < d,
                    rest >= d - rest,
                    n as int <= i128::MAX,
            ;
        }
        floor + 1
    } else {
        floor
    }
}

/// The largest magnitude that [`scale`] takes: 2 to the power 66.
pub const SCALE_LIMIT: i128 = 0x4_0000_0000_0000_0000;

/// `gain * x` in millionths: the product of a fixed-point gain and a value,
/// brought back to the value's unit.
pub open spec fn scaled(gain: int, x: int) -> int {
    round_div(gain * x, MICRO as int)
}

/// Computes [`scaled`] for any gain and any value up to [`SCALE_LIMIT`], by
/// splitting the value into its whole and fractional millions so that no
/// product overflows.
pub fn scale(gain: i64, x: i128) -> (y: i128)
    requires
        -SCALE_LIMIT <= x <= SCALE_LIMIT,
    ensures
        y == scaled(gain as int, x as int),
        -0x1_0000_0000_0000_0000_0000_0000_0000 <= y <= 0x1_0000_0000_0000_0000_0000_0000_0000,
{
    let million: i128 = MICRO as i128;
    proof {
        lemma_fundamental_div_mod(x as int, million as int);
        vstd::arithmetic::div_mod::lemma_mod_bound(x as int, million as int);
        assert(-0x8000_0000_0000 <= (x as int) / (million as int) <= 0x8000_0000_0000)
            by (nonlinear_arith)
            requires
                x as int == (million as int) * ((x as int) / (million as int)) + (x as int) % (
                million as int),
                0 <= (x as int) % (million as int) < million as int,
                million == 1_000_000,
                -0x4_0000_0000_0000_0000 <= x <= 0x4_0000_0000_0000_0000,
        ;
    }
    let whole = match x.checked_div_euclid(million) {
        Some(v) => v,
        None => 0,
    };
    let part = match x.checked_rem_euclid(million) {
        Some(v) => v,
        None => 0,
    };
    let g: i128 = gain as i128;
    assert(-0x4000_0000_0000_0000_0000_0000_0000 <= g * whole
        <= 0x4000_0000_0000_0000_0000_0000_0000) by (nonlinear_arith)
        requires
            -0x8000_0000_0000_0000 <= g <= 0x8000_0000_0000_0000,
            -0x8000_0000_0000 <= whole <= 0x8000_0000_0000,
    ;
    assert(-0x8000_0000_0000_0000 * 1_000_000 <= g * part <= 0x8000_0000_0000_0000 * 1_000_000)
        by (nonlinear_arith)
        requires
            -0x8000_0000_0000_0000 <= g <= 0x8000_0000_0000_0000,
            0 <= part <= 1_000_000,
    ;
    proof {
        lemma_round_div_shift(g * part, g * whole, million as int);
        assert(g * x == g * part + (g * whole) * million) by (nonlinear_arith)
            requires
                x as int == (million as int) * (whole as int) + (part as int),
        ;
        lemma_round_div_between(
            g * part,
            million as int,
            -0x8000_0000_0000_0000,
            0x8000_0000_0000_0000,
        );
    }
    g * whole + div_round(g * part, million)
}

} // verus!
