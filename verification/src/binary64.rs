//! The quotient of two 32-bit integers as a binary64 number (an IEEE 754
//! double) and its rendering with one fractional digit, all in integer
//! arithmetic.
//!
//! Exposure times and F-numbers are shown as a floating-point division
//! shows them. A double has 53 significant bits. The double nearest to
//! `n / d` is therefore `m / 2^e`, where `e` scales the quotient into the
//! range from `2^52` up to `2^53` and `m` is the scaled quotient rounded to
//! an integer, a tie to the even neighbour. For 32-bit `n` and `d` the
//! quotient is far from the subnormal and the infinite range, so nothing
//! else has to be modelled. The rendering rounds the exact value of that
//! double once more, to tenths, again a tie to the even neighbour.
//!
//! The step through the double shows only where a quotient lies exactly
//! between two tenths: 95/100 is shown as `0.9`, for the double nearest to
//! it lies below it, and 21/20 as `1.1`. Everywhere else, and wherever a
//! quotient is rounded to an integer, the double gives what exact arithmetic
//! gives; the laws at the end of this module state that.

use crate::text::{decimal, decimal_text, digit, digit_text};
use vstd::arithmetic::power2::*;
use vstd::prelude::*;

verus! {

/// `p / q` rounded to the nearest integer, a tie to the even neighbour.
pub open spec fn round_half_even(p: nat, q: nat) -> nat
    recommends
        q > 0,
{
    let floor = p / q;
    let rest = p % q;
    if 2 * rest < q || (2 * rest == q && floor % 2 == 0) {
        floor
    } else {
        floor + 1
    }
}

/// `p / q` rounded to the nearest integer, a tie upwards.
pub open spec fn round_half_up(p: nat, q: nat) -> nat
    recommends
        q > 0,
{
    if 2 * (p % q) < q {
        p / q
    } else {
        p / q + 1
    }
}

/// Whether `2^e` scales `n / d` into the range of 53-bit significands:
/// `2^52 <= (n / d) * 2^e < 2^53`.
pub open spec fn in_binade(n: nat, d: nat, e: nat) -> bool {
    pow2(52) * d <= n * pow2(e) && n * pow2(e) < pow2(53) * d
}

/// The exponent `e` for which `2^e` scales `n / d` into the range of 53-bit
/// significands.
pub open spec fn scale(n: nat, d: nat) -> nat {
    choose|e: nat| in_binade(n, d, e)
}

/// The numerator `m` of the double `m / unit(n, d)` nearest to `n / d`.
pub open spec fn significand(n: nat, d: nat) -> nat {
    if n == 0 {
        0
    } else {
        round_half_even(n * pow2(scale(n, d)), d)
    }
}

/// The denominator, a power of two, of the double nearest to `n / d`.
pub open spec fn unit(n: nat, d: nat) -> nat {
    if n == 0 {
        1
    } else {
        pow2(scale(n, d))
    }
}

/// Whether the double nearest to `n / d` is 1.0 or more.
pub open spec fn at_least_one(n: nat, d: nat) -> bool {
    significand(n, d) >= unit(n, d)
}

/// The double nearest to `n / d`, in tenths, rounded ties to even.
pub open spec fn tenths(n: nat, d: nat) -> nat {
    round_half_even(10 * significand(n, d), unit(n, d))
}

/// The double nearest to `n / d` rounded to an integer, ties to even.
pub open spec fn nearest_even(n: nat, d: nat) -> nat {
    round_half_even(significand(n, d), unit(n, d))
}

/// The double nearest to `n / d` rounded to an integer, ties away from zero.
pub open spec fn nearest_away(n: nat, d: nat) -> nat {
    round_half_up(significand(n, d), unit(n, d))
}

/// The double nearest to `n / d` with one fractional digit, as in `"2.8"`.
pub open spec fn fixed_one(n: nat, d: nat) -> Seq<char> {
    decimal(tenths(n, d) / 10) + seq!['.', digit(tenths(n, d) % 10)]
}

/// Only one exponent scales a quotient into the range of significands.
proof fn lemma_binade_unique(n: nat, d: nat, e1: nat, e2: nat)
    requires
        in_binade(n, d, e1),
        in_binade(n, d, e2),
    ensures
        e1 == e2,
{
    if e1 < e2 {
        lemma_binade_order(n, d, e1, e2);
    } else if e2 < e1 {
        lemma_binade_order(n, d, e2, e1);
    }
}

proof fn lemma_binade_order(n: nat, d: nat, e1: nat, e2: nat)
    requires
        in_binade(n, d, e1),
        e1 < e2,
    ensures
        !in_binade(n, d, e2),
{
    lemma_pow2_unfold(e1 + 1);
    lemma_pow2_unfold(53);
    if e1 + 1 < e2 {
        lemma_pow2_strictly_increases(e1 + 1, e2);
    }
    let a = pow2(e1);
    let b = pow2(e2);
    assert(2 * a <= b);
    assert(n * b >= 2 * (n * a)) by (nonlinear_arith)
        requires
            2 * a <= b,
    ;
    assert(pow2(53) * d == 2 * (pow2(52) * d)) by (nonlinear_arith)
        requires
            pow2(53) == 2 * pow2(52),
    ;
}

/// Rounds `p / q` to the nearest integer, a tie to the even neighbour.
pub(crate) fn round_to_even(p: u128, q: u128) -> (r: u128)
    requires
        q > 0,
        p < u128::MAX,
    ensures
        r == round_half_even(p as nat, q as nat),
{
    let floor = p / q;
    let rest = p % q;
    if rest < q - rest || (rest == q - rest && floor % 2 == 0) {
        floor
    } else {
        floor + 1
    }
}

/// Rounds `p / q` to the nearest integer, a tie upwards.
pub(crate) fn round_up(p: u128, q: u128) -> (r: u128)
    requires
        q > 0,
        p < u128::MAX,
    ensures
        r == round_half_up(p as nat, q as nat),
{
    let floor = p / q;
    let rest = p % q;
    if rest < q - rest {
        floor
    } else {
        floor + 1
    }
}

/// The double nearest to `n / d`, as its numerator and its denominator.
fn nearest_double(n: u32, d: u32) -> (q: (u128, u128))
    requires
        d > 0,
    ensures
        q.0 == significand(n as nat, d as nat),
        q.1 == unit(n as nat, d as nat),
        q.0 <= 0x20_0000_0000_0000,
        0 < q.1 <= 0x20_0000_0000_0000_0000_0000,
{
    if n == 0 {
        return (0, 1);
    }
    proof {
        lemma2_to64();
        lemma2_to64_rest();
    }
    let bound: u128 = (d as u128) * 0x10_0000_0000_0000u128;
    let mut scaled: u128 = n as u128;
    let mut unit: u128 = 1;
    let ghost mut e: nat = 0;
    while scaled < bound
        invariant
            n >= 1,
            bound == pow2(52) * d,
            bound < 0x10_0000_0000_0000_0000_0000,
            scaled == n * pow2(e),
            unit == pow2(e),
            1 <= unit <= scaled,
            scaled < 2 * bound,
        decreases 2 * bound - scaled,
    {
        proof {
            lemma_pow2_unfold(e + 1);
            assert(n * (2 * pow2(e)) == 2 * (n * pow2(e))) by (nonlinear_arith);
        }
        scaled = scaled * 2;
        unit = unit * 2;
        proof {
            e = e + 1;
        }
    }
    proof {
        assert(pow2(53) * d == 2 * (pow2(52) * d)) by (nonlinear_arith)
            requires
                pow2(53) == 2 * pow2(52),
        ;
        assert(in_binade(n as nat, d as nat, e));
        lemma_binade_unique(n as nat, d as nat, e, scale(n as nat, d as nat));
    }
    let m = round_to_even(scaled, d as u128);
    proof {
        lemma_round_bound(scaled as nat, d as nat, 0x20_0000_0000_0000);
    }
    (m, unit)
}

/// A quotient below an integer bound is not rounded past that bound.
proof fn lemma_round_bound(p: nat, q: nat, bound: nat)
    requires
        q > 0,
        p < bound * q,
    ensures
        round_half_even(p, q) <= bound,
        round_half_up(p, q) <= bound,
{
    assert(p / q < bound) by (nonlinear_arith)
        requires
            q > 0,
            p < bound * q,
    ;
}

/// The double nearest to `n / d` with one fractional digit.
pub(crate) fn fixed_one_text(n: u32, d: u32) -> (text: String)
    requires
        d > 0,
    ensures
        text@ == fixed_one(n as nat, d as nat),
{
    let (m, unit) = nearest_double(n, d);
    let t = round_to_even(10 * m, unit);
    proof {
        lemma_round_bound((10 * m) as nat, unit as nat, 0x200_0000_0000_0000);
        reveal_strlit(".");
    }
    let t = t as u64;
    let mut text = decimal_text(t / 10);
    text.append(".");
    text.append(digit_text(t % 10));
    assert(text@ =~= fixed_one(n as nat, d as nat));
    text
}

/// Some exponent scales a quotient that is not yet too large into the range
/// of significands.
proof fn lemma_binade_search(n: nat, d: nat, e: nat)
    requires
        n >= 1,
        n * pow2(e) < pow2(53) * d,
    ensures
        exists|k: nat| in_binade(n, d, k),
    decreases pow2(53) * d - n * pow2(e),
{
    if pow2(52) * d <= n * pow2(e) {
        assert(in_binade(n, d, e));
    } else {
        lemma_pow2_unfold(e + 1);
        lemma_pow2_unfold(53);
        lemma_pow2_pos(e);
        let a = pow2(e);
        assert(n * (2 * a) == 2 * (n * a)) by (nonlinear_arith);
        assert(pow2(53) * d == 2 * (pow2(52) * d)) by (nonlinear_arith)
            requires
                pow2(53) == 2 * pow2(52),
        ;
        assert(n * a >= 1) by (nonlinear_arith)
            requires
                n >= 1,
                a >= 1,
        ;
        lemma_binade_search(n, d, e + 1);
    }
}

/// The double nearest to a quotient of 32-bit integers is 1.0 or more
/// exactly when the quotient is: rounding to 53 bits moves no quotient
/// across one.
pub proof fn law_at_least_one(n: u32, d: u32)
    requires
        d > 0,
    ensures
        at_least_one(n as nat, d as nat) <==> n >= d,
{
    if n > 0 {
        let n = n as nat;
        let d = d as nat;
        lemma2_to64();
        lemma2_to64_rest();
        assert(n * pow2(0) < pow2(53) * d) by (nonlinear_arith)
            requires
                n < 0x1_0000_0000,
                d >= 1,
                pow2(0) == 1,
                pow2(53) == 0x20_0000_0000_0000,
        ;
        lemma_binade_search(n, d, 0);
        let e = scale(n, d);
        let u = pow2(e);
        let p = n * u;
        assert(in_binade(n, d, e));
        if n >= d {
            assert(p / d >= u) by (nonlinear_arith)
                requires
                    p == n * u,
                    n >= d,
                    d > 0,
            ;
        } else {
            assert(u > d) by (nonlinear_arith)
                requires
                    pow2(52) * d <= n * u,
                    n < d,
                    d < 0x1_0000_0000,
                    pow2(52) == 0x10_0000_0000_0000,
            ;
            assert(p / d + 1 < u) by (nonlinear_arith)
                requires
                    p == n * u,
                    n < d,
                    u > d,
                    d > 0,
            ;
        }
    }
}

/// A quotient and its rounding differ by half a unit at most.
proof fn lemma_round_error(p: nat, q: nat)
    requires
        q > 0,
    ensures
        2 * (round_half_even(p, q) * q - p) <= q,
        2 * (p - round_half_even(p, q) * q) <= q,
        2 * (round_half_even(p, q) * q - p) == q || 2 * (p - round_half_even(p, q) * q) == q
            ==> 2 * (p % q) == q,
{
    let floor = p / q;
    let rest = p % q;
    assert(p == floor * q + rest && 0 <= rest < q) by (nonlinear_arith)
        requires
            q > 0,
            floor == p / q,
            rest == p % q,
    ;
    assert((floor + 1) * q == floor * q + q) by (nonlinear_arith);
}

/// An integer that lies within less than half a unit of a quotient is what
/// the quotient rounds to, whatever becomes of ties.
proof fn lemma_round_nearest(x: nat, u: nat, r: nat)
    requires
        u > 0,
        2 * (x - r * u) < u,
        2 * (r * u - x) < u,
    ensures
        round_half_even(x, u) == r,
        round_half_up(x, u) == r,
{
    let floor = x / u;
    let rest = x % u;
    assert(x == floor * u + rest && 0 <= rest < u) by (nonlinear_arith)
        requires
            u > 0,
            floor == x / u,
            rest == x % u,
    ;
    if x >= r * u {
        assert(floor == r) by (nonlinear_arith)
            requires
                x == floor * u + rest,
                0 <= rest < u,
                r * u <= x,
                2 * (x - r * u) < u,
                u > 0,
        ;
    } else {
        assert(floor + 1 == r) by (nonlinear_arith)
            requires
                x == floor * u + rest,
                0 <= rest < u,
                x < r * u,
                2 * (r * u - x) < u,
                u > 0,
        ;
        assert((floor + 1) * u == floor * u + u) by (nonlinear_arith);
    }
}

/// Rounding a quotient on a fine grid first does not change what a multiple
/// of it rounds to on the integers, as long as that multiple is no tie and
/// the grid is finer than the quotient's own denominator allows it to come
/// close to a tie.
proof fn lemma_rescaled_rounding(n: nat, d: nat, u: nat, c: nat)
    requires
        d > 0,
        c >= 1,
        u > c * d,
        2 * ((c * n) % d) != d,
    ensures
        round_half_even(c * round_half_even(n * u, d), u) == round_half_even(c * n, d),
        round_half_up(c * round_half_even(n * u, d), u) == round_half_even(c * n, d),
        round_half_up(c * n, d) == round_half_even(c * n, d),
{
    let m = round_half_even(n * u, d) as int;
    let r = round_half_even(c * n, d) as int;
    lemma_round_error(n * u, d);
    lemma_round_error(c * n, d);
    let delta = m * d - n * u;
    let eps = r * d - c * n;
    let x = c * m;
    let t = x - r * u;
    assert(t * d == c * delta - eps * u) by (nonlinear_arith)
        requires
            delta == m * d - n * u,
            eps == r * d - c * n,
            t == c * m - r * u,
    ;
    assert(2 * (c * delta) <= c * d && -(c * d) <= 2 * (c * delta)) by (nonlinear_arith)
        requires
            2 * delta <= d,
            -d <= 2 * delta,
            c >= 1,
    ;
    assert(2 * (eps * u) <= (d - 1) * u && -((d - 1) * u) <= 2 * (eps * u)) by (nonlinear_arith)
        requires
            2 * eps <= d - 1,
            -(d - 1) <= 2 * eps,
            u > 0,
    ;
    assert((d - 1) * u == d * u - u) by (nonlinear_arith);
    assert(2 * (t * d) < u * d && -(u * d) < 2 * (t * d)) by (nonlinear_arith)
        requires
            t * d == c * delta - eps * u,
            2 * (c * delta) <= c * d,
            -(c * d) <= 2 * (c * delta),
            2 * (eps * u) <= d * u - u,
            -(d * u - u) <= 2 * (eps * u),
            c * d < u,
    ;
    assert(2 * t < u && -u < 2 * t) by (nonlinear_arith)
        requires
            2 * (t * d) < u * d,
            -(u * d) < 2 * (t * d),
            d > 0,
    ;
    lemma_round_nearest(x as nat, u, r as nat);
    lemma_round_tie_free(c * n, d);
}

/// Off a tie, both ways of rounding agree.
proof fn lemma_round_tie_free(p: nat, q: nat)
    requires
        q > 0,
        2 * (p % q) != q,
    ensures
        round_half_up(p, q) == round_half_even(p, q),
{
}

/// Rounding a tie on an even grid first leaves it a tie.
proof fn lemma_rescaled_tie(n: nat, d: nat, u: nat)
    requires
        d > 0,
        u > 0,
        u % 2 == 0,
        2 * (n % d) == d,
    ensures
        round_half_even(round_half_even(n * u, d), u) == round_half_even(n, d),
        round_half_up(round_half_even(n * u, d), u) == round_half_up(n, d),
{
    let k = n / d;
    let h = u / 2;
    let half = d / 2;
    assert(n == k * d + n % d && 0 <= n % d < d) by (nonlinear_arith)
        requires
            d > 0,
            k == n / d,
    ;
    let m = (2 * k + 1) * h;
    assert(n * u == m * d) by (nonlinear_arith)
        requires
            n == k * d + half,
            2 * half == d,
            u == 2 * h,
            m == (2 * k + 1) * h,
    ;
    assert((n * u) / d == m && (n * u) % d == 0) by (nonlinear_arith)
        requires
            n * u == m * d,
            d > 0,
    ;
    assert(m == k * u + h) by (nonlinear_arith)
        requires
            m == (2 * k + 1) * h,
            u == 2 * h,
    ;
    assert(m / u == k && m % u == h) by (nonlinear_arith)
        requires
            m == k * u + h,
            u == 2 * h,
            h > 0,
    ;
}

/// The exponent of a quotient of 32-bit integers makes a grid that is even
/// and a million times finer than the denominator.
proof fn lemma_scale_is_fine(n: u32, d: u32)
    requires
        n > 0,
        d > 0,
    ensures
        in_binade(n as nat, d as nat, scale(n as nat, d as nat)),
        unit(n as nat, d as nat) > 0x10_0000 * d,
        unit(n as nat, d as nat) % 2 == 0,
{
    let n = n as nat;
    let d = d as nat;
    lemma2_to64();
    lemma2_to64_rest();
    assert(n * pow2(0) < pow2(53) * d) by (nonlinear_arith)
        requires
            n < 0x1_0000_0000,
            d >= 1,
            pow2(0) == 1,
            pow2(53) == 0x20_0000_0000_0000,
    ;
    lemma_binade_search(n, d, 0);
    let e = scale(n, d);
    let u = pow2(e);
    assert(u > 0x10_0000 * d) by (nonlinear_arith)
        requires
            pow2(52) * d <= n * u,
            n < 0x1_0000_0000,
            d >= 1,
            pow2(52) == 0x10_0000_0000_0000,
    ;
    if e == 0 {
        assert(u == 1);
    } else {
        lemma_pow2_unfold(e);
    }
}

/// Rounded to an integer, the double nearest to a quotient of 32-bit
/// integers is the quotient itself rounded: the step through the double
/// changes nothing, ties included.
pub proof fn law_integer_rounding_is_exact(n: u32, d: u32)
    requires
        d > 0,
    ensures
        nearest_even(n as nat, d as nat) == round_half_even(n as nat, d as nat),
        nearest_away(n as nat, d as nat) == round_half_up(n as nat, d as nat),
{
    if n > 0 {
        lemma_scale_is_fine(n, d);
        let u = unit(n as nat, d as nat);
        if 2 * ((n as nat) % (d as nat)) == d {
            lemma_rescaled_tie(n as nat, d as nat, u);
        } else {
            lemma_rescaled_rounding(n as nat, d as nat, u, 1);
        }
    }
}

/// Rounded to tenths, the double nearest to a quotient of 32-bit integers
/// is the quotient itself rounded, unless the quotient lies exactly between
/// two tenths: then the side on which the double lies decides.
pub proof fn law_tenths_are_exact_off_ties(n: u32, d: u32)
    requires
        d > 0,
        2 * ((10 * n) % (d as int)) != d,
    ensures
        tenths(n as nat, d as nat) == round_half_even(10 * (n as nat), d as nat),
{
    if n > 0 {
        lemma_scale_is_fine(n, d);
        lemma_rescaled_rounding(n as nat, d as nat, unit(n as nat, d as nat), 10);
    }
}

} // verus!
