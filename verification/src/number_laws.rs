//! What rounding gives: the whole numbers around a number, told by its digits.
use crate::fraction::{
    doublings, excess, fraction_single, in_single_digits, int_single, lemma_digits_bound,
    lemma_doublings, lemma_excess, share_of, shares_are_short,
};
use crate::scalar::{lift, two_to, Rounding, Single};
use crate::skeleton::budget_of;
use vstd::arithmetic::power2::{lemma_pow2_pos, lemma_pow2_unfold, pow2};
use vstd::prelude::*;

verus! {

/// The digits of a number: its leading bit, if its exponent gives it one, and its fraction.
pub open spec fn digits(x: Single) -> int {
    let m = x.bits as int % 0x8000_0000;
    m % 0x80_0000 + if m / 0x80_0000 == 0 {
        0int
    } else {
        0x80_0000
    }
}

/// How many binary places the digits of a number have behind the point; a number with none
/// or fewer is whole.
pub open spec fn places(x: Single) -> int {
    let m = x.bits as int % 0x8000_0000;
    if m / 0x80_0000 == 0 {
        149
    } else {
        150 - m / 0x80_0000
    }
}

/// Whether a number is below zero, or is the negative zero.
pub open spec fn is_negative(x: Single) -> bool {
    x.bits >= 0x8000_0000
}

proof fn lemma_two_to(k: nat)
    ensures
        two_to(k) == pow2(k),
        pow2(k) >= 1,
    decreases k,
{
    lemma_pow2_pos(k);
    if k == 0 {
        vstd::arithmetic::power2::lemma2_to64();
    } else {
        lemma_two_to((k - 1) as nat);
        lemma_pow2_unfold(k);
    }
}

proof fn lemma_between(a: int, b: int, q: int)
    requires
        b > 0,
        q == a / b,
    ensures
        q * b <= a < (q + 1) * b,
{
    vstd::arithmetic::div_mod::lemma_fundamental_div_mod(a, b);
    vstd::arithmetic::div_mod::lemma_mod_bound(a, b);
    assert(q * b <= a < (q + 1) * b) by (nonlinear_arith)
        requires
            a == b * q + a % b,
            0 <= a % b < b,
    ;
}

/// A number with places behind the point rounds to the whole number at most half away from
/// it, a half away from zero; its negative to the negative of that.
pub proof fn rounding_goes_to_the_nearest(x: Single)
    requires
        !x.is_nan(),
        1 <= places(x),
    ensures
        ({
            let n = if is_negative(x) {
                -x.nearest()
            } else {
                x.nearest()
            };
            (2 * n - 1) * pow2(places(x) as nat) <= 2 * digits(x) < (2 * n + 1) * pow2(
                places(x) as nat,
            )
        }),
{
    let k = places(x) as nat;
    lemma_parts(x);
    lemma_two_to(k);
    lemma_two_to((k - 1) as nat);
    lemma_pow2_unfold(k);
    let (d, half, unit) = (digits(x), pow2((k - 1) as nat) as int, pow2(k) as int);
    assert(lift(Rounding::Nearest, k) == half);
    let q = (d + half) / unit;
    lemma_between(d + half, unit, q);
    lemma_small(d + half, half, unit, q, d);
    assert((2 * q - 1) * unit <= 2 * d < (2 * q + 1) * unit) by (nonlinear_arith)
        requires
            q * unit <= d + half < (q + 1) * unit,
            unit == 2 * half,
    ;
}

proof fn lemma_parts(x: Single)
    requires
        !x.is_nan(),
    ensures
        digits(x) == x.significand(),
        places(x) == -x.scale(),
        0 <= digits(x) < 0x100_0000,
{
}

proof fn lemma_small(a: int, extra: int, unit: int, q: int, d: int)
    requires
        a == d + extra,
        0 <= extra <= unit,
        0 <= d < 0x100_0000,
        1 <= unit,
        q * unit <= a < (q + 1) * unit,
    ensures
        0 <= q <= 0x100_0000,
{
    assert(q <= 0x100_0000) by (nonlinear_arith)
        requires
            q * unit <= d + extra,
            extra <= unit,
            d < 0x100_0000,
            1 <= unit,
    ;
    assert(q >= 0) by (nonlinear_arith)
        requires
            0 <= d + extra < (q + 1) * unit,
            1 <= unit,
            extra >= 0,
            d >= 0,
    ;
}

/// A number with places behind the point fills up to the least whole number that is not
/// below it.
pub proof fn ceilings_are_the_least_above(x: Single)
    requires
        !x.is_nan(),
        1 <= places(x),
    ensures
        ({
            let n = x.ceiling();
            let unit = pow2(places(x) as nat);
            if is_negative(x) {
                (n - 1) * unit < -digits(x) <= n * unit
            } else {
                (n - 1) * unit < digits(x) <= n * unit
            }
        }),
{
    let k = places(x) as nat;
    lemma_parts(x);
    lemma_two_to(k);
    let (d, unit) = (digits(x), pow2(k) as int);
    if is_negative(x) {
        let q = d / unit;
        lemma_between(d, unit, q);
        lemma_small(d, 0, unit, q, d);
        assert(x.ceiling() == -q);
        assert((-q - 1) * unit < -d <= (-q) * unit) by (nonlinear_arith)
            requires
                q * unit <= d < (q + 1) * unit,
        ;
    } else {
        let q = (d + (unit - 1)) / unit;
        lemma_between(d + (unit - 1), unit, q);
        lemma_small(d + (unit - 1), unit - 1, unit, q, d);
        assert(x.ceiling() == q);
        assert((q - 1) * unit < d <= q * unit) by (nonlinear_arith)
            requires
                q * unit <= d + (unit - 1) < (q + 1) * unit,
        ;
    }
}

/// A number without places behind the point is whole, and rounds and fills up to itself,
/// as far as 32 bits hold it.
pub proof fn whole_numbers_stay(x: Single)
    requires
        !x.is_nan(),
        places(x) <= 0,
    ensures
        ({
            let n = digits(x) * pow2((-places(x)) as nat);
            let held = if is_negative(x) {
                if n > 0x8000_0000 {
                    -0x8000_0000
                } else {
                    -n
                }
            } else if n > 0x7fff_ffff {
                0x7fff_ffff
            } else {
                n
            };
            x.nearest() == held && x.ceiling() == held
        }),
{
    lemma_parts(x);
    lemma_two_to((-places(x)) as nat);
}

/// A tree's budget is its age's share of the most nodes, filled up to a whole number: none
/// is spent before its age begins, all from one on.
pub proof fn budgets_are_shares_of_the_most(age: Single)
    requires
        !age.is_nan(),
    ensures
        is_negative(age) || age.bits == 0 ==> budget_of(age) == 1,
        !is_negative(age) && age.bits >= 0x3f80_0000 ==> budget_of(age) == 512,
        !is_negative(age) && 0 < age.bits < 0x3f80_0000 ==> (budget_of(age) - 1) * pow2(
            places(age) as nat,
        ) < 512 * digits(age) <= budget_of(age) * pow2(places(age) as nat),
{
    if !is_negative(age) && 0x80_0000 <= age.bits < 0x3f80_0000 {
        let a = Single { bits: (age.bits + 0x480_0000) as u32 };
        assert(digits(a) == digits(age));
        assert(places(a) == places(age) - 9);
        ceilings_are_the_least_above(a);
        let k = places(a) as nat;
        vstd::arithmetic::power2::lemma_pow2_adds(k, 9);
        vstd::arithmetic::power2::lemma2_to64();
        let (n, d, unit) = (budget_of(age), digits(age), pow2(k) as int);
        assert(pow2(places(age) as nat) == unit * 512);
        assert((n - 1) * (unit * 512) < 512 * d <= n * (unit * 512)) by (nonlinear_arith)
            requires
                (n - 1) * unit < d <= n * unit,
        ;
    } else if !is_negative(age) && 0 < age.bits < 0x80_0000 {
        vstd::arithmetic::power2::lemma2_to64();
        vstd::arithmetic::power2::lemma_pow2_strictly_increases(32, 149);
        assert(places(age) == 149);
        assert(0 * pow2(149) == 0) by (nonlinear_arith);
    }
}

/// A number without its sign, counted in the smallest steps that a number can differ by.
pub open spec fn steps(x: Single) -> int {
    digits(x) * pow2((149 - places(x)) as nat)
}

/// A number with its sign, counted in the smallest steps that a number can differ by.
pub open spec fn signed_steps(x: Single) -> int {
    if is_negative(x) {
        -steps(x)
    } else {
        steps(x)
    }
}

proof fn lemma_steps_grow(x: Single, y: Single)
    requires
        x.magnitude() < y.magnitude(),
    ensures
        0 <= steps(x) < steps(y),
{
    let (j, k) = ((149 - places(x)) as nat, (149 - places(y)) as nat);
    let (a, b) = (pow2(j) as int, pow2(k) as int);
    lemma_two_to(j);
    lemma_two_to(k);
    assert(steps(x) >= 0) by (nonlinear_arith)
        requires
            steps(x) == digits(x) * a,
            digits(x) >= 0,
            a >= 1,
    ;
    assert(j <= k);
    if j == k {
        assert(digits(x) < digits(y));
        assert(digits(x) * a < digits(y) * a) by (nonlinear_arith)
            requires
                digits(x) < digits(y),
                a >= 1,
        ;
    } else {
        vstd::arithmetic::power2::lemma_pow2_unfold((j + 1) as nat);
        if (j + 1) < k {
            vstd::arithmetic::power2::lemma_pow2_strictly_increases((j + 1) as nat, k);
        }
        assert(b >= 2 * a);
        assert(digits(x) < 0x100_0000 && digits(y) >= 0x80_0000);
        assert(digits(x) * a < digits(y) * b) by (nonlinear_arith)
            requires
                0 <= digits(x) < 0x100_0000,
                digits(y) >= 0x80_0000,
                b >= 2 * a,
                a >= 1,
        ;
    }
}

/// Numbers compare as what they stand for does, and one is positive where that is above zero;
/// what is not a number compares with nothing.
pub proof fn numbers_compare_by_value(x: Single, y: Single)
    ensures
        x.is_nan() || y.is_nan() ==> !x.at_least(y),
        !x.is_nan() && !y.is_nan() ==> (x.at_least(y) <==> signed_steps(x) >= signed_steps(y)),
        x.positive() <==> !x.is_nan() && signed_steps(x) > 0,
{
    let zero = Single { bits: 0 };
    lemma_zero_steps(x);
    lemma_zero_steps(y);
    if x.magnitude() > 0 {
        lemma_steps_grow(zero, x);
    }
    if y.magnitude() > 0 {
        lemma_steps_grow(zero, y);
    }
    lemma_zero_steps(zero);
    if x.magnitude() < y.magnitude() {
        lemma_steps_grow(x, y);
    } else if y.magnitude() < x.magnitude() {
        lemma_steps_grow(y, x);
    } else {
        assert(steps(x) == steps(y));
    }
}

proof fn lemma_zero_steps(x: Single)
    ensures
        x.magnitude() == 0 ==> steps(x) == 0,
{
    if x.magnitude() == 0 {
        assert(digits(x) == 0);
        assert(0 * pow2((149 - places(x)) as nat) == 0) by (nonlinear_arith);
    }
}

/// The number of a draw is its share of one: the draw itself, with 24 places behind the
/// point.
pub proof fn draws_are_shares_of_one(k: int)
    requires
        0 <= k < 0x100_0000,
    ensures
        !fraction_single(k).is_nan(),
        signed_steps(fraction_single(k)) == k * pow2(125),
{
    if k == 0 {
        lemma_zero_steps(fraction_single(0));
        assert(0 * pow2(125) == 0) by (nonlinear_arith);
    } else {
        lemma_doublings(k);
        let n = doublings(k);
        let m = k * two_to(n);
        let x = fraction_single(k);
        assert(x.bits == (126 - n) * 0x80_0000 + (m - 0x80_0000));
        vstd::arithmetic::div_mod::lemma_fundamental_div_mod_converse(
            x.bits as int,
            0x80_0000,
            126 - n,
            m - 0x80_0000,
        );
        assert(digits(x) == m);
        assert(places(x) == 24 + n);
        lemma_two_to(n);
        vstd::arithmetic::power2::lemma_pow2_adds(n, (125 - n) as nat);
        let (a, b) = (pow2(n) as int, pow2((125 - n) as nat) as int);
        assert((k * a) * b == k * (a * b)) by (nonlinear_arith);
    }
}

/// An integer that the digits of a number hold is represented as itself.
pub proof fn small_integers_stand_for_themselves(n: int)
    requires
        -0x100_0000 < n < 0x100_0000,
    ensures
        !int_single(n).is_nan(),
        signed_steps(int_single(n)) == n * pow2(149),
{
    let m = if n < 0 {
        -n
    } else {
        n
    };
    let x = int_single(n);
    if n == 0 {
        lemma_zero_steps(x);
        assert(0 * pow2(149) == 0) by (nonlinear_arith);
    } else {
        lemma_doublings(m);
        let d = doublings(m);
        let kept = m * two_to(d);
        let size = x.bits as int % 0x8000_0000;
        assert(size == (150 - d) * 0x80_0000 + (kept - 0x80_0000));
        vstd::arithmetic::div_mod::lemma_fundamental_div_mod_converse(
            size,
            0x80_0000,
            150 - d,
            kept - 0x80_0000,
        );
        assert(digits(x) == kept);
        assert(places(x) == d);
        lemma_two_to(d);
        vstd::arithmetic::power2::lemma_pow2_adds(d, (149 - d) as nat);
        let (a, b) = (pow2(d) as int, pow2((149 - d) as nat) as int);
        assert((m * a) * b == m * (a * b)) by (nonlinear_arith);
        assert((-m) * (a * b) == -(m * (a * b))) by (nonlinear_arith);
    }
}

/// Rounding a natural number to the digits of a single goes to the nearest one that has no
/// more digits, at most half a unit of the last digit away, a half to the even one; a number
/// that has no more digits stays.
pub proof fn numbers_keep_their_leading_digits(p: int) -> (k: nat)
    requires
        p >= 0,
    ensures
        p < 0x100_0000 ==> in_single_digits(p) == p,
        p >= 0x100_0000 ==> 0x80_0000 * pow2(k) <= p < 0x100_0000 * pow2(k),
        p >= 0x100_0000 ==> exists|q: int|
            #![trigger q * pow2(k)]
            in_single_digits(p) == q * pow2(k) && -pow2(k) <= 2 * (p - q * pow2(k)) <= pow2(k) && (
            2 * (p - q * pow2(k)) == pow2(k) || 2 * (p - q * pow2(k)) == -pow2(k) ==> q % 2 == 0),
{
    let k = excess(p);
    lemma_two_to(k);
    lemma_excess(p);
    let unit = pow2(k) as int;
    let low = p / unit;
    let rest = p % unit;
    vstd::arithmetic::div_mod::lemma_fundamental_div_mod(p, unit);
    vstd::arithmetic::div_mod::lemma_mod_bound(p, unit);
    if p < 0x100_0000 {
        lemma_digits_bound(p);
    } else {
        assert(0x80_0000 * unit <= p < 0x100_0000 * unit) by (nonlinear_arith)
            requires
                p == unit * low + rest,
                0 <= rest < unit,
                0x80_0000 <= low < 0x100_0000,
        ;
        let q = if 2 * rest > unit || (2 * rest == unit && low % 2 == 1) {
            low + 1
        } else {
            low
        };
        assert(in_single_digits(p) == q * pow2(k));
        assert(low * unit == unit * low && (low + 1) * unit == unit * low + unit) by (nonlinear_arith);
    }
    k
}

/// A share of a length is in proportion to the draw it is taken by, up to the digits that a
/// number keeps: at most as much as the draw's part of the length, by no more than one part in
/// as many as a draw can take, and less than one below.
pub proof fn shares_are_in_proportion(k: int, length: int)
    requires
        0 <= k < 0x100_0000,
        1 <= length <= 0x100_0000,
    ensures
        0x100_0000 * share_of(k, length) <= k * length + length,
        k * length - length < 0x100_0000 * (share_of(k, length) + 1),
{
    shares_are_short(0, length);
    let p = k * length;
    assert(0 <= p < 0x100_0000 * length) by (nonlinear_arith)
        requires
            p == k * length,
            0 <= k < 0x100_0000,
            length >= 1,
    ;
    let r = in_single_digits(p);
    let e = numbers_keep_their_leading_digits(p);
    let unit = pow2(e) as int;
    lemma_two_to(e);
    if p >= 0x100_0000 {
        let q = choose|q: int|
            #![trigger q * pow2(e)]
            in_single_digits(p) == q * pow2(e) && -pow2(e) <= 2 * (p - q * pow2(e)) <= pow2(e) && (
            2 * (p - q * pow2(e)) == pow2(e) || 2 * (p - q * pow2(e)) == -pow2(e) ==> q % 2 == 0);
        assert(unit < 2 * length);
        assert(p - length < r < p + length + 1);
    }
    lemma_between(r, 0x100_0000, r / 0x100_0000);
}

} // verus!
