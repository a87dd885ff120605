//! Draws as fractions of one, in units of 2^-24, and what single precision makes
//! of them.
use crate::scalar::{two_to, Single};
use vstd::prelude::*;

verus! {

/// How many times a fraction has to double to fill the digits of a single.
pub open spec fn doublings(k: int) -> nat
    decreases 0x100_0000 - k,
{
    if k <= 0 || k >= 0x80_0000 {
        0
    } else {
        doublings(2 * k) + 1
    }
}

/// The single-precision number of value `k / 2^24`, for `k` below `2^24`.
pub open spec fn fraction_single(k: int) -> Single {
    if k <= 0 {
        Single { bits: 0 }
    } else {
        let n = doublings(k);
        Single { bits: ((126 - n) * 0x80_0000 + k * two_to(n) - 0x80_0000) as u32 }
    }
}

pub(crate) proof fn lemma_doublings(k: int)
    requires
        0 < k < 0x100_0000,
    ensures
        doublings(k) <= 23,
        0x80_0000 <= k * two_to(doublings(k)) < 0x100_0000,
{
    lemma_doublings_from(k, 0);
}

proof fn lemma_doublings_from(k: int, n: nat)
    requires
        0 < k < 0x100_0000,
        k >= two_to(n),
        n <= 23,
    ensures
        doublings(k) + n <= 23,
        0x80_0000 <= k * two_to(doublings(k)) < 0x100_0000,
    decreases 0x100_0000 - k,
{
    if k < 0x80_0000 {
        assert(n < 23) by {
            if n == 23 {
                assert(two_to(23) == 0x80_0000) by {
                    reveal_with_fuel(two_to, 24);
                }
            }
        }
        assert(two_to(n + 1) == 2 * two_to(n));
        lemma_doublings_from(2 * k, n + 1);
        let d = doublings(2 * k);
        assert(two_to(d + 1) == 2 * two_to(d));
        assert(k * (2 * two_to(d)) == 2 * k * two_to(d)) by (nonlinear_arith);
    } else {
        assert(two_to(0) == 1);
    }
}

/// A fraction is represented exactly: its digits are the fraction shifted left,
/// and its scale is shifted down by as much.
pub proof fn fractions_are_exact(k: int)
    requires
        0 < k < 0x100_0000,
    ensures
        fraction_single(k).significand() == k * two_to(doublings(k)),
        fraction_single(k).scale() == -24 - doublings(k),
        fraction_single(k).positive(),
{
    lemma_doublings(k);
    let n = doublings(k);
    let m = k * two_to(n);
    let bits = (126 - n) * 0x80_0000 + m - 0x80_0000;
    assert(0 <= bits < 0x4000_0000);
    assert(bits == (126 - n) * 0x80_0000 + (m - 0x80_0000));
    vstd::arithmetic::div_mod::lemma_fundamental_div_mod_converse(
        bits,
        0x80_0000,
        126 - n,
        m - 0x80_0000,
    );
}

/// The single-precision number of value `k / 2^24`.
pub fn single_of_fraction(k: u32) -> (r: Single)
    requires
        k < 0x100_0000,
    ensures
        r == fraction_single(k as int),
{
    if k == 0 {
        return Single { bits: 0 };
    }
    let mut digits: u32 = k;
    let mut exponent: u32 = 126;
    proof {
        lemma_doublings(k as int);
        assert(two_to(0) == 1);
        assert(k * two_to(doublings(k as int)) == digits * two_to(doublings(digits as int)));
    }
    while digits < 0x80_0000
        invariant
            0 < digits < 0x100_0000,
            0 < k < 0x100_0000,
            exponent <= 126,
            doublings(k as int) <= 23,
            doublings(k as int) == 126 - exponent + doublings(digits as int),
            k * two_to(doublings(k as int)) == digits * two_to(doublings(digits as int)),
        decreases 0x100_0000 - digits,
    {
        proof {
            let d = doublings(2 * digits);
            assert(two_to(d + 1) == 2 * two_to(d));
            assert(digits * (2 * two_to(d)) == 2 * digits * two_to(d)) by (nonlinear_arith);
        }
        digits = digits * 2;
        exponent = exponent - 1;
    }
    proof {
        assert(two_to(0) == 1);
        assert(k * two_to(doublings(k as int)) == digits);
        lemma_doublings(k as int);
    }
    Single { bits: exponent * 0x80_0000 + (digits - 0x80_0000) }
}

/// How many binary digits of a natural number do not fit the digits of a single.
pub open spec fn excess(p: int) -> nat
    decreases p,
{
    if p < 0x100_0000 {
        0
    } else {
        excess(p / 2) + 1
    }
}

/// A natural number rounded to the digits of a single, halves to even.
pub open spec fn in_single_digits(p: int) -> int {
    let unit = two_to(excess(p));
    let q = p / unit;
    let rest = p % unit;
    if 2 * rest > unit || (2 * rest == unit && q % 2 == 1) {
        (q + 1) * unit
    } else {
        q * unit
    }
}

/// The whole part of a fraction of a length, multiplied out in single precision.
pub open spec fn share_of(k: int, length: int) -> int {
    in_single_digits(k * in_single_digits(length)) / 0x100_0000
}

proof fn lemma_two_to_positive(n: nat)
    ensures
        two_to(n) >= 1,
    decreases n,
{
    if n > 0 {
        lemma_two_to_positive((n - 1) as nat);
    }
}

pub(crate) proof fn lemma_excess(p: int)
    requires
        p >= 0,
    ensures
        p / two_to(excess(p)) < 0x100_0000,
        excess(p) > 0 ==> p / two_to(excess(p)) >= 0x80_0000,
    decreases p,
{
    if p < 0x100_0000 {
        assert(two_to(0) == 1);
    } else {
        lemma_excess(p / 2);
        let n = excess(p / 2);
        assert(two_to(n + 1) == 2 * two_to(n));
        lemma_two_to_positive(n);
        vstd::arithmetic::div_mod::lemma_div_denominator(p, 2, two_to(n));
        if n == 0 {
            assert(two_to(0) == 1);
        }
    }
}

pub(crate) proof fn lemma_digits_bound(p: int)
    requires
        p >= 0,
    ensures
        0 <= in_single_digits(p),
        excess(p) == 0 ==> in_single_digits(p) == p,
        excess(p) > 0 ==> two_to(excess(p)) * 0x80_0000 <= p,
        2 * in_single_digits(p) <= 2 * p + two_to(excess(p)),
        in_single_digits(p) > p ==> excess(p) > 0,
{
    let unit = two_to(excess(p));
    lemma_two_to_positive(excess(p));
    lemma_excess(p);
    let q = p / unit;
    let rest = p % unit;
    vstd::arithmetic::div_mod::lemma_fundamental_div_mod(p, unit);
    vstd::arithmetic::div_mod::lemma_mod_bound(p, unit);
    assert((q + 1) * unit == q * unit + unit) by (nonlinear_arith);
    assert(q * unit == unit * q) by (nonlinear_arith);
    assert(q >= 0) by {
        vstd::arithmetic::div_mod::lemma_div_pos_is_pos(p, unit);
    }
    assert(q * unit >= 0) by (nonlinear_arith)
        requires
            q >= 0,
            unit >= 1,
    ;
    if excess(p) > 0 {
        assert(unit * 0x80_0000 <= unit * q) by (nonlinear_arith)
            requires
                0x80_0000 <= q,
                unit >= 1,
        ;
    } else {
        assert(two_to(0) == 1);
        assert(rest == 0);
    }
}

proof fn lemma_two_to_sum(a: nat, b: nat)
    ensures
        two_to(a + b) == two_to(a) * two_to(b),
    decreases b,
{
    if b > 0 {
        lemma_two_to_sum(a, (b - 1) as nat);
        let (x, y) = (two_to(a), two_to((b - 1) as nat));
        assert(2 * (x * y) == x * (2 * y)) by (nonlinear_arith);
        assert(two_to(a + b) == 2 * two_to((a + b - 1) as nat));
    }
}

proof fn lemma_two_to_order(a: nat, b: nat)
    requires
        a <= b,
    ensures
        two_to(a) <= two_to(b),
    decreases b,
{
    lemma_two_to_positive(b);
    if a < b {
        lemma_two_to_order(a, (b - 1) as nat);
        lemma_two_to_positive((b - 1) as nat);
    }
}

/// The digits that a single keeps of a number, rounded, and the unit they count.
proof fn lemma_kept_digits(p: int) -> (m: int)
    requires
        p >= 0,
    ensures
        0 <= m <= 0x100_0000,
        in_single_digits(p) == m * two_to(excess(p)),
{
    let unit = two_to(excess(p));
    lemma_two_to_positive(excess(p));
    lemma_excess(p);
    let q = p / unit;
    let rest = p % unit;
    vstd::arithmetic::div_mod::lemma_div_pos_is_pos(p, unit);
    if 2 * rest > unit || (2 * rest == unit && q % 2 == 1) {
        q + 1
    } else {
        q
    }
}

proof fn lemma_share_of_rounded(k: int, length: int)
    requires
        0 <= k < 0x100_0000,
        length >= 1,
        in_single_digits(length) > length,
        in_single_digits(k * in_single_digits(length)) < 0x100_0000 * in_single_digits(length),
        k * in_single_digits(length) >= 0,
    ensures
        share_of(k, length) < length,
{
    let e = excess(length);
    let u = two_to(e);
    let q = length / u;
    lemma_two_to_positive(e);
    lemma_digits_bound(length);
    lemma_excess(length);
    vstd::arithmetic::div_mod::lemma_fundamental_div_mod(length, u);
    vstd::arithmetic::div_mod::lemma_mod_bound(length, u);
    assert(q * u == u * q) by (nonlinear_arith);
    assert((q + 1) * u == q * u + u) by (nonlinear_arith);
    assert(in_single_digits(length) == q * u + u);
    assert(q * u < length);
    let p = k * in_single_digits(length);
    let f = excess(p);
    let rounded = in_single_digits(p);
    let m = lemma_kept_digits(p);
    assert(two_to(23) == 0x80_0000 && two_to(24) == 0x100_0000) by {
        reveal_with_fuel(two_to, 25);
    }
    lemma_two_to_sum(e, 24);
    lemma_two_to_sum(e, 23);
    assert(two_to(e + 24) == u * 0x100_0000);
    assert(two_to(e + 23) == u * 0x80_0000);
    if f >= e + 24 {
        let g = (f - e - 24) as nat;
        lemma_two_to_sum(g, e + 24);
        let n = m * two_to(g);
        assert(rounded == 0x100_0000 * (n * u)) by (nonlinear_arith)
            requires
                rounded == m * two_to(f),
                two_to(f) == two_to(g) * (u * 0x100_0000),
                n == m * two_to(g),
        ;
        assert(n <= q) by (nonlinear_arith)
            requires
                0x100_0000 * (n * u) < 0x100_0000 * (q * u + u),
                u >= 1,
        ;
        assert(n * u <= q * u) by (nonlinear_arith)
            requires
                n <= q,
                u >= 1,
        ;
        assert(share_of(k, length) == n * u);
    } else {
        lemma_two_to_order(f, e + 23);
        assert(rounded <= 0x100_0000 * (u * 0x80_0000)) by (nonlinear_arith)
            requires
                rounded == m * two_to(f),
                0 <= m <= 0x100_0000,
                two_to(f) <= u * 0x80_0000,
                u >= 1,
        ;
        assert(u * 0x80_0000 <= q * u) by (nonlinear_arith)
            requires
                q >= 0x80_0000,
                u >= 1,
        ;
    }
}

/// Lengths that a single can count are not rounded, and a share is always less
/// than the length it is a share of.
pub proof fn shares_are_short(k: int, length: int)
    requires
        0 <= k < 0x100_0000,
        length >= 1,
    ensures
        length <= 0x100_0000 ==> in_single_digits(length) == length,
        0 <= share_of(k, length) < in_single_digits(length),
        share_of(k, length) < length,
{
    lemma_digits_bound(length);
    if length == 0x100_0000 {
        assert(excess(0x80_0000) == 0);
        assert(excess(0x100_0000) == 1);
        assert(two_to(1) == 2) by {
            reveal_with_fuel(two_to, 2);
        }
    }
    let c = in_single_digits(length);
    assert(c >= 1) by {
        let unit = two_to(excess(length));
        lemma_two_to_positive(excess(length));
        lemma_excess(length);
        let q = length / unit;
        if excess(length) == 0 {
            assert(two_to(0) == 1);
        }
        assert(q >= 1);
        assert(q * unit >= 1 && (q + 1) * unit >= 1) by (nonlinear_arith)
            requires
                q >= 1,
                unit >= 1,
        ;
    }
    let p = k * c;
    assert(0 <= p <= 0x100_0000 * c - c) by (nonlinear_arith)
        requires
            0 <= k <= 0xff_ffff,
            c >= 1,
            p == k * c,
    ;
    lemma_digits_bound(p);
    let unit = two_to(excess(p));
    assert(in_single_digits(p) < 0x100_0000 * c);
    if c > length {
        lemma_share_of_rounded(k, length);
    }
}

/// The digits of a natural number as a single keeps them, and how many were
/// dropped.
fn digits_kept(p: u64) -> (r: (u64, u64, u32))
    requires
        p <= 0x80_0000_0000_0000,
    ensures
        r.0 * r.1 == in_single_digits(p as int),
        r.0 <= 0x100_0000,
        r.1 == two_to(r.2 as nat),
        r.2 == excess(p as int),
        1 <= r.1 <= 0x1_0000_0000,
{
    let mut q: u64 = p;
    let mut unit: u64 = 1;
    let mut n: u32 = 0;
    assert(two_to(0) == 1);
    while q >= 0x100_0000
        invariant
            p <= 0x80_0000_0000_0000,
            q == p as int / unit as int,
            unit == two_to(n as nat),
            n <= unit,
            1 <= unit <= 0x1_0000_0000,
            unit * q <= p,
            excess(p as int) == n + excess(q as int),
        decreases q,
    {
        proof {
            vstd::arithmetic::div_mod::lemma_div_denominator(p as int, unit as int, 2);
            assert(two_to((n + 1) as nat) == 2 * two_to(n as nat));
            assert(unit * 0x100_0000 <= p) by (nonlinear_arith)
                requires
                    unit * q <= p,
                    q >= 0x100_0000,
                    unit >= 1,
            ;
            assert(2 * unit * (q / 2) <= p) by (nonlinear_arith)
                requires
                    unit * q <= p,
                    2 * (q / 2) <= q,
                    unit >= 1,
            ;
        }
        q = q / 2;
        unit = unit * 2;
        n = n + 1;
    }
    proof {
        vstd::arithmetic::div_mod::lemma_fundamental_div_mod(p as int, unit as int);
        vstd::arithmetic::div_mod::lemma_mod_bound(p as int, unit as int);
        assert(q * unit == unit * q) by (nonlinear_arith);
        assert((q + 1) * unit == q * unit + unit) by (nonlinear_arith);
        lemma_digits_bound(p as int);
    }
    let rest: u64 = p - q * unit;
    if 2 * rest > unit || (2 * rest == unit && q % 2 == 1) {
        (q + 1, unit, n)
    } else {
        (q, unit, n)
    }
}

pub(crate) fn round_to_digits(p: u64) -> (r: u64)
    requires
        p <= 0x80_0000_0000_0000,
    ensures
        r == in_single_digits(p as int),
{
    let (digits, unit, _) = digits_kept(p);
    assert(digits * unit <= 0x100_0000 * 0x1_0000_0000) by (nonlinear_arith)
        requires
            0 <= digits <= 0x100_0000,
            0 <= unit <= 0x1_0000_0000,
    ;
    digits * unit
}

/// The whole part of a fraction of a length, multiplied out in single precision.
pub fn share(k: u32, length: i32) -> (r: i64)
    requires
        k < 0x100_0000,
        length >= 1,
    ensures
        r == share_of(k as int, length as int),
        0 <= r < in_single_digits(length as int),
        in_single_digits(length as int) <= 0x8000_0000,
{
    proof {
        shares_are_short(k as int, length as int);
        lemma_digits_bound(length as int);
    }
    let c: u64 = round_to_digits(length as u64);
    proof {
        lemma_length_bound(length as int);
        assert(k * c <= 0x100_0000 * 0x8000_0000) by (nonlinear_arith)
            requires
                0 <= k <= 0x100_0000,
                0 <= c <= 0x8000_0000,
        ;
    }
    (round_to_digits(k as u64 * c) / 0x100_0000) as i64
}

pub(crate) proof fn lemma_length_bound(p: int)
    requires
        0 <= p <= 0x7fff_ffff,
    ensures
        in_single_digits(p) <= 0x8000_0000,
        excess(p) <= 7,
{
    lemma_digits_bound(p);
    reveal_with_fuel(excess, 9);
    assert(two_to(7) == 128 && two_to(6) == 64 && two_to(5) == 32 && two_to(4) == 16 && two_to(3)
        == 8 && two_to(2) == 4 && two_to(1) == 2 && two_to(0) == 1) by {
        reveal_with_fuel(two_to, 8);
    }
    let unit = two_to(excess(p));
    let q = p / unit;
    lemma_excess(p);
    if excess(p) == 7 {
        assert(q <= 0xff_ffff);
    }
}

/// The single-precision number nearest to an integer, halves to even.
pub open spec fn int_single(n: int) -> Single {
    let m = if n < 0 {
        -n
    } else {
        n
    };
    let magnitude = if m == 0 {
        0
    } else if m < 0x100_0000 {
        (149 - doublings(m)) * 0x80_0000 + m * two_to(doublings(m))
    } else {
        (149 + excess(m)) * 0x80_0000 + in_single_digits(m) / two_to(excess(m))
    };
    Single { bits: (magnitude + if n < 0 {
        0x8000_0000int
    } else {
        0
    }) as u32 }
}

/// The single-precision number nearest to an integer.
pub fn single_of_int(n: i32) -> (r: Single)
    ensures
        r == int_single(n as int),
{
    let m: i64 = if n < 0 {
        -(n as i64)
    } else {
        n as i64
    };
    let sign: u32 = if n < 0 {
        0x8000_0000
    } else {
        0
    };
    if m == 0 {
        return Single { bits: 0 };
    }
    if m < 0x100_0000 {
        proof {
            lemma_doublings(m as int);
        }
        let f = single_of_fraction(m as u32);
        Single { bits: f.bits + 24 * 0x80_0000 + sign }
    } else {
        let (digits, unit, dropped) = digits_kept(m as u64);
        proof {
            vstd::arithmetic::div_mod::lemma_div_multiples_vanish(digits as int, unit as int);
            assert(digits * unit == unit * digits) by (nonlinear_arith);
            lemma_int_excess(m as int);
        }
        Single { bits: (149 + dropped) * 0x80_0000 + digits as u32 + sign }
    }
}

proof fn lemma_int_excess(p: int)
    requires
        0 <= p <= 0x8000_0000,
    ensures
        excess(p) <= 8,
{
    reveal_with_fuel(excess, 10);
}

/// Integers of up to 24 binary digits are represented exactly.
pub proof fn small_integers_are_exact(n: int)
    requires
        0 < n < 0x100_0000,
    ensures
        int_single(n).significand() == n * two_to(doublings(n)),
        int_single(n).scale() == -doublings(n),
        int_single(n).positive(),
{
    lemma_doublings(n);
    let d = doublings(n);
    let m = n * two_to(d);
    let bits = (149 - d) * 0x80_0000 + m;
    assert(bits == (150 - d) * 0x80_0000 + (m - 0x80_0000));
    vstd::arithmetic::div_mod::lemma_fundamental_div_mod_converse(
        bits,
        0x80_0000,
        150 - d,
        m - 0x80_0000,
    );
}

proof fn lemma_doublings_fall(a: int, b: int)
    requires
        0 < a <= b < 0x100_0000,
    ensures
        doublings(b) <= doublings(a),
{
    lemma_doublings(a);
    lemma_doublings(b);
    let (da, db) = (doublings(a), doublings(b));
    if db > da {
        lemma_two_to_order(da + 1, db);
        assert(two_to((da + 1) as nat) == 2 * two_to(da));
        let (u, v) = (two_to(da), two_to(db));
        lemma_two_to_positive(db);
        assert(b * v >= a * v) by (nonlinear_arith)
            requires
                b >= a,
                v >= 1,
        ;
        assert(a * v >= 2 * (a * u)) by (nonlinear_arith)
            requires
                a > 0,
                v >= 2 * u,
        ;
    }
}

proof fn lemma_positive_order(a: int, b: int)
    requires
        0 <= a < b < 0x100_0000,
    ensures
        0 <= int_single(a).magnitude() < int_single(b).magnitude() < 0x7f80_0000,
        int_single(a).bits < 0x8000_0000,
        int_single(b).bits < 0x8000_0000,
{
    lemma_doublings(b);
    let db = doublings(b);
    if a > 0 {
        lemma_doublings(a);
        lemma_doublings_fall(a, b);
        let da = doublings(a);
        lemma_two_to_positive(da);
        if da == db {
            assert(a * two_to(da) < b * two_to(db)) by (nonlinear_arith)
                requires
                    a < b,
                    da == db,
                    two_to(da) >= 1,
            ;
        }
    }
}

/// Integers of up to 24 binary digits compare as singles as they do themselves.
pub proof fn integers_keep_their_order(a: int, b: int)
    requires
        -0x100_0000 < a < 0x100_0000,
        -0x100_0000 < b < 0x100_0000,
    ensures
        int_single(a).at_least(int_single(b)) <==> a >= b,
        !int_single(a).is_nan(),
{
    lemma_positive_order(0, 1);
    if a > 0 {
        lemma_positive_order(0, a);
    }
    if a < 0 {
        lemma_positive_order(0, -a);
    }
    if b > 0 {
        lemma_positive_order(0, b);
    }
    if b < 0 {
        lemma_positive_order(0, -b);
    }
    if 0 <= a < b {
        lemma_positive_order(a, b);
    }
    if 0 <= b < a {
        lemma_positive_order(b, a);
    }
    if a < b <= 0 {
        lemma_positive_order(-b, -a);
    }
    if b < a <= 0 {
        lemma_positive_order(-a, -b);
    }
    lemma_negative(a);
    lemma_negative(b);
}

proof fn lemma_negative(n: int)
    requires
        -0x100_0000 < n < 0x100_0000,
    ensures
        n < 0 ==> int_single(n).rank() == -int_single(-n).magnitude(),
        n >= 0 ==> int_single(n).rank() == int_single(n).magnitude(),
        n < 0 ==> int_single(n).magnitude() == int_single(-n).magnitude(),
{
    if n < 0 {
        lemma_doublings(-n);
        let d = doublings(-n);
        let m = (149 - d) * 0x80_0000 + -n * two_to(d);
        assert(0 <= m < 0x7f80_0000);
        assert(int_single(-n).bits == m);
        assert(int_single(n).bits == m + 0x8000_0000);
    } else if n > 0 {
        lemma_positive_order(0, n);
    }
}

} // verus!
