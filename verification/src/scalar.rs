//! Single-precision values carried by their bit patterns.
//!
//! Node parameters and sampled fields hold single-precision numbers. This
//! library never does arithmetic on them; it stores them, hands them to the
//! numeric code unchanged, and compares them. Order on the bit patterns of two
//! numbers that are not NaN is order on sign and magnitude, so a comparison is
//! exact here.
use vstd::prelude::*;

verus! {

/// The bit pattern of a single-precision number.
#[derive(Clone, Copy, PartialEq, Eq, Structural, Hash, Debug)]
pub struct Single {
    /// Sign bit, eight exponent bits, twenty-three fraction bits.
    pub bits: u32,
}

impl Single {
    /// The pattern without its sign bit.
    pub open spec fn magnitude(self) -> int {
        self.bits as int % 0x8000_0000
    }

    /// Whether the pattern is not a number.
    pub open spec fn is_nan(self) -> bool {
        self.magnitude() > 0x7f80_0000
    }

    /// Position in the numeric order: two patterns that are numbers compare as
    /// their ranks do. Both zeros have rank zero.
    pub open spec fn rank(self) -> int {
        if self.bits >= 0x8000_0000 {
            -self.magnitude()
        } else {
            self.magnitude()
        }
    }

    /// Numeric `self >= other`; false when either is not a number.
    pub open spec fn at_least(self, other: Single) -> bool {
        !self.is_nan() && !other.is_nan() && self.rank() >= other.rank()
    }

    /// Numeric `self > 0`.
    pub open spec fn positive(self) -> bool {
        !self.is_nan() && self.rank() > 0
    }

    /// The number with this bit pattern.
    pub fn from_bits(bits: u32) -> (r: Single)
        ensures
            r == (Single { bits }),
    {
        Single { bits }
    }

    /// The bit pattern of this number.
    pub fn to_bits(self) -> (r: u32)
        ensures
            r == self.bits,
    {
        self.bits
    }

    /// Zero.
    pub fn zero() -> (r: Single)
        ensures
            r == (Single { bits: 0 }),
    {
        Single { bits: 0 }
    }

    fn rank_of(self) -> (r: i64)
        ensures
            r == self.rank(),
    {
        if self.bits >= 0x8000_0000 {
            -((self.bits - 0x8000_0000) as i64)
        } else {
            self.bits as i64
        }
    }

    fn not_a_number(self) -> (r: bool)
        ensures
            r == self.is_nan(),
    {
        self.bits % 0x8000_0000 > 0x7f80_0000
    }

    /// Numeric `self >= other`; false when either is not a number.
    pub fn ge(self, other: Single) -> (r: bool)
        ensures
            r == self.at_least(other),
    {
        !self.not_a_number() && !other.not_a_number() && self.rank_of() >= other.rank_of()
    }

    /// Numeric `self > 0`: what makes a density cell solid.
    pub fn is_positive(self) -> (r: bool)
        ensures
            r == self.positive(),
    {
        !self.not_a_number() && self.rank_of() > 0
    }

    /// The digits of the magnitude, as an integer to be scaled by a power of two.
    pub open spec fn significand(self) -> int {
        if self.magnitude() < 0x80_0000 {
            self.magnitude()
        } else {
            0x80_0000 + self.magnitude() % 0x80_0000
        }
    }

    /// The power of two that scales the significand.
    pub open spec fn scale(self) -> int {
        if self.magnitude() < 0x80_0000 {
            -149
        } else {
            self.magnitude() / 0x80_0000 - 150
        }
    }

    /// The magnitude as a whole number, its fraction dropped, rounded or filled up.
    pub open spec fn whole_magnitude(self, mode: Rounding) -> int {
        if self.scale() >= 0 {
            self.significand() * two_to(self.scale() as nat)
        } else {
            (self.significand() + lift(mode, (-self.scale()) as nat)) / two_to(
                (-self.scale()) as nat,
            )
        }
    }

    /// The magnitude rounded to the nearest integer, halves upward.
    pub open spec fn rounded_magnitude(self) -> int {
        self.whole_magnitude(Rounding::Nearest)
    }

    /// The least integer not below the number, held to 32 bits; 0 for what is not
    /// a number.
    pub open spec fn ceiling(self) -> int {
        if self.is_nan() {
            0
        } else if self.bits >= 0x8000_0000 {
            held_to_32_bits(true, self.whole_magnitude(Rounding::Down))
        } else {
            held_to_32_bits(false, self.whole_magnitude(Rounding::Up))
        }
    }

    /// The nearest integer, halves away from zero, held to 32 bits; 0 for what is
    /// not a number.
    pub open spec fn nearest(self) -> int {
        if self.is_nan() {
            0
        } else {
            held_to_32_bits(self.bits >= 0x8000_0000, self.rounded_magnitude())
        }
    }

    /// The nearest integer, halves away from zero, held to 32 bits; 0 for what is
    /// not a number.
    pub fn round(self) -> (r: i32)
        ensures
            r == self.nearest(),
    {
        if self.not_a_number() {
            return 0;
        }
        hold(self.bits >= 0x8000_0000, self.whole(Rounding::Nearest))
    }

    /// The least integer not below the number, held to 32 bits; 0 for what is not
    /// a number.
    pub fn ceil(self) -> (r: i32)
        ensures
            r == self.ceiling(),
    {
        if self.not_a_number() {
            return 0;
        }
        if self.bits >= 0x8000_0000 {
            hold(true, self.whole(Rounding::Down))
        } else {
            hold(false, self.whole(Rounding::Up))
        }
    }

    fn whole(self, mode: Rounding) -> (r: i64)
        ensures
            r >= 0,
            r == self.whole_magnitude(mode) || (r > 0x8000_0000 && self.whole_magnitude(mode)
                > 0x8000_0000),
    {
        let magnitude: u32 = self.bits % 0x8000_0000;
        if magnitude < 0x80_0000 {
            proof {
                lemma_tiny_magnitude(self.significand(), 149, mode);
            }
            return if mode == Rounding::Up && magnitude > 0 { 1 } else { 0 };
        }
        let exponent: u32 = magnitude / 0x80_0000;
        let digits: u64 = 0x80_0000 + (magnitude % 0x80_0000) as u64;
        if exponent >= 150 {
            let up: u32 = exponent - 150;
            if up > 8 {
                proof {
                    lemma_two_to_grows(9, up as nat);
                    assert(two_to(9) == 512) by {
                        reveal_with_fuel(two_to, 10);
                    }
                    assert(digits * two_to(up as nat) >= 0x80_0000 * 512) by (nonlinear_arith)
                        requires
                            digits >= 0x80_0000,
                            two_to(up as nat) >= 512,
                    ;
                }
                return 0x1_0000_0000;
            }
            proof {
                lemma_two_to_grows(up as nat, 8);
                assert(two_to(8) == 256) by {
                    reveal_with_fuel(two_to, 9);
                }
                assert(digits * two_to(up as nat) <= 0x100_0000 * 256) by (nonlinear_arith)
                    requires
                        digits <= 0x100_0000,
                        two_to(up as nat) <= 256,
                ;
            }
            (digits * power(up)) as i64
        } else {
            let down: u32 = 150 - exponent;
            if down > 25 {
                proof {
                    lemma_tiny_magnitude(self.significand(), down as nat, mode);
                }
                return if mode == Rounding::Up { 1 } else { 0 };
            }
            proof {
                lemma_two_to_grows(down as nat, 25);
                lemma_two_to_grows((down - 1) as nat, 25);
                lemma_two_to_grows(0, down as nat);
                lemma_two_to_24();
            }
            let lifted: u64 = match mode {
                Rounding::Down => digits,
                Rounding::Nearest => digits + power(down - 1),
                Rounding::Up => digits + (power(down) - 1),
            };
            (lifted / power(down)) as i64
        }
    }
}

/// What becomes of a fraction when a magnitude is made whole.
#[derive(Clone, Copy, PartialEq, Eq, Structural, Debug)]
pub enum Rounding {
    /// It is dropped.
    Down,
    /// It counts from one half on.
    Nearest,
    /// It counts if there is any.
    Up,
}

/// What is added to a significand before `k` binary places of it are dropped.
pub open spec fn lift(mode: Rounding, k: nat) -> int {
    match mode {
        Rounding::Down => 0,
        Rounding::Nearest => two_to((k - 1) as nat),
        Rounding::Up => two_to(k) - 1,
    }
}

/// A signed integer held to 32 bits.
pub open spec fn held_to_32_bits(negative: bool, magnitude: int) -> int {
    if negative {
        if magnitude > 0x8000_0000 {
            -0x8000_0000
        } else {
            -magnitude
        }
    } else if magnitude > 0x7fff_ffff {
        0x7fff_ffff
    } else {
        magnitude
    }
}

fn hold(negative: bool, m: i64) -> (r: i32)
    requires
        m >= 0,
    ensures
        r == held_to_32_bits(negative, m as int),
{
    if negative {
        if m > 0x8000_0000 {
            -0x8000_0000
        } else {
            (-m) as i32
        }
    } else if m > 0x7fff_ffff {
        0x7fff_ffff
    } else {
        m as i32
    }
}

proof fn lemma_tiny_magnitude(digits: int, down: nat, mode: Rounding)
    requires
        0 <= digits < 0x100_0000,
        down > 25,
    ensures
        (digits + lift(mode, down)) / two_to(down) == if mode == Rounding::Up && digits > 0 {
            1int
        } else {
            0int
        },
{
    lemma_two_to_grows(24, (down - 1) as nat);
    lemma_two_to_24();
    let unit = two_to(down);
    match mode {
        Rounding::Up => {
            if digits > 0 {
                vstd::arithmetic::div_mod::lemma_fundamental_div_mod_converse(
                    digits + unit - 1,
                    unit,
                    1,
                    digits - 1,
                );
            } else {
                lemma_small_quotient(unit - 1, unit);
            }
        },
        _ => lemma_small_quotient(digits + lift(mode, down), unit),
    }
}

/// A power of two.
pub open spec fn two_to(k: nat) -> int
    decreases k,
{
    if k == 0 {
        1
    } else {
        2 * two_to((k - 1) as nat)
    }
}

proof fn lemma_two_to_grows(j: nat, k: nat)
    requires
        j <= k,
    ensures
        1 <= two_to(j) <= two_to(k),
    decreases k,
{
    if j < k {
        lemma_two_to_grows(j, (k - 1) as nat);
    } else if j > 0 {
        lemma_two_to_grows((j - 1) as nat, (j - 1) as nat);
    }
}

proof fn lemma_two_to_24()
    ensures
        two_to(24) == 0x100_0000,
        two_to(25) == 0x200_0000,
{
    reveal_with_fuel(two_to, 26);
}

proof fn lemma_small_quotient(a: int, b: int)
    requires
        0 <= a < b,
    ensures
        a / b == 0,
{
    vstd::arithmetic::div_mod::lemma_basic_div(a, b);
}

fn power(k: u32) -> (r: u64)
    requires
        k <= 25,
    ensures
        r == two_to(k as nat),
        1 <= r <= 0x200_0000,
{
    let mut r: u64 = 1;
    let mut i: u32 = 0;
    proof {
        lemma_two_to_24();
    }
    while i < k
        invariant
            i <= k <= 25,
            r == two_to(i as nat),
            two_to(25) == 0x200_0000,
        decreases k - i,
    {
        proof {
            lemma_two_to_grows((i + 1) as nat, 25);
        }
        r = 2 * r;
        i = i + 1;
    }
    proof {
        lemma_two_to_grows(k as nat, 25);
    }
    r
}

} // verus!
