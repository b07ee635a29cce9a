//! Token levels and refill rates.
//!
//! Both are binary64 numbers (IEEE 754), held by their bit patterns: a sign bit, eleven bits of
//! exponent, 52 bits of fraction. What can be read off a pattern is decided here: whether a rate is
//! finite and positive, whether a level holds a token, how many whole tokens it holds. Arithmetic
//! on them is done by an implementation of [`TokenArithmetic`].

use std::time::Duration;
use vstd::arithmetic::power2::{lemma2_to64, lemma_pow2_strictly_increases, lemma_pow2_unfold, pow2};
use vstd::prelude::*;

verus! {

/// The bit pattern of positive infinity. Those above it are negative or no numbers.
pub const INFINITY_BITS: u64 = 0x7ff0_0000_0000_0000;

/// The bit pattern of one.
pub const ONE_BITS: u64 = 0x3ff0_0000_0000_0000;

/// The bit pattern of ten.
pub const TEN_BITS: u64 = 0x4024_0000_0000_0000;

/// Two to the number of fraction bits.
pub const FRACTION_UNIT: u64 = 0x0010_0000_0000_0000;

/// The exponent field of the numbers from one up to two.
pub const EXPONENT_BIAS: u64 = 1023;

/// A rate in tokens per second.
#[derive(Clone, Copy, PartialEq, Eq, Structural, Debug)]
pub struct RefillRate {
    /// The bit pattern of the rate.
    pub bits: u64,
}

impl RefillRate {
    /// Whether the rate is greater than zero; it may be infinite.
    pub open spec fn positive(self) -> bool {
        0 < self.bits <= INFINITY_BITS
    }

    /// Whether the rate is finite and greater than zero.
    pub open spec fn usable(self) -> bool {
        0 < self.bits < INFINITY_BITS
    }

    /// The rate with the given bit pattern.
    pub fn from_bits(bits: u64) -> (rate: RefillRate)
        ensures
            rate.bits == bits,
    {
        RefillRate { bits }
    }

    /// Whether the rate is finite and greater than zero.
    pub fn is_usable(&self) -> (usable: bool)
        ensures
            usable == self.usable(),
    {
        0 < self.bits && self.bits < INFINITY_BITS
    }
}

/// Arithmetic on token levels and refill rates, by their bit patterns.
///
/// Nothing is assumed of an implementation: contracts speak of the values that it returned.
pub trait TokenArithmetic {
    /// The level of a full bucket: the number nearest to the capacity.
    fn full(capacity: u64) -> u64;

    /// The level after `elapsed` nanoseconds of refilling at the given rate, at most the capacity.
    fn refilled(level: u64, capacity: u64, rate: RefillRate, elapsed: u128) -> u64;

    /// The level less one.
    fn one_less(level: u64) -> u64;

    /// The whole seconds that it takes to fill an empty bucket, at most `u64::MAX`.
    fn seconds_to_fill(capacity: u64, rate: RefillRate) -> u64;

    /// How long it takes until one token has been added.
    fn time_per_token(rate: RefillRate) -> Duration;

    /// The rate with two decimals.
    fn rate_text(rate: RefillRate) -> String;
}

/// Whether a level is one or more.
pub open spec fn holds_token(level: u64) -> bool {
    ONE_BITS <= level <= INFINITY_BITS
}

/// The integer part of a level: zero where it is negative or no number, and `u64::MAX` where it is
/// larger than that.
pub open spec fn whole_part(level: u64) -> u64 {
    let exponent = level as int / FRACTION_UNIT as int - EXPONENT_BIAS as int;
    let significand = FRACTION_UNIT as int + level as int % FRACTION_UNIT as int;
    if level > INFINITY_BITS || exponent < 0 {
        0
    } else if exponent >= 64 {
        u64::MAX
    } else {
        (significand * pow2(exponent as nat) / FRACTION_UNIT as int) as u64
    }
}

/// Whether the level holds a token.
pub fn has_token(level: u64) -> (has: bool)
    ensures
        has == holds_token(level),
{
    ONE_BITS <= level && level <= INFINITY_BITS
}

/// How many whole tokens the level holds.
pub fn whole_tokens(level: u64) -> (whole: u64)
    ensures
        whole == whole_part(level),
{
    let field: u64 = level / FRACTION_UNIT;
    if level > INFINITY_BITS || field < EXPONENT_BIAS {
        return 0;
    }
    let exponent: u64 = field - EXPONENT_BIAS;
    if exponent >= 64 {
        return u64::MAX;
    }
    let significand: u128 = FRACTION_UNIT as u128 + (level % FRACTION_UNIT) as u128;
    let mut scaled: u128 = significand;
    let mut i: u64 = 0;
    proof {
        lemma2_to64();
        lemma_pow2_unfold(64);
    }
    while i < exponent
        invariant
            i <= exponent < 64,
            scaled == significand * pow2(i as nat),
            significand < 0x0020_0000_0000_0000,
            pow2(63) == 0x8000_0000_0000_0000,
        decreases exponent - i,
    {
        proof {
            lemma_pow2_unfold((i + 1) as nat);
            if i < 62 {
                lemma_pow2_strictly_increases((i + 1) as nat, 63);
            }
            assert(significand * pow2((i + 1) as nat) == 2 * (significand * pow2(i as nat)))
                by (nonlinear_arith)
                requires
                    pow2((i + 1) as nat) == 2 * pow2(i as nat),
            ;
            assert(significand * pow2((i + 1) as nat) <= 0x0020_0000_0000_0000
                * 0x8000_0000_0000_0000) by (nonlinear_arith)
                requires
                    0 <= significand < 0x0020_0000_0000_0000,
                    0 <= pow2((i + 1) as nat) <= 0x8000_0000_0000_0000,
            ;
        }
        scaled = scaled * 2;
        i += 1;
    }
    proof {
        if exponent < 63 {
            lemma_pow2_strictly_increases(exponent as nat, 63);
        }
        assert(significand * pow2(exponent as nat) <= (0x0020_0000_0000_0000 - 1)
            * 0x8000_0000_0000_0000) by (nonlinear_arith)
            requires
                0 <= significand < 0x0020_0000_0000_0000,
                0 <= pow2(exponent as nat) <= 0x8000_0000_0000_0000,
        ;
    }
    (scaled / FRACTION_UNIT as u128) as u64
}

} // verus!
