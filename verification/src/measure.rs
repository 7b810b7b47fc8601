//! Physical measurements as they arrive from a spreadsheet cell.
//!
//! A cell that holds a length in inches or a weight in pounds is read as a
//! single-precision binary floating-point number. This module keeps such a
//! number as its 32-bit pattern and works on it with integers only: the
//! pattern is taken apart into sign, exponent and significand, and every
//! rounding is done exactly, on the rational number that the pattern denotes.
use vstd::arithmetic::power2::{
    lemma2_to64, lemma2_to64_rest, lemma_pow2_pos, lemma_pow2_strictly_increases,
    lemma_pow2_unfold, pow2,
};
use vstd::prelude::*;

verus! {

/// Tenths of a gram in one pound: a pound is 453 grams and six tenths.
pub const DECIGRAMS_PER_POUND: u64 = 4536;

/// Tenths of a gram in one gram.
pub const DECIGRAMS_PER_GRAM: u64 = 10;

/// The first value of the pattern whose sign bit is set.
pub const SIGN_BIT: u32 = 0x8000_0000;

/// Two to the power 23: the weight of the hidden bit, and the number of
/// fraction patterns.
pub const HIDDEN_BIT: u32 = 0x80_0000;

/// The biased exponent that marks an infinity or a value that is no number.
pub const SPECIAL_EXPONENT: u32 = 255;

/// `ceil(n / d)` for a natural `n` and a positive `d`.
pub open spec fn ceil_div(n: nat, d: nat) -> nat
    recommends
        d > 0,
{
    ((n + d - 1) / (d as int)) as nat
}

/// A natural number as a `u32`, with everything above the range at its top.
pub open spec fn saturate(n: nat) -> u32 {
    if n > u32::MAX {
        u32::MAX
    } else {
        n as u32
    }
}

/// A measurement: the bit pattern of a single-precision number.
#[derive(Clone, Copy, Debug)]
pub struct Measure {
    bits: u32,
}

impl Measure {
    /// The bit pattern.
    pub closed spec fn bits(self) -> u32 {
        self.bits
    }

    /// Whether the sign bit is set.
    pub open spec fn negative(self) -> bool {
        self.bits() >= SIGN_BIT
    }

    /// The eight exponent bits, as stored.
    pub open spec fn biased_exponent(self) -> nat {
        ((self.bits() / HIDDEN_BIT) % 256) as nat
    }

    /// The 23 fraction bits.
    pub open spec fn fraction(self) -> nat {
        (self.bits() % HIDDEN_BIT) as nat
    }

    /// Whether the pattern denotes no number at all.
    pub open spec fn is_nan(self) -> bool {
        self.biased_exponent() == SPECIAL_EXPONENT && self.fraction() != 0
    }

    /// Whether the pattern denotes an infinity, of either sign.
    pub open spec fn is_infinite(self) -> bool {
        self.biased_exponent() == SPECIAL_EXPONENT && self.fraction() == 0
    }

    /// The integer that is scaled by a power of two: the fraction bits, with
    /// the hidden bit in front unless the number is subnormal.
    pub open spec fn significand(self) -> nat {
        if self.biased_exponent() == 0 {
            self.fraction()
        } else {
            HIDDEN_BIT as nat + self.fraction()
        }
    }

    /// The power of two by which the significand is scaled.
    pub open spec fn exponent(self) -> int {
        if self.biased_exponent() == 0 {
            -149
        } else {
            self.biased_exponent() - 150
        }
    }

    /// The numerator of the magnitude, for a pattern that denotes a finite
    /// number: the magnitude is `numerator() / denominator()`.
    pub open spec fn numerator(self) -> nat {
        if self.exponent() >= 0 {
            self.significand() * pow2(self.exponent() as nat)
        } else {
            self.significand()
        }
    }

    /// The denominator of the magnitude: a power of two.
    pub open spec fn denominator(self) -> nat {
        if self.exponent() >= 0 {
            1
        } else {
            pow2((-self.exponent()) as nat)
        }
    }

    /// Whether the measurement is a number strictly above zero. The positive
    /// infinity is; a pattern that denotes no number is not.
    pub open spec fn spec_is_positive(&self) -> bool {
        !self.negative() && !self.is_nan() && (self.is_infinite() || self.significand() > 0)
    }

    /// `ceil(value * mul / div)` as a `u32`: 0 where the value is negative or
    /// no number, the largest `u32` where the result lies above the range.
    pub open spec fn scaled_ceiling(self, mul: nat, div: nat) -> u32
        recommends
            div > 0,
    {
        if self.negative() || self.is_nan() {
            0
        } else if self.is_infinite() {
            u32::MAX
        } else {
            saturate(ceil_div(self.numerator() * mul, self.denominator() * div))
        }
    }

    /// The measurement rounded up to a whole number.
    pub open spec fn spec_ceil(&self) -> u32 {
        self.scaled_ceiling(1, 1)
    }

    /// A weight in pounds as whole grams, rounded up.
    pub open spec fn spec_grams(&self) -> u32 {
        self.scaled_ceiling(DECIGRAMS_PER_POUND as nat, DECIGRAMS_PER_GRAM as nat)
    }

    /// The measurement with the given bit pattern.
    pub fn from_bits(bits: u32) -> (r: Measure)
        ensures
            r.bits() == bits,
    {
        Measure { bits }
    }

    /// The bit pattern of the measurement.
    pub fn to_bits(&self) -> (r: u32)
        ensures
            r == self.bits(),
    {
        self.bits
    }

    /// Whether the measurement is a number strictly above zero.
    #[verifier::when_used_as_spec(spec_is_positive)]
    pub fn is_positive(&self) -> (r: bool)
        ensures
            r == self.spec_is_positive(),
    {
        let biased: u32 = (self.bits / HIDDEN_BIT) % 256;
        let fraction: u32 = self.bits % HIDDEN_BIT;
        if self.bits >= SIGN_BIT {
            false
        } else if biased == SPECIAL_EXPONENT {
            fraction == 0
        } else {
            biased != 0 || fraction != 0
        }
    }

    /// The measurement rounded up to a whole number, as a `u32`: 0 where it is
    /// negative or no number, the largest `u32` where it lies above the range.
    #[verifier::when_used_as_spec(spec_ceil)]
    pub fn ceil(&self) -> (r: u32)
        ensures
            r == self.spec_ceil(),
    {
        self.ceil_scaled(1, 1)
    }

    /// A weight in pounds as whole grams, rounded up, as a `u32`: 0 where the
    /// weight is negative or no number, the largest `u32` where the result
    /// lies above the range.
    #[verifier::when_used_as_spec(spec_grams)]
    pub fn grams(&self) -> (r: u32)
        ensures
            r == self.spec_grams(),
    {
        self.ceil_scaled(DECIGRAMS_PER_POUND, DECIGRAMS_PER_GRAM)
    }

    /// `ceil(value * mul / div)`, computed on integers.
    fn ceil_scaled(&self, mul: u64, div: u64) -> (r: u32)
        requires
            1 <= div <= mul <= 0x2000,
            div <= 16,
        ensures
            r == self.scaled_ceiling(mul as nat, div as nat),
    {
        let biased: u32 = (self.bits / HIDDEN_BIT) % 256;
        let fraction: u32 = self.bits % HIDDEN_BIT;
        if self.bits >= SIGN_BIT {
            return 0;
        }
        if biased == SPECIAL_EXPONENT {
            return if fraction == 0 {
                u32::MAX
            } else {
                0
            };
        }
        let significand: u64 = if biased == 0 {
            fraction as u64
        } else {
            HIDDEN_BIT as u64 + fraction as u64
        };
        proof {
            lemma2_to64();
            lemma2_to64_rest();
        }
        if biased >= 150 {
            // The significand is scaled up: the value is a whole number.
            let shift: u32 = biased - 150;
            if shift > 8 {
                proof {
                    lemma_scaled_up_saturates(
                        significand as nat,
                        shift as nat,
                        mul as nat,
                        div as nat,
                    );
                }
                return u32::MAX;
            }
            let scale: u64 = power_of_two(shift);
            assert(scale <= 0x100) by {
                if shift < 8 {
                    lemma_pow2_strictly_increases(shift as nat, 8);
                }
            }
            assert(significand * scale <= 0x1_0000_0000) by (nonlinear_arith)
                requires
                    significand < 0x100_0000,
                    scale <= 0x100,
            ;
            let whole: u64 = significand * scale;
            assert(whole * mul <= 0x2000_0000_0000) by (nonlinear_arith)
                requires
                    whole <= 0x1_0000_0000,
                    mul <= 0x2000,
            ;
            let rounded: u64 = (whole * mul + (div - 1)) / div;
            assert(self.denominator() * (div as nat) == div);
            clamp(rounded)
        } else {
            // The significand is scaled down by two to the power `shift`.
            let shift: u32 = if biased == 0 {
                149
            } else {
                150 - biased
            };
            assert(significand * mul < 0x20_0000_0000) by (nonlinear_arith)
                requires
                    significand < 0x100_0000,
                    mul <= 0x2000,
            ;
            let scaled: u64 = significand * mul;
            if shift >= 40 {
                proof {
                    lemma_pow2_pos(shift as nat);
                    if shift > 40 {
                        lemma_pow2_strictly_increases(40, shift as nat);
                    }
                    assert(pow2(shift as nat) * (div as nat) >= 0x100_0000_0000) by (nonlinear_arith)
                        requires
                            pow2(shift as nat) >= 0x100_0000_0000,
                            div >= 1,
                    ;
                    lemma_small_over_large(
                        scaled as nat,
                        pow2(shift as nat) * (div as nat),
                    );
                }
                return if scaled == 0 {
                    0
                } else {
                    1
                };
            }
            let scale: u64 = power_of_two(shift);
            assert(scale < 0x100_0000_0000) by {
                lemma_pow2_strictly_increases(shift as nat, 40);
            }
            assert(scale * div < 0x1000_0000_0000) by (nonlinear_arith)
                requires
                    scale < 0x100_0000_0000,
                    div <= 16,
            ;
            assert(scale * div >= 1) by (nonlinear_arith)
                requires
                    scale >= 1,
                    div >= 1,
            ;
            let divisor: u64 = scale * div;
            let rounded: u64 = (scaled + (divisor - 1)) / divisor;
            clamp(rounded)
        }
    }
}

/// A `u64` as a `u32`, with everything above the range at its top.
fn clamp(n: u64) -> (r: u32)
    ensures
        r == saturate(n as nat),
{
    if n > u32::MAX as u64 {
        u32::MAX
    } else {
        n as u32
    }
}

/// Two to the power `e`.
fn power_of_two(e: u32) -> (r: u64)
    requires
        e < 64,
    ensures
        r == pow2(e as nat),
        r >= 1,
{
    let mut r: u64 = 1;
    let mut i: u32 = 0;
    proof {
        lemma2_to64();
    }
    while i < e
        invariant
            i <= e < 64,
            r == pow2(i as nat),
            r >= 1,
        decreases e - i,
    {
        proof {
            lemma_pow2_unfold((i + 1) as nat);
            lemma2_to64_rest();
            if i + 1 < 63 {
                lemma_pow2_strictly_increases((i + 1) as nat, 63);
            }
        }
        r = r * 2;
        i = i + 1;
    }
    r
}

/// A normal number scaled up by more than two to the power 8 is at least two
/// to the power 32, and stays so when multiplied by a factor of one or more.
proof fn lemma_scaled_up_saturates(significand: nat, shift: nat, mul: nat, div: nat)
    requires
        significand >= HIDDEN_BIT,
        shift > 8,
        1 <= div <= mul,
    ensures
        saturate(ceil_div(significand * pow2(shift) * mul, 1 * div)) == u32::MAX,
{
    lemma2_to64();
    if shift > 9 {
        lemma_pow2_strictly_increases(9, shift);
    }
    let whole = significand * pow2(shift);
    assert(whole >= 0x1_0000_0000) by (nonlinear_arith)
        requires
            whole == significand * pow2(shift),
            significand >= 0x80_0000,
            pow2(shift) >= 0x200,
    ;
    assert(whole * mul >= whole * div) by (nonlinear_arith)
        requires
            div <= mul,
    ;
    assert((whole * mul + div - 1) / (div as int) >= whole) by (nonlinear_arith)
        requires
            whole * mul >= whole * div,
            div >= 1,
    ;
}

/// A natural number below the divisor rounds up to 1, or to 0 where it is 0.
proof fn lemma_small_over_large(n: nat, d: nat)
    requires
        n < d,
    ensures
        ceil_div(n, d) == if n == 0 {
            0nat
        } else {
            1nat
        },
{
    if n == 0 {
        assert((d - 1) / (d as int) == 0) by (nonlinear_arith)
            requires
                d >= 1,
        ;
    } else {
        assert((n + d - 1) / (d as int) == 1) by (nonlinear_arith)
            requires
                1 <= n < d,
        ;
    }
}

} // verus!
