//! Real numbers as they arrive: doubles, held by their bit patterns.
//!
//! Speedrun times and counts of metabits come from game clients as IEEE-754
//! doubles. They are kept as the encodings they are, so that nothing is
//! rounded on the way, and are compared against whole limits and cut to
//! whole numbers exactly.

use vstd::arithmetic::div_mod::{
    lemma_basic_div, lemma_div_by_multiple, lemma_div_multiples_vanish_quotient,
};
use vstd::arithmetic::power2::{
    lemma2_to64, lemma2_to64_rest, lemma_pow2_adds, lemma_pow2_pos,
    lemma_pow2_strictly_increases, lemma_pow2_unfold, pow2,
};
use vstd::prelude::*;

verus! {

/// Number of distinct fraction values of a double: 2^52.
pub const FRACTION_SPAN: u64 = 0x10_0000_0000_0000;

/// The sign bit of a double.
pub const SIGN_BIT: u64 = 0x8000_0000_0000_0000;

/// Number of distinct biased exponents of a double.
pub const EXPONENT_SPAN: u64 = 2048;

/// The biased exponent shared by the infinities and the NaNs.
pub const EXPONENT_SPECIAL: u64 = 2047;

/// The power of two by which every magnitude is scaled to become a whole
/// number: the smallest positive double is 2^-1074, and normal doubles carry
/// one more implicit bit.
pub const MAGNITUDE_SCALE: u64 = 1075;

/// The biased exponent of the doubles from one up to two.
pub const EXPONENT_BIAS: u64 = 1023;

/// The least biased exponent of the doubles that are too large for a signed
/// 64-bit number: those of 2^63 and above.
pub const EXPONENT_BEYOND: u64 = 1086;

/// A double.
#[derive(Clone, Copy, Debug, PartialEq, Eq, Structural)]
pub struct Double {
    /// The IEEE-754 binary64 encoding of the number.
    pub bits: u64,
}

impl Double {
    /// The sign bit is set.
    pub open spec fn negative(self) -> bool {
        self.bits >= SIGN_BIT
    }

    /// The biased exponent field.
    pub open spec fn exponent(self) -> nat {
        ((self.bits / FRACTION_SPAN) % EXPONENT_SPAN) as nat
    }

    /// The fraction field.
    pub open spec fn fraction(self) -> nat {
        (self.bits % FRACTION_SPAN) as nat
    }

    /// The encoding stands for no number at all.
    pub open spec fn is_nan(self) -> bool {
        self.exponent() == EXPONENT_SPECIAL && self.fraction() != 0
    }

    /// The absolute value of the number multiplied by 2^1075, which is a
    /// whole number for every finite double. An infinity gets a value above
    /// every finite one.
    pub open spec fn scaled_magnitude(self) -> nat {
        if self.exponent() == 0 {
            2 * self.fraction()
        } else {
            ((FRACTION_SPAN + self.fraction()) * pow2(self.exponent())) as nat
        }
    }

    /// The double is a number and does not exceed `limit`.
    pub open spec fn spec_at_most(self, limit: nat) -> bool {
        !self.is_nan() && (self.negative() || self.scaled_magnitude() <= limit * pow2(
            MAGNITUDE_SCALE as nat,
        ))
    }

    /// The absolute value of the number without its fraction.
    pub open spec fn whole_magnitude(self) -> nat {
        self.scaled_magnitude() / pow2(MAGNITUDE_SCALE as nat)
    }

    /// The number cut to a whole number towards zero, and to the nearest
    /// signed 64-bit number where it lies beyond them. A NaN is cut to zero.
    pub open spec fn spec_truncated(self) -> int {
        if self.is_nan() {
            0
        } else if self.negative() {
            if self.whole_magnitude() >= SIGN_BIT {
                i64::MIN as int
            } else {
                -(self.whole_magnitude() as int)
            }
        } else {
            if self.whole_magnitude() >= SIGN_BIT {
                i64::MAX as int
            } else {
                self.whole_magnitude() as int
            }
        }
    }

    /// Wraps the encoding of a double.
    pub fn from_bits(bits: u64) -> (number: Double)
        ensures
            number.bits == bits,
    {
        Double { bits }
    }

    /// The encoding of the double.
    pub fn to_bits(&self) -> (bits: u64)
        ensures
            bits == self.bits,
    {
        self.bits
    }

    /// Cuts the double to a whole number as a conversion to a signed 64-bit
    /// number does: towards zero, saturating, a NaN to zero.
    pub fn truncated(&self) -> (whole: i64)
        ensures
            whole == self.spec_truncated(),
    {
        let exponent: u64 = (self.bits / FRACTION_SPAN) % EXPONENT_SPAN;
        let fraction: u64 = self.bits % FRACTION_SPAN;
        if exponent == EXPONENT_SPECIAL && fraction != 0 {
            return 0;
        }
        let negative: bool = self.bits >= SIGN_BIT;
        if exponent < EXPONENT_BIAS {
            proof {
                lemma_below_one(*self);
            }
            return 0;
        }
        let significand: u64 = FRACTION_SPAN + fraction;
        if exponent >= EXPONENT_BEYOND {
            proof {
                lemma_beyond_range(*self);
            }
            return if negative {
                i64::MIN
            } else {
                i64::MAX
            };
        }
        let magnitude: u64 = if exponent >= MAGNITUDE_SCALE {
            let unit: u64 = power_of_two(exponent - MAGNITUDE_SCALE);
            proof {
                lemma_whole_multiple(*self);
            }
            significand * unit
        } else {
            let unit: u64 = power_of_two(MAGNITUDE_SCALE - exponent);
            proof {
                lemma_whole_quotient(*self);
                lemma_pow2_pos((MAGNITUDE_SCALE - exponent) as nat);
            }
            significand / unit
        };
        if negative {
            -(magnitude as i64)
        } else {
            magnitude as i64
        }
    }

    /// Decides `number <= limit` as the reals order them. A NaN is at most
    /// nothing.
    pub fn at_most(&self, limit: u32) -> (within: bool)
        ensures
            within == self.spec_at_most(limit as nat),
    {
        let exponent: u64 = (self.bits / FRACTION_SPAN) % EXPONENT_SPAN;
        let fraction: u64 = self.bits % FRACTION_SPAN;
        if exponent == EXPONENT_SPECIAL && fraction != 0 {
            return false;
        }
        if self.bits >= SIGN_BIT {
            return true;
        }
        if exponent == 0 {
            proof {
                lemma_small_below_scale(2 * fraction as nat, limit as nat);
            }
            return fraction == 0 || limit >= 1;
        }
        let significand: u64 = FRACTION_SPAN + fraction;
        if limit == 0 {
            proof {
                lemma_pow2_pos(exponent as nat);
                lemma_product_positive(significand as nat, pow2(exponent as nat));
            }
            return false;
        }
        if exponent >= MAGNITUDE_SCALE {
            proof {
                lemma_large_above_limit(significand as nat, exponent as nat, limit as nat);
            }
            return false;
        }
        let shift: u64 = MAGNITUDE_SCALE - exponent;
        proof {
            lemma_scale_cancels(significand as nat, limit as nat, exponent as nat, shift as nat);
        }
        if shift >= 53 {
            proof {
                lemma2_to64_rest();
                if shift > 53 {
                    lemma_pow2_strictly_increases(53, shift as nat);
                }
                lemma_at_least_once(limit as nat, pow2(shift as nat));
            }
            return true;
        }
        let unit: u64 = power_of_two(shift);
        proof {
            lemma2_to64_rest();
            if shift < 52 {
                lemma_pow2_strictly_increases(shift as nat, 52);
            }
            lemma_limit_fits(limit as nat, unit as nat);
        }
        let scaled_limit: u128 = (limit as u128) * (unit as u128);
        (significand as u128) <= scaled_limit
    }
}

/// 2^`exponent` as a machine integer.
pub fn power_of_two(exponent: u64) -> (power: u64)
    requires
        exponent <= 63,
    ensures
        power == pow2(exponent as nat),
{
    let mut power: u64 = 1;
    let mut done: u64 = 0;
    proof {
        lemma2_to64();
    }
    while done < exponent
        invariant
            done <= exponent <= 63,
            power == pow2(done as nat),
        decreases exponent - done,
    {
        proof {
            lemma_pow2_unfold((done + 1) as nat);
            lemma2_to64_rest();
            if done + 1 < 63 {
                lemma_pow2_strictly_increases((done + 1) as nat, 63);
            }
        }
        power = power * 2;
        done = done + 1;
    }
    power
}

/// A magnitude below 2^53 is below one at the scale of 2^1075.
proof fn lemma_small_below_scale(scaled: nat, limit: nat)
    requires
        scaled < 0x20_0000_0000_0000,
    ensures
        limit >= 1 ==> scaled <= limit * pow2(MAGNITUDE_SCALE as nat),
        limit == 0 ==> (scaled <= limit * pow2(MAGNITUDE_SCALE as nat) <==> scaled == 0),
{
    lemma2_to64_rest();
    lemma_pow2_strictly_increases(53, MAGNITUDE_SCALE as nat);
    lemma_at_least_once(limit, pow2(MAGNITUDE_SCALE as nat));
}

/// `count` copies of `unit` are at least one `unit` when there is a copy, and
/// nothing when there is none.
proof fn lemma_at_least_once(count: nat, unit: nat)
    ensures
        count >= 1 ==> count * unit >= unit,
        count == 0 ==> count * unit == 0,
{
    assert(count >= 1 ==> count * unit >= unit) by (nonlinear_arith);
    assert(count == 0 ==> count * unit == 0) by (nonlinear_arith);
}

proof fn lemma_product_positive(left: nat, right: nat)
    requires
        left > 0,
        right > 0,
    ensures
        left * right > 0,
{
    assert(left * right > 0) by (nonlinear_arith)
        requires
            left > 0,
            right > 0,
    ;
}

/// A normal double whose exponent reaches the scale is at least 2^52 and so
/// above every limit that fits in 32 bits.
proof fn lemma_large_above_limit(significand: nat, exponent: nat, limit: nat)
    requires
        significand >= FRACTION_SPAN,
        exponent >= MAGNITUDE_SCALE,
        limit < 0x1_0000_0000,
    ensures
        significand * pow2(exponent) > limit * pow2(MAGNITUDE_SCALE as nat),
{
    let scale = pow2(MAGNITUDE_SCALE as nat);
    let power = pow2(exponent);
    lemma_pow2_pos(MAGNITUDE_SCALE as nat);
    if exponent > MAGNITUDE_SCALE {
        lemma_pow2_strictly_increases(MAGNITUDE_SCALE as nat, exponent);
    }
    assert(significand * power > limit * scale) by (nonlinear_arith)
        requires
            significand > limit,
            power >= scale,
            scale > 0,
    ;
}

/// Comparing at the scale of 2^1075 is comparing after both sides are divided
/// by 2^`exponent`.
proof fn lemma_scale_cancels(significand: nat, limit: nat, exponent: nat, shift: nat)
    requires
        exponent + shift == MAGNITUDE_SCALE,
    ensures
        significand * pow2(exponent) <= limit * pow2(MAGNITUDE_SCALE as nat) <==> significand
            <= limit * pow2(shift),
{
    let scale = pow2(MAGNITUDE_SCALE as nat);
    let power = pow2(exponent);
    let unit = pow2(shift);
    lemma_pow2_adds(shift, exponent);
    lemma_pow2_pos(exponent);
    assert(limit * scale == (limit * unit) * power) by (nonlinear_arith)
        requires
            scale == unit * power,
    ;
    assert(significand * power <= (limit * unit) * power <==> significand <= limit * unit)
        by (nonlinear_arith)
        requires
            power > 0,
    ;
}

/// The limit at the scale of the significand fits in 128 bits.
proof fn lemma_limit_fits(limit: nat, unit: nat)
    requires
        limit < 0x1_0000_0000,
        unit <= 0x10_0000_0000_0000,
    ensures
        limit * unit < 0x1_0000_0000_0000_0000_0000_0000,
{
    assert(limit * unit < 0x1_0000_0000_0000_0000_0000_0000) by (nonlinear_arith)
        requires
            limit < 0x1_0000_0000,
            unit <= 0x10_0000_0000_0000,
    ;
}

/// A double below one has no whole part.
proof fn lemma_below_one(number: Double)
    requires
        number.exponent() < EXPONENT_BIAS,
    ensures
        number.whole_magnitude() == 0,
{
    let exponent = number.exponent();
    let scale = pow2(MAGNITUDE_SCALE as nat) as int;
    let scaled = number.scaled_magnitude() as int;
    lemma2_to64_rest();
    if exponent == 0 {
        lemma_pow2_strictly_increases(53, MAGNITUDE_SCALE as nat);
    } else {
        let power = pow2(exponent) as int;
        let significand = FRACTION_SPAN + number.fraction();
        lemma_pow2_adds(53, exponent);
        lemma_pow2_pos(exponent);
        if 53 + exponent < MAGNITUDE_SCALE {
            lemma_pow2_strictly_increases(53 + exponent, MAGNITUDE_SCALE as nat);
        }
        assert(significand * power < pow2(53) * power) by (nonlinear_arith)
            requires
                significand < pow2(53),
                power > 0,
        ;
    }
    lemma_basic_div(scaled, scale);
}

/// A double with an exponent of 2^63 or more has a whole part of 2^63 or
/// more.
proof fn lemma_beyond_range(number: Double)
    requires
        number.exponent() >= EXPONENT_BEYOND,
    ensures
        number.whole_magnitude() >= SIGN_BIT,
{
    let exponent = number.exponent();
    let significand = FRACTION_SPAN + number.fraction();
    let scale = pow2(MAGNITUDE_SCALE as nat) as int;
    let over = pow2((exponent - MAGNITUDE_SCALE) as nat) as int;
    lemma_pow2_adds((exponent - MAGNITUDE_SCALE) as nat, MAGNITUDE_SCALE as nat);
    lemma_pow2_pos(MAGNITUDE_SCALE as nat);
    lemma2_to64();
    if exponent > EXPONENT_BEYOND {
        lemma_pow2_strictly_increases(11, (exponent - MAGNITUDE_SCALE) as nat);
    }
    assert(significand * pow2(exponent) == (significand * over) * scale) by (nonlinear_arith)
        requires
            pow2(exponent) == over * scale,
    ;
    assert(significand * over >= 0x10_0000_0000_0000 * 2048) by (nonlinear_arith)
        requires
            significand >= 0x10_0000_0000_0000,
            over >= 2048,
    ;
    lemma_div_by_multiple(significand * over, scale);
}

/// The whole part of a double of 2^52 up to 2^63 is its significand
/// multiplied by a power of two, and fits a signed 64-bit number.
proof fn lemma_whole_multiple(number: Double)
    requires
        MAGNITUDE_SCALE <= number.exponent() < EXPONENT_BEYOND,
    ensures
        number.whole_magnitude() == (FRACTION_SPAN + number.fraction()) * pow2(
            (number.exponent() - MAGNITUDE_SCALE) as nat,
        ),
        number.whole_magnitude() < SIGN_BIT,
{
    let exponent = number.exponent();
    let significand = FRACTION_SPAN + number.fraction();
    let scale = pow2(MAGNITUDE_SCALE as nat) as int;
    let over = pow2((exponent - MAGNITUDE_SCALE) as nat) as int;
    lemma_pow2_adds((exponent - MAGNITUDE_SCALE) as nat, MAGNITUDE_SCALE as nat);
    lemma_pow2_pos(MAGNITUDE_SCALE as nat);
    lemma_pow2_pos((exponent - MAGNITUDE_SCALE) as nat);
    lemma2_to64();
    if exponent < EXPONENT_BEYOND - 1 {
        lemma_pow2_strictly_increases((exponent - MAGNITUDE_SCALE) as nat, 10);
    }
    assert(significand * pow2(exponent) == (significand * over) * scale) by (nonlinear_arith)
        requires
            pow2(exponent) == over * scale,
    ;
    assert(0 <= significand * over < 0x20_0000_0000_0000 * 1024) by (nonlinear_arith)
        requires
            0 <= significand < 0x20_0000_0000_0000,
            0 < over <= 1024,
    ;
    lemma_div_by_multiple(significand * over, scale);
}

/// The whole part of a double of one up to 2^52 is its significand divided
/// by a power of two.
proof fn lemma_whole_quotient(number: Double)
    requires
        0 < number.exponent() < MAGNITUDE_SCALE,
    ensures
        number.whole_magnitude() == (FRACTION_SPAN + number.fraction()) / (pow2(
            (MAGNITUDE_SCALE - number.exponent()) as nat,
        ) as int),
{
    let exponent = number.exponent();
    let significand = FRACTION_SPAN + number.fraction();
    let power = pow2(exponent) as int;
    let unit = pow2((MAGNITUDE_SCALE - exponent) as nat) as int;
    lemma_pow2_adds(exponent, (MAGNITUDE_SCALE - exponent) as nat);
    lemma_pow2_pos(exponent);
    lemma_pow2_pos((MAGNITUDE_SCALE - exponent) as nat);
    lemma_div_multiples_vanish_quotient(power, significand, unit);
    assert(significand * power == power * significand) by (nonlinear_arith);
}

} // verus!
