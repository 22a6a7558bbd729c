use vstd::arithmetic::power2::{lemma2_to64, lemma2_to64_rest, lemma_pow2_strictly_increases, lemma_pow2_unfold, pow2};
use vstd::prelude::*;

verus! {

/// Two to the power 52: the weight of the exponent field in a binary64
/// pattern, and the hidden leading bit of a normal significand.
pub const HIDDEN_BIT: u64 = 0x10_0000_0000_0000;

/// The exponent field of a binary64 whose significand, hidden bit included,
/// counts units: the bias, 1023, plus the 52 fraction bits.
pub const UNIT_EXPONENT: u64 = 1075;

/// The pattern of negative zero: the sign bit alone.
pub const NEGATIVE_ZERO: u64 = 0x8000_0000_0000_0000;

/// A floating-point number, held as its IEEE 754 binary64 bit pattern.
///
/// The evaluator never computes with such numbers. It carries them from
/// bindings and literals to arithmetic requests and from the answers back into
/// the tree, and it reads a pattern in two places: to tell whether a divisor
/// is zero, and to write a small non-negative integer as a literal.
#[derive(Clone, Copy, Debug, PartialEq, Eq, Structural)]
pub struct Number {
    pub bits: u64,
}

impl Number {
    /// Whether the pattern is one of the two zeros, `+0.0` and `-0.0`: the
    /// patterns that compare equal to zero.
    pub open spec fn spec_is_zero(self) -> bool {
        self.bits == 0 || self.bits == NEGATIVE_ZERO
    }

    /// The exponent field together with the sign bit above it.
    pub open spec fn high_part(self) -> nat {
        (self.bits / HIDDEN_BIT) as nat
    }

    /// The 52 fraction bits.
    pub open spec fn fraction(self) -> nat {
        (self.bits % HIDDEN_BIT) as nat
    }

    /// Whether the pattern is the binary64 that equals the integer `n`.
    ///
    /// Zero is the pattern of all zeros. A positive integer is a normal
    /// number with the sign clear: its significand `2^52 + fraction`, scaled
    /// by two to the power `exponent - 1075`, is `n`. The scale is at most
    /// one here, so the equation is stated without division.
    pub open spec fn encodes(self, n: nat) -> bool {
        if n == 0 {
            self.bits == 0
        } else {
            &&& 1023 <= self.high_part() <= UNIT_EXPONENT
            &&& HIDDEN_BIT + self.fraction() == n * pow2((UNIT_EXPONENT - self.high_part()) as nat)
        }
    }

    /// The binary64 that equals `value`: the one pattern that encodes it.
    pub open spec fn spec_from_u32(value: u32) -> Number {
        choose|number: Number| number.encodes(value as nat)
    }

    #[verifier::when_used_as_spec(spec_is_zero)]
    pub fn is_zero(self) -> (zero: bool)
        ensures
            zero == self.spec_is_zero(),
    {
        self.bits == 0 || self.bits == NEGATIVE_ZERO
    }

    /// The number that equals `value`, as the conversion of an unsigned
    /// 32-bit integer to binary64 gives it. Every such integer is exactly
    /// representable, so nothing is rounded.
    #[verifier::when_used_as_spec(spec_from_u32)]
    pub fn from_u32(value: u32) -> (number: Number)
        ensures
            number.encodes(value as nat),
            number == Number::spec_from_u32(value),
    {
        if value == 0 {
            let zero = Number { bits: 0 };
            proof {
                encoding_is_unique(zero, Number::spec_from_u32(value), 0);
            }
            return zero;
        }
        let mut significand: u64 = value as u64;
        let mut exponent: u64 = UNIT_EXPONENT;
        proof {
            lemma2_to64();
            assert(pow2((UNIT_EXPONENT - exponent) as nat) == 1);
        }
        while significand < HIDDEN_BIT
            invariant
                value > 0,
                1023 <= exponent <= UNIT_EXPONENT,
                significand == value * pow2((UNIT_EXPONENT - exponent) as nat),
                significand < 2 * HIDDEN_BIT,
            decreases exponent,
        {
            proof {
                let shift = (UNIT_EXPONENT - exponent) as nat;
                lemma_pow2_unfold(shift + 1);
                assert(pow2(shift) <= significand) by (nonlinear_arith)
                    requires
                        significand == value * pow2(shift),
                        value > 0,
                ;
                if exponent == 1023 {
                    lemma2_to64_rest();
                }
                assert(value * (2 * pow2(shift)) == 2 * (value * pow2(shift))) by (nonlinear_arith);
            }
            significand = significand * 2;
            exponent = exponent - 1;
        }
        let bits: u64 = exponent * HIDDEN_BIT + (significand - HIDDEN_BIT);
        let number = Number { bits };
        proof {
            let fraction = (significand - HIDDEN_BIT) as int;
            assert(bits / HIDDEN_BIT == exponent && bits % HIDDEN_BIT == fraction) by (nonlinear_arith)
                requires
                    bits == exponent * HIDDEN_BIT + fraction,
                    0 <= fraction < HIDDEN_BIT,
                    HIDDEN_BIT == 0x10_0000_0000_0000,
            ;
            encoding_is_unique(number, Number::spec_from_u32(value), value as nat);
        }
        number
    }
}

/// At most one pattern encodes a given integer: `encodes` pins the number
/// that `from_u32` returns.
pub proof fn encoding_is_unique(a: Number, b: Number, n: nat)
    requires
        a.encodes(n),
        b.encodes(n),
    ensures
        a == b,
{
    if n > 0 {
        let shift_a = (UNIT_EXPONENT - a.high_part()) as nat;
        let shift_b = (UNIT_EXPONENT - b.high_part()) as nat;
        if shift_a < shift_b {
            lemma_larger_scale_overshoots(n, shift_a, shift_b, a.fraction());
        }
        if shift_b < shift_a {
            lemma_larger_scale_overshoots(n, shift_b, shift_a, b.fraction());
        }
        assert(a.bits == b.bits) by (nonlinear_arith)
            requires
                a.bits / HIDDEN_BIT == b.bits / HIDDEN_BIT,
                a.bits % HIDDEN_BIT == b.bits % HIDDEN_BIT,
                HIDDEN_BIT == 0x10_0000_0000_0000,
        ;
    }
}

/// Scaling an integer by a larger power of two at least doubles it: where one
/// scale gives a normal significand, a larger one overshoots the binade.
proof fn lemma_larger_scale_overshoots(n: nat, small: nat, large: nat, f: nat)
    requires
        small < large,
        HIDDEN_BIT + f == n * pow2(small),
    ensures
        n * pow2(large) >= 2 * HIDDEN_BIT,
{
    lemma_pow2_strictly_increases(small, (small + 1) as nat);
    lemma_pow2_unfold(small + 1);
    if small + 1 < large {
        lemma_pow2_strictly_increases((small + 1) as nat, large);
    }
    assert(n * pow2(large) >= 2 * (n * pow2(small))) by (nonlinear_arith)
        requires
            pow2(large) >= 2 * pow2(small),
    ;
}

} // verus!
