//! The binary64 format: how a bit pattern is read as a number.

use crate::binary64::arithmetic::{larger};
use crate::binary64::rounding::{below, lemma_pow2_ordered, lemma_pow2_values};
use vstd::arithmetic::div_mod::*;
use vstd::arithmetic::mul::*;
use vstd::arithmetic::power2::*;
use vstd::prelude::*;

verus! {

/// The sign bit of a pattern.
pub const SIGN_BIT: u64 = 0x8000_0000_0000_0000;

/// The pattern of positive infinity. Larger magnitudes are not numbers.
pub const INFINITY_BITS: u64 = 0x7FF0_0000_0000_0000;

/// The pattern that the operations give where their result is not a number.
pub const NAN_BITS: u64 = 0x7FF8_0000_0000_0000;

/// Two to the power 52: the leading bit of the significand of a normal number.
pub const HIDDEN_BIT: u64 = 0x0010_0000_0000_0000;

/// The pattern of the number one.
pub const ONE_BITS: u64 = 0x3FF0_0000_0000_0000;

/// The least exponent of the last place of a number.
pub const MIN_EXPONENT: i64 = -1074;

/// A number of the binary64 format, by its bit pattern.
#[derive(Clone, Copy, Debug, PartialEq, Eq, Structural)]
pub struct Binary64 {
    pub bits: u64,
}

impl Binary64 {
    /// The pattern without its sign bit.
    pub open spec fn magnitude(self) -> u64 {
        (self.bits % SIGN_BIT) as u64
    }

    /// Whether the sign bit is set.
    pub open spec fn is_negative(self) -> bool {
        self.bits >= SIGN_BIT
    }

    /// Whether the pattern stands for no number.
    pub open spec fn is_nan(self) -> bool {
        self.magnitude() > INFINITY_BITS
    }

    /// Whether the pattern stands for an infinity.
    pub open spec fn is_infinite(self) -> bool {
        self.magnitude() == INFINITY_BITS
    }

    /// Whether the pattern stands for zero.
    pub open spec fn is_zero(self) -> bool {
        self.magnitude() == 0
    }

    /// The significand of a finite number: its magnitude is `significand * 2^exponent`.
    pub open spec fn significand(self) -> nat {
        if self.magnitude() < HIDDEN_BIT {
            self.magnitude() as nat
        } else {
            (HIDDEN_BIT + self.magnitude() % HIDDEN_BIT) as nat
        }
    }

    /// The exponent of the last place of a finite number.
    pub open spec fn exponent(self) -> int {
        if self.magnitude() < HIDDEN_BIT {
            MIN_EXPONENT as int
        } else {
            self.magnitude() / HIDDEN_BIT - 1075
        }
    }
}

/// The pattern with the given sign and magnitude.
pub open spec fn signed(negative: bool, magnitude: u64) -> Binary64 {
    Binary64 {
        bits: if negative {
            (magnitude + SIGN_BIT) as u64
        } else {
            magnitude
        },
    }
}

/// The number with the other sign.
pub open spec fn negated(a: Binary64) -> Binary64 {
    signed(!a.is_negative(), a.magnitude())
}

/// The pattern of the positive number `m * 2^e`, for `m` up to `2^53` and `e` from `-1074`.
/// Patterns of positive numbers are ordered as the numbers are, so the pattern is
/// `(e + 1074) * 2^52 + m`; what lies beyond the largest number is infinity.
pub open spec fn pattern(m: nat, e: int) -> u64 {
    let p = (e + 1074) * (HIDDEN_BIT as int) + m;
    if p >= INFINITY_BITS {
        INFINITY_BITS
    } else {
        p as u64
    }
}

/// Where a pattern lies in the order of the numbers: zero for both zeros, the magnitude for
/// what is positive, its negative for what is negative.
pub open spec fn rank(a: Binary64) -> int {
    if a.is_negative() {
        -(a.magnitude() as int)
    } else {
        a.magnitude() as int
    }
}

/// Patterns grow with the significand and with the exponent.
pub proof fn lemma_pattern_ordered(m1: nat, e1: int, m2: nat, e2: int)
    requires
        MIN_EXPONENT <= e1 <= e2,
        m1 <= pow2(53),
        e1 == e2 ==> m1 <= m2,
        e1 < e2 ==> m2 >= pow2(52),
    ensures
        pattern(m1, e1) <= pattern(m2, e2),
{
    lemma_pow2_values();
    if e1 < e2 {
        assert((e1 + 1074) * (HIDDEN_BIT as int) + 2 * HIDDEN_BIT <= (e2 + 1074) * (
        HIDDEN_BIT as int) + HIDDEN_BIT) by (nonlinear_arith)
            requires
                e1 + 1 <= e2,
        ;
    }
    assert((e1 + 1074) * (HIDDEN_BIT as int) >= 0) by (nonlinear_arith)
        requires
            e1 + 1074 >= 0,
    ;
}

/// A pattern is read back as the significand and the exponent it was made of, where the
/// significand has all its 53 digits and the number is finite.
pub proof fn lemma_pattern_is_read_back(m: nat, e: int)
    requires
        pow2(52) <= m < pow2(53),
        MIN_EXPONENT <= e <= 971,
    ensures
        pattern(m, e) < INFINITY_BITS,
        (Binary64 { bits: pattern(m, e) }).significand() == m,
        (Binary64 { bits: pattern(m, e) }).exponent() == e,
        !(Binary64 { bits: pattern(m, e) }).is_negative(),
        (Binary64 { bits: pattern(m, e) }).magnitude() == pattern(m, e),
{
    lemma_pow2_values();
    let biased = e + 1075;
    let rest = (m - HIDDEN_BIT) as nat;
    assert((e + 1074) * (HIDDEN_BIT as int) + m == biased * (HIDDEN_BIT as int) + rest)
        by (nonlinear_arith)
        requires
            biased == e + 1075,
            rest == m - HIDDEN_BIT,
    ;
    assert(biased * (HIDDEN_BIT as int) <= 2046 * (HIDDEN_BIT as int)) by (nonlinear_arith)
        requires
            1 <= biased <= 2046,
    ;
    assert(biased * (HIDDEN_BIT as int) >= HIDDEN_BIT as int) by (nonlinear_arith)
        requires
            1 <= biased <= 2046,
    ;
    let p = pattern(m, e);
    lemma_fundamental_div_mod_converse(p as int, HIDDEN_BIT as int, biased, rest as int);
}

/// Of two finite magnitudes the larger stands for the larger number.
pub proof fn lemma_magnitudes_ordered(a: Binary64, b: Binary64)
    requires
        a.magnitude() <= b.magnitude() < INFINITY_BITS,
    ensures
        a.exponent() <= b.exponent(),
        below(a.significand(), a.exponent(), b.significand(), b.exponent()),
        a.significand() < pow2(53),
        b.significand() < pow2(53),
{
    lemma_pow2_values();
    let ma = a.magnitude();
    let mb = b.magnitude();
    lemma_fundamental_div_mod(ma as int, HIDDEN_BIT as int);
    lemma_fundamental_div_mod(mb as int, HIDDEN_BIT as int);
    lemma_div_is_ordered(ma as int, mb as int, HIDDEN_BIT as int);
    if a.exponent() < b.exponent() {
        let gap = (b.exponent() - a.exponent()) as nat;
        lemma_pow2_ordered(1, gap);
        lemma2_to64();
        assert(b.significand() * pow2(gap) >= pow2(53)) by (nonlinear_arith)
            requires
                b.significand() >= pow2(52),
                pow2(gap) >= 2,
                pow2(53) == 2 * pow2(52),
        ;
    } else {
        assert(a.exponent() == b.exponent());
        lemma2_to64();
        assert(b.significand() * pow2(0) == b.significand()) by (nonlinear_arith)
            requires
                pow2(0) == 1,
        ;
        if ma >= HIDDEN_BIT {
            assert(ma / HIDDEN_BIT == mb / HIDDEN_BIT);
        }
    }
}

/// The magnitude of a finite number is the pattern of its significand and exponent.
pub proof fn lemma_magnitude_is_pattern(a: Binary64)
    requires
        a.magnitude() < INFINITY_BITS,
    ensures
        pattern(a.significand(), a.exponent()) == a.magnitude(),
{
    let m = a.magnitude();
    if m >= HIDDEN_BIT {
        lemma_fundamental_div_mod(m as int, HIDDEN_BIT as int);
        lemma_mul_is_commutative(HIDDEN_BIT as int, (m / HIDDEN_BIT) as int);
        let biased = (m / HIDDEN_BIT) as int;
        assert((biased - 1075 + 1074) * (HIDDEN_BIT as int) == biased * (HIDDEN_BIT as int)
            - HIDDEN_BIT) by (nonlinear_arith);
    } else {
        assert((MIN_EXPONENT + 1074) * (HIDDEN_BIT as int) == 0);
    }
}

impl Binary64 {
    /// The number with the given pattern.
    pub fn from_bits(bits: u64) -> (r: Binary64)
        ensures
            r.bits == bits,
    {
        Binary64 { bits }
    }

    /// The number one.
    pub fn one() -> (r: Binary64)
        ensures
            r.bits == ONE_BITS,
    {
        Binary64 { bits: ONE_BITS }
    }

    /// Splits the pattern into sign and magnitude.
    pub fn sign_and_magnitude(&self) -> (r: (bool, u64))
        ensures
            r.0 == self.is_negative(),
            r.1 == self.magnitude(),
            r.1 < SIGN_BIT,
            *self == signed(r.0, r.1),
    {
        if self.bits >= SIGN_BIT {
            (true, self.bits - SIGN_BIT)
        } else {
            (false, self.bits)
        }
    }

    /// Splits a magnitude into significand and exponent.
    pub(crate) fn parts(magnitude: u64) -> (r: (u64, i64))
        requires
            magnitude < INFINITY_BITS,
        ensures
            r.0 == (Binary64 { bits: magnitude }).significand(),
            r.1 == (Binary64 { bits: magnitude }).exponent(),
            r.0 < 0x20_0000_0000_0000,
            MIN_EXPONENT <= r.1 <= 971,
            r.1 > MIN_EXPONENT ==> r.0 >= HIDDEN_BIT,
            magnitude > 0 ==> r.0 > 0,
    {
        if magnitude < HIDDEN_BIT {
            (magnitude, MIN_EXPONENT)
        } else {
            (HIDDEN_BIT + magnitude % HIDDEN_BIT, (magnitude / HIDDEN_BIT) as i64 - 1075)
        }
    }

    pub(crate) fn with_sign(negative: bool, magnitude: u64) -> (r: Binary64)
        requires
            magnitude < SIGN_BIT,
        ensures
            r == signed(negative, magnitude),
    {
        if negative {
            Binary64 { bits: magnitude + SIGN_BIT }
        } else {
            Binary64 { bits: magnitude }
        }
    }

    /// The number with the other sign.
    pub fn negate(&self) -> (r: Binary64)
        ensures
            r == negated(*self),
    {
        let (negative, magnitude) = self.sign_and_magnitude();
        Binary64::with_sign(!negative, magnitude)
    }
}

} // verus!
