//! Single-precision numbers held as their IEEE 754 bit patterns.
//!
//! A `Scalar` carries the 32 bits of a binary32 number.  Arithmetic on such
//! numbers is done by the caller in hardware; this module offers what can be
//! decided exactly on the pattern alone: classification, comparison, negation
//! and absolute value.  Every comparison is specified against `value`, the
//! number a pattern denotes counted in units of 2^-149, so that contracts
//! elsewhere in the crate speak of numbers and not of bits.

use vstd::prelude::*;
use vstd::arithmetic::power2::*;

verus! {

/// Bit 31: the sign.
pub const SIGN_BIT: u32 = 0x8000_0000;

/// Bits 0 to 30: biased exponent and fraction.
pub const MAGNITUDE_MASK: u32 = 0x7fff_ffff;

/// The pattern of positive infinity; every larger magnitude is a NaN.
pub const INFINITY_BITS: u32 = 0x7f80_0000;

/// Two to the 23rd: the weight of the implicit leading bit of a normal number.
pub const HIDDEN_BIT: u32 = 0x0080_0000;

/// The pattern of 1.0.
pub const ONE_BITS: u32 = 0x3f80_0000;

/// The pattern of 0.25.
pub const QUARTER_BITS: u32 = 0x3e80_0000;

/// The pattern of 2^-23, the gap between 1.0 and the next larger number.
pub const EPSILON_BITS: u32 = 0x3400_0000;

/// A binary32 number, stored as its bit pattern.
#[derive(Clone, Copy, Debug, PartialEq, Eq, Structural)]
pub struct Scalar {
    pub bits: u32,
}

impl Scalar {
    /// Whether the sign bit is set.
    pub open spec fn sign_bit(self) -> bool {
        self.bits >= SIGN_BIT
    }

    /// The pattern with the sign bit cleared.
    pub open spec fn magnitude(self) -> nat {
        if self.bits >= SIGN_BIT {
            (self.bits - SIGN_BIT) as nat
        } else {
            self.bits as nat
        }
    }

    /// The biased exponent, 0 to 255.
    pub open spec fn exponent(self) -> nat {
        self.magnitude() / (HIDDEN_BIT as nat)
    }

    /// The 23 fraction bits.
    pub open spec fn fraction(self) -> nat {
        self.magnitude() % (HIDDEN_BIT as nat)
    }

    /// Whether the pattern is a NaN: exponent 255 with a non-zero fraction.
    pub open spec fn is_nan_spec(self) -> bool {
        self.magnitude() > INFINITY_BITS
    }

    /// The absolute value in units of 2^-149.  Subnormal numbers count their
    /// fraction; normal numbers add the implicit bit and scale by the
    /// exponent.  An infinity lands above every finite number.
    pub open spec fn size(self) -> nat {
        if self.exponent() == 0 {
            self.fraction()
        } else {
            (HIDDEN_BIT as nat + self.fraction()) * pow2((self.exponent() - 1) as nat)
        }
    }

    /// The number in units of 2^-149.  Meaningful where the pattern is not a
    /// NaN; both zeros have value 0.
    pub open spec fn value(self) -> int {
        if self.sign_bit() {
            -(self.size() as int)
        } else {
            self.size() as int
        }
    }

    /// IEEE `<`: false when either side is a NaN.
    pub open spec fn lt_spec(self, other: Scalar) -> bool {
        !self.is_nan_spec() && !other.is_nan_spec() && self.value() < other.value()
    }

    /// IEEE `<=`: false when either side is a NaN.
    pub open spec fn le_spec(self, other: Scalar) -> bool {
        !self.is_nan_spec() && !other.is_nan_spec() && self.value() <= other.value()
    }

    /// The number is strictly above zero.
    pub open spec fn is_positive_spec(self) -> bool {
        !self.is_nan_spec() && self.value() > 0
    }

    /// The number is strictly below zero.
    pub open spec fn is_negative_spec(self) -> bool {
        !self.is_nan_spec() && self.value() < 0
    }

    /// The pattern with the sign bit flipped.
    pub open spec fn neg_spec(self) -> Scalar {
        Scalar {
            bits: if self.bits >= SIGN_BIT {
                (self.bits - SIGN_BIT) as u32
            } else {
                (self.bits + SIGN_BIT) as u32
            },
        }
    }

    /// The pattern with the sign bit cleared.
    pub open spec fn abs_spec(self) -> Scalar {
        Scalar { bits: self.magnitude() as u32 }
    }

    /// A larger magnitude pattern denotes a larger absolute value.
    pub proof fn lemma_size_increases(self, other: Scalar)
        requires
            self.magnitude() < other.magnitude(),
        ensures
            self.size() < other.size(),
    {
        let h: nat = HIDDEN_BIT as nat;
        let (ea, fa) = (self.exponent(), self.fraction());
        let (eb, fb) = (other.exponent(), other.fraction());
        assert(self.magnitude() == h * ea + fa && fa < h) by {
            vstd::arithmetic::div_mod::lemma_fundamental_div_mod(self.magnitude() as int, h as int);
        }
        assert(other.magnitude() == h * eb + fb && fb < h) by {
            vstd::arithmetic::div_mod::lemma_fundamental_div_mod(other.magnitude() as int, h as int);
        }
        assert(ea <= eb) by (nonlinear_arith)
            requires
                h * ea + fa < h * eb + fb,
                fa < h,
                fb < h,
                h > 0,
        ;
        if ea == eb {
            assert(fa < fb);
            if ea > 0 {
                let p: nat = pow2((ea - 1) as nat);
                lemma_pow2_pos((ea - 1) as nat);
                assert((h + fa) * p < (h + fb) * p) by (nonlinear_arith)
                    requires
                        fa < fb,
                        p > 0,
                ;
            }
        } else {
            let q: nat = pow2((eb - 1) as nat);
            lemma_pow2_pos((eb - 1) as nat);
            assert(h <= (h + fb) * q) by (nonlinear_arith)
                requires
                    q >= 1,
                    h > 0,
            ;
            if ea > 0 {
                let p: nat = pow2((ea - 1) as nat);
                lemma_pow2_pos((ea - 1) as nat);
                lemma_pow2_unfold(ea);
                assert(pow2(ea) == 2 * p);
                if ea < (eb - 1) as nat {
                    lemma_pow2_strictly_increases(ea, (eb - 1) as nat);
                }
                assert(2 * p <= q);
                assert((h + fa) * p < (h + fb) * q) by (nonlinear_arith)
                    requires
                        fa < h,
                        2 * p <= q,
                        p > 0,
                        h > 0,
                ;
            }
        }
    }

    /// Magnitude patterns and absolute values are ordered alike.
    pub proof fn lemma_size_order(self, other: Scalar)
        ensures
            self.magnitude() < other.magnitude() <==> self.size() < other.size(),
            self.magnitude() == other.magnitude() <==> self.size() == other.size(),
    {
        if self.magnitude() < other.magnitude() {
            self.lemma_size_increases(other);
        } else if other.magnitude() < self.magnitude() {
            other.lemma_size_increases(self);
        }
    }

    /// Only the two zeros have absolute value 0.
    pub proof fn lemma_size_zero(self)
        ensures
            self.size() == 0 <==> self.magnitude() == 0,
    {
        let zero = Scalar { bits: 0 };
        assert(zero.size() == 0);
        self.lemma_size_order(zero);
    }

    /// Wraps a bit pattern.
    pub fn from_bits(bits: u32) -> (r: Scalar)
        ensures
            r.bits == bits,
    {
        Scalar { bits }
    }

    /// The bit pattern.
    pub fn to_bits(self) -> (r: u32)
        ensures
            r == self.bits,
    {
        self.bits
    }

    /// Positive zero.
    pub fn zero() -> (r: Scalar)
        ensures
            r.bits == 0,
            r.value() == 0,
            !r.is_nan_spec(),
    {
        Scalar { bits: 0 }
    }

    /// The number 1.0, which is 2^149 units of 2^-149.
    pub fn one() -> (r: Scalar)
        ensures
            r.bits == ONE_BITS,
            !r.is_nan_spec(),
            !r.sign_bit(),
            r.value() == pow2(149),
    {
        let r = Scalar { bits: ONE_BITS };
        proof {
            assert(r.exponent() == 127 && r.fraction() == 0);
            lemma2_to64();
            lemma_pow2_adds(23, 126);
        }
        r
    }

    /// The magnitude pattern, as the machine computes it.
    fn magnitude_bits(self) -> (m: u32)
        ensures
            m == self.magnitude(),
            m <= MAGNITUDE_MASK,
    {
        let b: u32 = self.bits;
        assert((b & 0x7fff_ffffu32) == (if b >= 0x8000_0000u32 {
            (b - 0x8000_0000u32) as u32
        } else {
            b
        })) by (bit_vector);
        b & MAGNITUDE_MASK
    }

    /// Whether the sign bit is set.
    pub fn sign(self) -> (r: bool)
        ensures
            r == self.sign_bit(),
    {
        self.bits >= SIGN_BIT
    }

    /// The biased exponent.
    pub fn biased_exponent(self) -> (e: u32)
        ensures
            e == self.exponent(),
            e <= 255,
    {
        let m: u32 = self.magnitude_bits();
        assert(m <= 0x7fff_ffffu32 ==> (m >> 23) == m / 0x0080_0000u32 && (m >> 23) <= 255u32)
            by (bit_vector);
        m >> 23
    }

    /// The fraction bits.
    pub fn fraction_bits(self) -> (f: u32)
        ensures
            f == self.fraction(),
            f < HIDDEN_BIT,
    {
        let m: u32 = self.magnitude_bits();
        assert((m & 0x007f_ffffu32) == m % 0x0080_0000u32) by (bit_vector);
        m & 0x007f_ffff
    }

    /// Whether the number is a NaN.
    pub fn is_nan(self) -> (r: bool)
        ensures
            r == self.is_nan_spec(),
    {
        self.magnitude_bits() > INFINITY_BITS
    }

    /// IEEE `self < other`.
    pub fn lt(self, other: Scalar) -> (r: bool)
        ensures
            r == self.lt_spec(other),
    {
        let a: u32 = self.magnitude_bits();
        let b: u32 = other.magnitude_bits();
        if a > INFINITY_BITS || b > INFINITY_BITS {
            return false;
        }
        proof {
            self.lemma_size_order(other);
            self.lemma_size_zero();
            other.lemma_size_zero();
        }
        if self.bits >= SIGN_BIT {
            if other.bits >= SIGN_BIT {
                b < a
            } else {
                a != 0 || b != 0
            }
        } else {
            if other.bits >= SIGN_BIT {
                false
            } else {
                a < b
            }
        }
    }

    /// IEEE `self <= other`.
    pub fn le(self, other: Scalar) -> (r: bool)
        ensures
            r == self.le_spec(other),
    {
        let a: u32 = self.magnitude_bits();
        let b: u32 = other.magnitude_bits();
        if a > INFINITY_BITS || b > INFINITY_BITS {
            return false;
        }
        proof {
            self.lemma_size_order(other);
            self.lemma_size_zero();
            other.lemma_size_zero();
        }
        if self.bits >= SIGN_BIT {
            if other.bits >= SIGN_BIT {
                b <= a
            } else {
                true
            }
        } else {
            if other.bits >= SIGN_BIT {
                a == 0 && b == 0
            } else {
                a <= b
            }
        }
    }

    /// IEEE `self > 0.0`.
    pub fn is_positive(self) -> (r: bool)
        ensures
            r == self.is_positive_spec(),
    {
        let a: u32 = self.magnitude_bits();
        proof {
            self.lemma_size_zero();
        }
        self.bits < SIGN_BIT && a != 0 && a <= INFINITY_BITS
    }

    /// IEEE `self < 0.0`.
    pub fn is_negative(self) -> (r: bool)
        ensures
            r == self.is_negative_spec(),
    {
        let a: u32 = self.magnitude_bits();
        proof {
            self.lemma_size_zero();
        }
        self.bits >= SIGN_BIT && a != 0 && a <= INFINITY_BITS
    }

    /// The number with its sign flipped.  Exact for every pattern: a NaN stays
    /// a NaN, a zero becomes the other zero.
    pub fn neg(self) -> (r: Scalar)
        ensures
            r == self.neg_spec(),
            r.magnitude() == self.magnitude(),
            r.sign_bit() == !self.sign_bit(),
            r.is_nan_spec() == self.is_nan_spec(),
            r.value() == -self.value(),
    {
        let b: u32 = self.bits;
        assert((b ^ 0x8000_0000u32) == (if b >= 0x8000_0000u32 {
            (b - 0x8000_0000u32) as u32
        } else {
            (b + 0x8000_0000u32) as u32
        })) by (bit_vector);
        Scalar { bits: b ^ SIGN_BIT }
    }

    /// The absolute value.  Exact for every pattern.
    pub fn abs(self) -> (r: Scalar)
        ensures
            r == self.abs_spec(),
            r.magnitude() == self.magnitude(),
            !r.sign_bit(),
            r.is_nan_spec() == self.is_nan_spec(),
            r.value() == self.size(),
    {
        Scalar { bits: self.magnitude_bits() }
    }

    /// The number itself where it is above zero, and positive zero otherwise
    /// (for a NaN too).
    pub fn positive_part(self) -> (r: Scalar)
        ensures
            r == (if self.is_positive_spec() {
                self
            } else {
                Scalar { bits: 0 }
            }),
            !r.is_nan_spec(),
            r.value() >= 0,
    {
        if self.is_positive() {
            self
        } else {
            Scalar { bits: 0 }
        }
    }
}

} // verus!
