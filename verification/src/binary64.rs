//! Double-precision numbers as their IEEE 754 bit patterns.
//!
//! Prices and quantities enter the library as bit patterns. The library stores
//! and compares them; it never does arithmetic on them. Comparison is stated
//! over the number that a pattern denotes.
use vstd::arithmetic::power2::{lemma_pow2_adds, lemma_pow2_pos, lemma_pow2_strictly_increases, pow2};
use vstd::prelude::*;

verus! {

/// Weight of the lowest exponent bit: the number of fraction patterns.
pub const FRACTIONS: u64 = 0x0010_0000_0000_0000;

/// Weight of the sign bit: the number of magnitude patterns.
pub const MAGNITUDES: u64 = 0x8000_0000_0000_0000;

/// Magnitude pattern of infinity; every larger one is not a number.
pub const INFINITY: u64 = 0x7ff0_0000_0000_0000;

/// The number that a magnitude pattern denotes, in units of the smallest
/// positive double. The pattern of infinity is given the number that follows
/// the largest finite one.
pub open spec fn magnitude_number(magnitude: nat) -> nat {
    let exponent = magnitude / (FRACTIONS as nat);
    let fraction = magnitude % (FRACTIONS as nat);
    if exponent == 0 {
        fraction
    } else {
        (FRACTIONS as nat + fraction) * pow2((exponent - 1) as nat)
    }
}

/// A double, held as its bit pattern.
#[derive(Clone, Copy, Debug, PartialEq, Eq, Structural)]
pub struct Binary64 {
    pub bits: u64,
}

impl Binary64 {
    pub open spec fn magnitude(self) -> nat {
        (self.bits % MAGNITUDES) as nat
    }

    pub open spec fn negative(self) -> bool {
        self.bits >= MAGNITUDES
    }

    pub open spec fn is_nan(self) -> bool {
        self.magnitude() > INFINITY
    }

    /// The number denoted, in units of the smallest positive double.
    pub open spec fn number(self) -> int {
        if self.negative() {
            -(magnitude_number(self.magnitude()) as int)
        } else {
            magnitude_number(self.magnitude()) as int
        }
    }

    /// `a < b` on doubles: false as soon as one side is not a number.
    pub open spec fn lt_spec(self, other: Binary64) -> bool {
        !self.is_nan() && !other.is_nan() && self.number() < other.number()
    }

    /// `a <= b` on doubles: false as soon as one side is not a number.
    pub open spec fn le_spec(self, other: Binary64) -> bool {
        !self.is_nan() && !other.is_nan() && self.number() <= other.number()
    }

    /// `x > 0`.
    pub open spec fn positive(self) -> bool {
        !self.is_nan() && self.number() > 0
    }

    /// `|x|`: the same pattern with the sign bit cleared.
    pub open spec fn abs_spec(self) -> Binary64 {
        Binary64 { bits: (self.bits % MAGNITUDES) as u64 }
    }

    pub fn from_bits(bits: u64) -> (r: Binary64)
        ensures
            r.bits == bits,
    {
        Binary64 { bits }
    }

    pub fn to_bits(&self) -> (r: u64)
        ensures
            r == self.bits,
    {
        self.bits
    }

    /// Positive zero.
    pub fn zero() -> (r: Binary64)
        ensures
            r.bits == 0,
            r.number() == 0,
            !r.is_nan(),
    {
        Binary64 { bits: 0 }
    }

    pub fn abs(&self) -> (r: Binary64)
        ensures
            r == self.abs_spec(),
    {
        Binary64 { bits: self.bits % MAGNITUDES }
    }

    pub fn less_than(&self, other: &Binary64) -> (r: bool)
        ensures
            r == self.lt_spec(*other),
    {
        let a: u64 = self.bits % MAGNITUDES;
        let b: u64 = other.bits % MAGNITUDES;
        proof {
            lemma_magnitude_order(a as nat, b as nat);
            lemma_magnitude_order(b as nat, a as nat);
            lemma_magnitude_order(0, a as nat);
            lemma_magnitude_order(0, b as nat);
        }
        if a > INFINITY || b > INFINITY {
            return false;
        }
        let a_negative: bool = self.bits >= MAGNITUDES;
        let b_negative: bool = other.bits >= MAGNITUDES;
        if a_negative {
            if b_negative {
                b < a
            } else {
                a > 0 || b > 0
            }
        } else {
            !b_negative && a < b
        }
    }

    pub fn at_most(&self, other: &Binary64) -> (r: bool)
        ensures
            r == self.le_spec(*other),
    {
        let a: u64 = self.bits % MAGNITUDES;
        let b: u64 = other.bits % MAGNITUDES;
        a <= INFINITY && b <= INFINITY && !other.less_than(self)
    }

    pub fn is_positive(&self) -> (r: bool)
        ensures
            r == self.positive(),
    {
        Binary64::zero().less_than(self)
    }
}

/// Magnitude patterns are ordered as the numbers that they denote.
pub proof fn lemma_magnitude_order(a: nat, b: nat)
    ensures
        a < b ==> magnitude_number(a) < magnitude_number(b),
{
    if a < b {
        let f: nat = FRACTIONS as nat;
        let ea: nat = a / f;
        let eb: nat = b / f;
        let fa: nat = a % f;
        let fb: nat = b % f;
        assert(a == ea * f + fa && b == eb * f + fb) by (nonlinear_arith)
            requires
                f > 0,
                ea == a / f,
                eb == b / f,
                fa == a % f,
                fb == b % f,
        ;
        assert(ea <= eb) by (nonlinear_arith)
            requires
                a == ea * f + fa,
                b == eb * f + fb,
                a < b,
                fa < f,
                fb < f,
        ;
        if ea == eb {
            assert(fa < fb);
            if ea > 0 {
                let p: nat = pow2((ea - 1) as nat);
                lemma_pow2_pos((ea - 1) as nat);
                assert((f + fa) * p < (f + fb) * p) by (nonlinear_arith)
                    requires
                        fa < fb,
                        p > 0,
                ;
            }
        } else {
            let q: nat = pow2((eb - 1) as nat);
            lemma_pow2_pos((eb - 1) as nat);
            assert((f + fb) * q >= f * q) by (nonlinear_arith);
            if ea == 0 {
                assert(f * q >= f) by (nonlinear_arith)
                    requires
                        q > 0,
                ;
            } else {
                let p: nat = pow2((ea - 1) as nat);
                lemma_pow2_pos((ea - 1) as nat);
                lemma_pow2_adds((ea - 1) as nat, 1);
                vstd::arithmetic::power2::lemma2_to64();
                if ea < eb - 1 {
                    lemma_pow2_strictly_increases(ea, (eb - 1) as nat);
                }
                assert(p * 2 == pow2(ea));
                assert(p * 2 <= q);
                assert((f + fa) * p < f * q) by (nonlinear_arith)
                    requires
                        fa < f,
                        p > 0,
                        p * 2 <= q,
                ;
            }
        }
    }
}

} // verus!
