//! Which number a bit pattern denotes, and how doubles compare.
use crate::binary64::{lemma_magnitude_order, magnitude_number, Binary64};
use vstd::arithmetic::power2::{lemma_pow2_adds, pow2};
use vstd::prelude::*;

verus! {

/// Up to 2^53 a magnitude pattern denotes itself, in units of the smallest positive
/// double; from there on, one more in the exponent doubles the number.
pub proof fn law_magnitudes_double(m: nat)
    ensures
        m < 0x20_0000_0000_0000 ==> magnitude_number(m) == m,
        m >= 0x20_0000_0000_0000 ==> magnitude_number(m) == 2 * magnitude_number(
            (m - 0x10_0000_0000_0000) as nat,
        ),
{
    vstd::arithmetic::power2::lemma2_to64();
    let f: nat = 0x10_0000_0000_0000;
    if m >= 2 * f {
        let e = m / f;
        let r = m % f;
        let k = (m - f) as nat;
        assert(k / f == e - 1 && k % f == r);
        lemma_pow2_adds((e - 2) as nat, 1);
        assert((f + r) * pow2((e - 1) as nat) == 2 * ((f + r) * pow2((e - 2) as nat)))
            by (nonlinear_arith)
            requires
                pow2((e - 1) as nat) == pow2((e - 2) as nat) * 2,
        ;
    } else if m >= f {
        assert(m / f == 1);
        assert((f + m % f) * 1 == m);
    }
}

/// The top bit is the sign; patterns beyond that of infinity are no numbers.
pub proof fn law_sign_bit(bits: u64)
    requires
        bits < 0x8000_0000_0000_0000,
    ensures
        (Binary64 { bits }).number() == magnitude_number(bits as nat),
        (Binary64 { bits: (bits + 0x8000_0000_0000_0000) as u64 }).number() == -(
        magnitude_number(bits as nat) as int),
        (Binary64 { bits }).is_nan() <==> bits > 0x7ff0_0000_0000_0000,
        (Binary64 { bits: (bits + 0x8000_0000_0000_0000) as u64 }).is_nan() <==> bits
            > 0x7ff0_0000_0000_0000,
        (Binary64 { bits }).abs_spec().bits == bits,
        (Binary64 { bits: (bits + 0x8000_0000_0000_0000) as u64 }).abs_spec().bits == bits,
{
}

/// Doubles compare as their numbers do; what is no number compares with nothing.
pub proof fn law_comparison_follows_numbers(a: Binary64, b: Binary64)
    ensures
        a.is_nan() || b.is_nan() ==> !a.lt_spec(b) && !a.le_spec(b) && !b.lt_spec(a) && !b.le_spec(
            a,
        ),
        !a.is_nan() && !b.is_nan() ==> {
            &&& a.lt_spec(b) <==> a.number() < b.number()
            &&& a.le_spec(b) <==> a.number() <= b.number()
            &&& a.lt_spec(b) <==> !b.le_spec(a)
            &&& a.le_spec(b) && b.le_spec(a) <==> a.number() == b.number()
        },
        a.positive() <==> (Binary64 { bits: 0 }).lt_spec(a),
{
    law_magnitudes_double(0);
}

/// Comparison is transitive.
pub proof fn law_comparison_is_transitive(a: Binary64, b: Binary64, c: Binary64)
    ensures
        a.lt_spec(b) && b.lt_spec(c) ==> a.lt_spec(c),
        a.le_spec(b) && b.le_spec(c) ==> a.le_spec(c),
        a.lt_spec(b) && b.le_spec(c) ==> a.lt_spec(c),
{
}

/// Two numbers are equal only for equal patterns, but for the two zeros.
pub proof fn law_numbers_name_patterns(a: Binary64, b: Binary64)
    requires
        a.number() == b.number(),
    ensures
        a == b || (a.number() == 0 && a.abs_spec().bits == 0 && b.abs_spec().bits == 0),
{
    lemma_magnitude_order(a.magnitude(), b.magnitude());
    lemma_magnitude_order(b.magnitude(), a.magnitude());
    lemma_magnitude_order(0, a.magnitude());
    lemma_magnitude_order(0, b.magnitude());
    law_magnitudes_double(0);
}

/// The absolute value has the number's distance from zero, and is positive for every
/// number but zero.
pub proof fn law_absolute_value(a: Binary64)
    ensures
        a.abs_spec().number() == (if a.number() < 0 {
            -a.number()
        } else {
            a.number()
        }),
        a.abs_spec().is_nan() == a.is_nan(),
        a.abs_spec().positive() <==> !a.is_nan() && a.number() != 0,
{
}

} // verus!
