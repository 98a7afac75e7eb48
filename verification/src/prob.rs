//! Exact probabilities as fractions.
//!
//! Evidence probabilities are kept in linear space as exact fractions of
//! machine integers.  Combining two independent observations multiplies the
//! fractions exactly; on the log scale this is precisely the summation of the
//! two log-probabilities, so no rounding is introduced by combination.  Only
//! the conversion to a floating-point log-probability for the downstream
//! caller (which lives outside this crate) rounds.

use vstd::prelude::*;
use vstd::arithmetic::mul::lemma_mul_upper_bound;

verus! {

/// An exact probability, stored as the fraction `num / den`.
#[derive(Clone, Copy, Debug, PartialEq, Eq, Structural)]
pub struct FracProb {
    pub num: u64,
    pub den: u64,
}

impl FracProb {
    /// A well-formed probability: a genuine fraction in [0, 1].
    pub open spec fn wf(self) -> bool {
        1 <= self.den && self.num <= self.den
    }

    /// Small enough that two such fractions combine without overflow.
    pub open spec fn small(self) -> bool {
        self.wf() && self.den < 0x1_0000_0000
    }

    /// The certain probability, 1.
    pub open spec fn spec_one() -> FracProb {
        FracProb { num: 1, den: 1 }
    }

    /// The impossible probability, 0.
    pub open spec fn spec_zero() -> FracProb {
        FracProb { num: 0, den: 1 }
    }

    pub fn one() -> (r: FracProb)
        ensures
            r == Self::spec_one(),
    {
        FracProb { num: 1, den: 1 }
    }

    pub fn zero() -> (r: FracProb)
        ensures
            r == Self::spec_zero(),
    {
        FracProb { num: 0, den: 1 }
    }

    /// The two fractions denote the same probability.
    pub open spec fn spec_eq_value(self, other: FracProb) -> bool {
        self.num * other.den == other.num * self.den
    }

    /// This fraction denotes a strictly smaller probability than `other`.
    pub open spec fn spec_lt_value(self, other: FracProb) -> bool {
        self.num * other.den < other.num * self.den
    }

    /// This fraction denotes a probability no larger than `other`.
    pub open spec fn spec_le_value(self, other: FracProb) -> bool {
        self.num * other.den <= other.num * self.den
    }

    /// Compare two probabilities for equal value (cross-multiplication).
    pub fn eq_value(&self, other: &FracProb) -> (r: bool)
        ensures
            r == self.spec_eq_value(*other),
    {
        proof {
            lemma_mul_upper_bound(self.num as int, u64::MAX as int, other.den as int, u64::MAX as int);
            lemma_mul_upper_bound(other.num as int, u64::MAX as int, self.den as int, u64::MAX as int);
        }
        (self.num as u128) * (other.den as u128) == (other.num as u128) * (self.den as u128)
    }

    /// Decide whether this probability is strictly greater than `other`.
    pub fn gt_value(&self, other: &FracProb) -> (r: bool)
        ensures
            r == other.spec_lt_value(*self),
    {
        proof {
            lemma_mul_upper_bound(self.num as int, u64::MAX as int, other.den as int, u64::MAX as int);
            lemma_mul_upper_bound(other.num as int, u64::MAX as int, self.den as int, u64::MAX as int);
        }
        (self.num as u128) * (other.den as u128) > (other.num as u128) * (self.den as u128)
    }
}

/// The combination of two independent observations of the same methylation
/// state: the exact product of the two fractions, i.e. the sum of the two
/// log-probabilities.
pub open spec fn spec_combine(a: FracProb, b: FracProb) -> FracProb {
    FracProb { num: (a.num * b.num) as u64, den: (a.den * b.den) as u64 }
}

/// Combine two independent per-mate probabilities.
pub fn combine(a: FracProb, b: FracProb) -> (r: FracProb)
    requires
        a.small(),
        b.small(),
    ensures
        r == spec_combine(a, b),
        r.wf(),
        r.num == a.num * b.num,
        r.den == a.den * b.den,
{
    proof {
        lemma_mul_upper_bound(a.num as int, a.den as int, b.num as int, b.den as int);
        lemma_mul_upper_bound(a.den as int, 0xffff_ffff, b.den as int, 0xffff_ffff);
        assert(1 <= a.den * b.den) by (nonlinear_arith)
            requires 1 <= a.den && 1 <= b.den;
    }
    FracProb { num: a.num * b.num, den: a.den * b.den }
}

/// Combination of evidence is commutative: the two mates of a pair may be
/// offered in either order without changing the combined support.
pub proof fn lemma_combine_commutative(a: FracProb, b: FracProb)
    ensures
        spec_combine(a, b) == spec_combine(b, a),
{
    assert(a.num * b.num == b.num * a.num) by (nonlinear_arith);
    assert(a.den * b.den == b.den * a.den) by (nonlinear_arith);
}

/// Combining with the certain probability changes nothing: a pair whose
/// other mate is absent scores exactly as the present mate alone.
pub proof fn lemma_combine_one(a: FracProb)
    requires
        a.wf(),
    ensures
        spec_combine(a, FracProb::spec_one()) == a,
        spec_combine(FracProb::spec_one(), a) == a,
{
}

/// The complementary probability 1 - p, over the same denominator.
pub open spec fn spec_complement(p: FracProb) -> FracProb {
    FracProb { num: (p.den - p.num) as u64, den: p.den }
}

/// Compute the complementary probability 1 - p.
pub fn complement(p: FracProb) -> (r: FracProb)
    requires
        p.wf(),
    ensures
        r == spec_complement(p),
        r.wf(),
        p.small() ==> r.small(),
{
    FracProb { num: p.den - p.num, den: p.den }
}

/// The probability encoded by one byte of the per-call probability array:
/// the byte value rescaled linearly from 0..=255 to [0, 1].
pub open spec fn spec_prob_from_byte(b: u8) -> FracProb {
    FracProb { num: b as u64, den: 255 }
}

/// Rescale a probability byte to a fraction in [0, 1].
pub fn prob_from_byte(b: u8) -> (r: FracProb)
    ensures
        r == spec_prob_from_byte(b),
        r.small(),
{
    FracProb { num: b as u64, den: 255 }
}

/// Byte-to-probability rescaling is monotonic.
pub proof fn lemma_byte_rescale_monotonic(b1: u8, b2: u8)
    requires
        b1 <= b2,
    ensures
        spec_prob_from_byte(b1).spec_le_value(spec_prob_from_byte(b2)),
{
    assert((b1 as u64) * 255 <= (b2 as u64) * 255) by (nonlinear_arith)
        requires b1 <= b2;
}

/// Byte-to-probability rescaling is exact at the endpoints: byte 0 denotes
/// probability 0 and byte 255 denotes probability 1.
pub proof fn lemma_byte_rescale_endpoints()
    ensures
        spec_prob_from_byte(0).spec_eq_value(FracProb::spec_zero()),
        spec_prob_from_byte(255).spec_eq_value(FracProb::spec_one()),
{
}

} // verus!
