//! The base-probability model and the mutation-artifact detector.
//!
//! A base quality `q` encodes the error probability `10^(-q/10)`.  That
//! value is irrational, so it is held as a fixed-point fraction with
//! denominator 2^30, computed by repeated multiplication with the
//! fixed-point value of `10^(-1/10)`.  Every probability derived from it is
//! then an exact fraction of machine integers.

use vstd::prelude::*;
use vstd::arithmetic::mul::{lemma_mul_upper_bound, lemma_mul_inequality};
use vstd::arithmetic::div_mod::{lemma_div_is_ordered, lemma_div_multiples_vanish};
use crate::prob::FracProb;
use crate::record::ReadRecord;

verus! {

/// ASCII 'A'.
pub const BASE_A: u8 = 65;
/// ASCII 'C'.
pub const BASE_C: u8 = 67;
/// ASCII 'G'.
pub const BASE_G: u8 = 71;
/// ASCII 'T'.
pub const BASE_T: u8 = 84;

/// Denominator of the fixed-point error probability: 2^30.
pub const PHRED_FP_DEN: u64 = 0x4000_0000;
/// Three times `PHRED_FP_DEN`, the denominator of a mismatch probability.
pub const PHRED_FP_DEN_TRIPLE: u64 = 0xc000_0000;
/// Fixed-point value of `10^(-1/10)`, the factor by which the error
/// probability shrinks per quality unit: `floor(2^30 * 10^(-1/10))`.
pub const PHRED_FP_DECAY: u64 = 852903447;

/// Numerator of the fixed-point error probability `10^(-q/10)`:
/// `spec_err_fp(q) / PHRED_FP_DEN` approximates the error probability of a
/// base with quality `q`.
pub open spec fn spec_err_fp(q: nat) -> int
    decreases q,
{
    if q == 0 {
        PHRED_FP_DEN as int
    } else {
        spec_err_fp((q - 1) as nat) * PHRED_FP_DECAY / PHRED_FP_DEN as int
    }
}

/// The fixed-point error probability never exceeds 1.
pub proof fn lemma_err_fp_bounds(q: nat)
    ensures
        0 <= spec_err_fp(q) <= PHRED_FP_DEN,
    decreases q,
{
    if q > 0 {
        lemma_err_fp_bounds((q - 1) as nat);
        let e = spec_err_fp((q - 1) as nat);
        lemma_mul_inequality(PHRED_FP_DECAY as int, PHRED_FP_DEN as int, e);
        lemma_div_is_ordered(e * PHRED_FP_DECAY, e * PHRED_FP_DEN, PHRED_FP_DEN as int);
        lemma_div_multiples_vanish(e, PHRED_FP_DEN as int);
        assert(e * PHRED_FP_DECAY >= 0) by (nonlinear_arith)
            requires e >= 0;
        assert(e * PHRED_FP_DECAY / PHRED_FP_DEN as int >= 0);
    }
}

/// Compute the fixed-point error probability of quality `q`.
pub fn err_fp(q: u8) -> (r: u64)
    ensures
        r == spec_err_fp(q as nat),
        r <= PHRED_FP_DEN,
{
    let mut e: u64 = PHRED_FP_DEN;
    let mut i: u8 = 0;
    while i < q
        invariant
            i <= q,
            e == spec_err_fp(i as nat),
            e <= PHRED_FP_DEN,
        decreases q - i,
    {
        proof {
            lemma_mul_upper_bound(e as int, PHRED_FP_DEN as int,
                PHRED_FP_DECAY as int, PHRED_FP_DECAY as int);
            lemma_err_fp_bounds((i + 1) as nat);
        }
        e = e * PHRED_FP_DECAY / PHRED_FP_DEN;
        i = i + 1;
    }
    e
}

/// The probability that the observed read base truly is the expected base,
/// given the quality-encoded error probability `err`: `1 - err` when the
/// observed base equals the expected one, and `err / 3` otherwise (the
/// error mass spread uniformly over the three non-matching bases).
pub open spec fn spec_prob_read_base(read_base: u8, conf_base: u8, base_qual: u8) -> FracProb {
    if read_base == conf_base {
        FracProb {
            num: (PHRED_FP_DEN - spec_err_fp(base_qual as nat)) as u64,
            den: PHRED_FP_DEN,
        }
    } else {
        FracProb { num: spec_err_fp(base_qual as nat) as u64, den: PHRED_FP_DEN_TRIPLE }
    }
}

/// Quality-aware probability that the observed base is the expected base.
pub fn prob_read_base(read_base: u8, conf_base: u8, base_qual: u8) -> (r: FracProb)
    ensures
        r == spec_prob_read_base(read_base, conf_base, base_qual),
        r.small(),
{
    proof {
        lemma_err_fp_bounds(base_qual as nat);
    }
    let e = err_fp(base_qual);
    if read_base == conf_base {
        FracProb { num: PHRED_FP_DEN - e, den: PHRED_FP_DEN }
    } else {
        FracProb { num: e, den: PHRED_FP_DEN_TRIPLE }
    }
}

/// The read offset carrying the informative base: the C of the CpG itself
/// on the forward strand, and the base one to the right of the projected
/// offset (the G of the CpG) on the reverse strand.
pub open spec fn spec_informative_offset(reverse_read: bool, qpos: int) -> int {
    if reverse_read {
        qpos + 1
    } else {
        qpos
    }
}

/// The scored pair of probabilities for a short-read observation at the
/// informative offset: first the probability of the methylated hypothesis
/// (the base survived as C, or G on the reverse strand), then of the
/// unmethylated hypothesis (the base was converted to T, or A on the
/// reverse strand; a base that matches neither supports the unmethylated
/// reading of whatever it is).
pub open spec fn spec_compute_probs(reverse_read: bool, record: ReadRecord, qpos: int)
    -> (FracProb, FracProb)
{
    let i = spec_informative_offset(reverse_read, qpos);
    let read_base = record.seq@[i];
    let base_qual = record.qual@[i];
    if !reverse_read {
        let no_c = if read_base != BASE_C { read_base } else { BASE_T };
        (
            spec_prob_read_base(read_base, BASE_C, base_qual),
            spec_prob_read_base(read_base, no_c, base_qual),
        )
    } else {
        let no_g = if read_base != BASE_G { read_base } else { BASE_A };
        (
            spec_prob_read_base(read_base, BASE_G, base_qual),
            spec_prob_read_base(read_base, no_g, base_qual),
        )
    }
}

/// Score one short-read observation: the probability of methylation (the
/// alternative allele) and of no methylation (the reference allele) at the
/// projected offset.
pub fn compute_probs(reverse_read: bool, record: &ReadRecord, qpos: usize)
    -> (r: (FracProb, FracProb))
    requires
        spec_informative_offset(reverse_read, qpos as int) < record.seq@.len(),
        spec_informative_offset(reverse_read, qpos as int) < record.qual@.len(),
    ensures
        r == spec_compute_probs(reverse_read, *record, qpos as int),
        r.0.small(),
        r.1.small(),
{
    let _n = record.seq.len();
    let i = if reverse_read { qpos + 1 } else { qpos };
    let read_base = record.seq[i];
    let base_qual = record.qual[i];
    if !reverse_read {
        let prob_alt = prob_read_base(read_base, BASE_C, base_qual);
        let no_c = if read_base != BASE_C { read_base } else { BASE_T };
        let prob_ref = prob_read_base(read_base, no_c, base_qual);
        (prob_alt, prob_ref)
    } else {
        let prob_alt = prob_read_base(read_base, BASE_G, base_qual);
        let no_g = if read_base != BASE_G { read_base } else { BASE_A };
        let prob_ref = prob_read_base(read_base, no_g, base_qual);
        (prob_alt, prob_ref)
    }
}

/// The base at the informative offset contradicts both methylation
/// hypotheses: an A or G where the C of the CpG should stand (forward), or
/// a C or T where its G should stand (reverse).  Such a read witnesses a
/// genuine sequence variant, not a methylation state.
pub open spec fn spec_mutation_occurred(reverse_read: bool, record: ReadRecord, qpos: int) -> bool {
    let read_base = record.seq@[spec_informative_offset(reverse_read, qpos)];
    if reverse_read {
        read_base == BASE_C || read_base == BASE_T
    } else {
        read_base == BASE_A || read_base == BASE_G
    }
}

/// The mutation-artifact detector.
pub fn mutation_occurred(reverse_read: bool, record: &ReadRecord, qpos: usize) -> (r: bool)
    requires
        spec_informative_offset(reverse_read, qpos as int) < record.seq@.len(),
    ensures
        r == spec_mutation_occurred(reverse_read, *record, qpos as int),
{
    let _n = record.seq.len();
    if reverse_read {
        let read_base = record.seq[qpos + 1];
        read_base == BASE_C || read_base == BASE_T
    } else {
        let read_base = record.seq[qpos];
        read_base == BASE_A || read_base == BASE_G
    }
}

} // verus!
