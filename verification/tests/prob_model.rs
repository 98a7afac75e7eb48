use methylation::prob::{combine, complement, prob_from_byte, FracProb};
use methylation::bases::{
    compute_probs, err_fp, mutation_occurred, prob_read_base, PHRED_FP_DEN, PHRED_FP_DEN_TRIPLE,
};
use methylation::cigar::CigarOp;
use methylation::record::ReadRecord;

fn rec(seq: &[u8], qual: u8, cigar: Vec<CigarOp>, flag: u16, pos: u64) -> ReadRecord {
    ReadRecord {
        qual: vec![qual; seq.len()],
        seq: seq.to_vec(),
        cigar,
        flag,
        pos,
        mm: None,
        ml: None,
    }
}

#[test]
fn combine_is_exact_product() {
    let a = FracProb { num: 1, den: 2 };
    let b = FracProb { num: 1, den: 3 };
    let c = combine(a, b);
    assert_eq!(c, FracProb { num: 1, den: 6 });
}

#[test]
fn combine_commutes() {
    let a = FracProb { num: 3, den: 7 };
    let b = FracProb { num: 5, den: 11 };
    assert_eq!(combine(a, b), combine(b, a));
}

#[test]
fn combine_with_one_is_identity() {
    let a = FracProb { num: 123, den: 255 };
    assert_eq!(combine(a, FracProb::one()), a);
    assert_eq!(combine(FracProb::one(), a), a);
}

#[test]
fn byte_rescale_endpoints_exact() {
    // byte 0 denotes probability 0 and byte 255 probability 1
    assert!(prob_from_byte(0).eq_value(&FracProb::zero()));
    assert!(prob_from_byte(255).eq_value(&FracProb::one()));
    assert_eq!(prob_from_byte(0).num, 0);
    assert_eq!(prob_from_byte(255).num, 255);
    assert_eq!(prob_from_byte(255).den, 255);
}

#[test]
fn byte_rescale_monotonic() {
    let mut prev = prob_from_byte(0);
    for b in 1..=255u8 {
        let cur = prob_from_byte(b);
        assert!(cur.gt_value(&prev));
        prev = cur;
    }
}

#[test]
fn complement_flips() {
    let p = prob_from_byte(100);
    let c = complement(p);
    assert_eq!(c, FracProb { num: 155, den: 255 });
}

#[test]
fn err_fp_at_zero_is_one() {
    assert_eq!(err_fp(0), PHRED_FP_DEN);
}

#[test]
fn err_fp_decreases_with_quality() {
    let mut prev = err_fp(0);
    for q in 1..=60u8 {
        let cur = err_fp(q);
        assert!(cur < prev);
        prev = cur;
    }
}

#[test]
fn err_fp_quality_30_value() {
    // thirty applications of the fixed-point decay: about 0.1% error
    assert_eq!(err_fp(30), 1073740);
}

#[test]
fn prob_read_base_match_and_mismatch() {
    let e30 = err_fp(30);
    let matched = prob_read_base(b'C', b'C', 30);
    assert_eq!(matched, FracProb { num: PHRED_FP_DEN - e30, den: PHRED_FP_DEN });
    let mismatched = prob_read_base(b'T', b'C', 30);
    assert_eq!(mismatched, FracProb { num: e30, den: PHRED_FP_DEN_TRIPLE });
}

#[test]
fn forward_c_with_quality_30_supports_methylation() {
    // base 'C' with quality implying a 0.1% error rate: the methylated
    // hypothesis must win strictly
    let read = rec(b"ACGT", 30, vec![CigarOp::Match(4)], 0, 100);
    let (prob_alt, prob_ref) = compute_probs(false, &read, 1);
    assert!(prob_alt.gt_value(&prob_ref));
    assert_eq!(prob_alt, FracProb { num: PHRED_FP_DEN - 1073740, den: PHRED_FP_DEN });
    assert_eq!(prob_ref, FracProb { num: 1073740, den: PHRED_FP_DEN_TRIPLE });
}

#[test]
fn forward_t_supports_unmethylated() {
    let read = rec(b"ATGT", 30, vec![CigarOp::Match(4)], 0, 100);
    let (prob_alt, prob_ref) = compute_probs(false, &read, 1);
    assert!(prob_ref.gt_value(&prob_alt));
}

#[test]
fn reverse_reads_score_the_g_complement() {
    // on the reverse strand the informative base is one to the right
    let read = rec(b"ACGT", 30, vec![CigarOp::Match(4)], 16, 100);
    let (prob_alt, prob_ref) = compute_probs(true, &read, 1);
    // seq[2] == 'G': methylation retained
    assert!(prob_alt.gt_value(&prob_ref));
}

#[test]
fn mutation_detector_forward() {
    let read_a = rec(b"AAGT", 30, vec![CigarOp::Match(4)], 0, 100);
    assert!(mutation_occurred(false, &read_a, 1));
    let read_g = rec(b"AGGT", 30, vec![CigarOp::Match(4)], 0, 100);
    assert!(mutation_occurred(false, &read_g, 1));
    let read_c = rec(b"ACGT", 30, vec![CigarOp::Match(4)], 0, 100);
    assert!(!mutation_occurred(false, &read_c, 1));
    let read_t = rec(b"ATGT", 30, vec![CigarOp::Match(4)], 0, 100);
    assert!(!mutation_occurred(false, &read_t, 1));
}

#[test]
fn mutation_detector_reverse() {
    // reverse strand: C or T at the G position marks a variant
    let read_c = rec(b"ACCT", 30, vec![CigarOp::Match(4)], 16, 100);
    assert!(mutation_occurred(true, &read_c, 1));
    let read_t = rec(b"ACTT", 30, vec![CigarOp::Match(4)], 16, 100);
    assert!(mutation_occurred(true, &read_t, 1));
    let read_g = rec(b"ACGT", 30, vec![CigarOp::Match(4)], 16, 100);
    assert!(!mutation_occurred(true, &read_g, 1));
    let read_a = rec(b"ACAT", 30, vec![CigarOp::Match(4)], 16, 100);
    assert!(!mutation_occurred(true, &read_a, 1));
}
