use methylation::bases::{compute_probs, PHRED_FP_DEN, PHRED_FP_DEN_TRIPLE};
use methylation::cigar::CigarOp;
use methylation::prob::FracProb;
use methylation::record::{CpGLocus, EvidenceUnit, ReadRecord};
use methylation::resolver::{Methylation, Readtype, Strand, VariantRepresentation};

fn rec(seq: &[u8], qual: u8, cigar: Vec<CigarOp>, flag: u16, pos: u64) -> ReadRecord {
    ReadRecord {
        qual: vec![qual; seq.len()],
        seq: seq.to_vec(),
        cigar,
        flag,
        pos,
        mm: None,
        ml: None,
    }
}

fn locus(start: u64) -> CpGLocus {
    CpGLocus { contig: String::from("chr1"), start }
}

fn resolver(start: u64, readtype: Readtype) -> Methylation {
    Methylation::new(locus(start), readtype)
}

#[test]
fn no_projection_no_evidence() {
    // the locus falls in a reference skip: the projector yields nothing,
    // so the resolver must emit nothing, never a default score
    let read = rec(
        b"CCGTACGTAC",
        30,
        vec![CigarOp::Match(5), CigarOp::RefSkip(100), CigarOp::Match(5)],
        0,
        100,
    );
    let v = resolver(107, Readtype::Illumina);
    assert_eq!(v.allele_support(&EvidenceUnit::SingleRead(read)).map(|s| s.strand), None);
}

#[test]
fn gate_rejection_no_evidence() {
    // a duplicate read carries a perfect 'C' at the locus, but the flag
    // is not on the allow-list
    let read = rec(b"ACGTACGTAC", 30, vec![CigarOp::Match(10)], 1024, 100);
    let v = resolver(101, Readtype::Illumina);
    assert!(v.allele_support(&EvidenceUnit::SingleRead(read)).is_none());
}

#[test]
fn mutation_artifact_no_evidence() {
    // an 'A' at the informative offset marks a substitution, not a
    // methylation state
    let read = rec(b"AAGTACGTAC", 30, vec![CigarOp::Match(10)], 0, 100);
    let v = resolver(101, Readtype::Illumina);
    assert!(v.allele_support(&EvidenceUnit::SingleRead(read)).is_none());
}

#[test]
fn forward_c_scenario_supports_methylation() {
    // forward read, 'C' with quality 30 at the informative offset
    let read = rec(b"ACGTACGTAC", 30, vec![CigarOp::Match(10)], 0, 100);
    let v = resolver(101, Readtype::Illumina);
    let support = v.allele_support(&EvidenceUnit::SingleRead(read)).unwrap();
    assert!(support.prob_alt_allele.gt_value(&support.prob_ref_allele));
    assert_eq!(support.strand, Strand::Forward);
    assert_eq!(support.read_position, Some(1));
    assert_eq!(support.third_allele_evidence, None);
    let e30 = 1073740u64;
    assert_eq!(support.prob_alt_allele, FracProb { num: PHRED_FP_DEN - e30, den: PHRED_FP_DEN });
    assert_eq!(support.prob_ref_allele, FracProb { num: e30, den: PHRED_FP_DEN_TRIPLE });
}

#[test]
fn reverse_pair_scored_by_covering_mate_only() {
    // properly paired, reverse-informative pair: only the second-in-pair,
    // mate-reverse mate covers the locus; the strand resolves to reverse
    // and the other mate contributes no score
    let covering = rec(b"ACGTACGTAC", 30, vec![CigarOp::Match(10)], 163, 100);
    let elsewhere = rec(b"ACGTACGTAC", 30, vec![CigarOp::Match(10)], 83, 500);
    let v = resolver(101, Readtype::Illumina);

    let pair = v
        .allele_support(&EvidenceUnit::ReadPair { left: elsewhere, right: covering.clone() })
        .unwrap();
    let single = v.allele_support(&EvidenceUnit::SingleRead(covering)).unwrap();

    assert_eq!(pair.strand, Strand::Reverse);
    assert_eq!(pair.prob_alt_allele, single.prob_alt_allele);
    assert_eq!(pair.prob_ref_allele, single.prob_ref_allele);
}

#[test]
fn forward_pair_left_covering_anchors_left() {
    let covering = rec(b"ACGTACGTAC", 30, vec![CigarOp::Match(10)], 83, 100);
    let elsewhere = rec(b"ACGTACGTAC", 30, vec![CigarOp::Match(10)], 163, 500);
    let v = resolver(101, Readtype::Illumina);
    let pair = v
        .allele_support(&EvidenceUnit::ReadPair { left: covering, right: elsewhere })
        .unwrap();
    assert_eq!(pair.strand, Strand::Reverse);
    assert_eq!(pair.read_position, Some(1));
}

#[test]
fn pair_with_disagreeing_orientations_reports_both() {
    // each mate is scored under its own strand determination; the
    // combiner does not reconcile the disagreement
    let forward = rec(b"ACGTACGTAC", 30, vec![CigarOp::Match(10)], 99, 100);
    let reverse = rec(b"ACGTACGTAC", 30, vec![CigarOp::Match(10)], 163, 100);
    let v = resolver(101, Readtype::Illumina);
    let pair = v
        .allele_support(&EvidenceUnit::ReadPair { left: forward, right: reverse })
        .unwrap();
    assert_eq!(pair.strand, Strand::Both);
}

#[test]
fn pair_combination_multiplies_mate_scores() {
    // both mates cover the locus with a clean 'C': the pair's fractions
    // are the exact products of the single-mate fractions
    let left = rec(b"ACGTACGTAC", 30, vec![CigarOp::Match(10)], 99, 100);
    let right = rec(b"ACGTACGTAC", 30, vec![CigarOp::Match(10)], 147, 100);
    let v = resolver(101, Readtype::Illumina);

    let (alt_l, ref_l) = compute_probs(false, &left, 1);
    let (alt_r, ref_r) = compute_probs(false, &right, 1);
    let pair = v.allele_support(&EvidenceUnit::ReadPair { left, right }).unwrap();

    assert_eq!(pair.prob_alt_allele.num, alt_l.num * alt_r.num);
    assert_eq!(pair.prob_alt_allele.den, alt_l.den * alt_r.den);
    assert_eq!(pair.prob_ref_allele.num, ref_l.num * ref_r.num);
    assert_eq!(pair.prob_ref_allele.den, ref_l.den * ref_r.den);
    assert_eq!(pair.strand, Strand::Forward);
}

#[test]
fn pair_combination_is_commutative() {
    let left = rec(b"ACGTACGTAC", 30, vec![CigarOp::Match(10)], 99, 100);
    let right = rec(b"ATGTACGTAC", 20, vec![CigarOp::Match(10)], 147, 100);
    let v = resolver(101, Readtype::Illumina);
    let ab = v
        .allele_support(&EvidenceUnit::ReadPair { left: left.clone(), right: right.clone() })
        .unwrap();
    let ba = v.allele_support(&EvidenceUnit::ReadPair { left: right, right: left }).unwrap();
    assert_eq!(ab.prob_alt_allele, ba.prob_alt_allele);
    assert_eq!(ab.prob_ref_allele, ba.prob_ref_allele);
    assert_eq!(ab.strand, ba.strand);
}

#[test]
fn pair_with_one_mutated_projecting_mate_is_dropped() {
    let clean = rec(b"ACGTACGTAC", 30, vec![CigarOp::Match(10)], 99, 100);
    let mutated = rec(b"AAGTACGTAC", 30, vec![CigarOp::Match(10)], 147, 100);
    let v = resolver(101, Readtype::Illumina);
    assert!(v.allele_support(&EvidenceUnit::ReadPair { left: clean, right: mutated }).is_none());
}

#[test]
fn pair_with_invalid_mate_scores_the_other_alone() {
    // the duplicate mate covers the locus but is omitted from the sum:
    // the clean mate's score stands alone, in either mate order
    let clean = rec(b"ACGTACGTAC", 30, vec![CigarOp::Match(10)], 99, 100);
    let duplicate = rec(b"ACGTACGTAC", 30, vec![CigarOp::Match(10)], 1024, 100);
    let v = resolver(101, Readtype::Illumina);
    let single = v.allele_support(&EvidenceUnit::SingleRead(clean.clone())).unwrap();
    for (left, right) in [(clean.clone(), duplicate.clone()), (duplicate, clean)] {
        let pair = v.allele_support(&EvidenceUnit::ReadPair { left, right }).unwrap();
        assert_eq!(pair.prob_alt_allele, single.prob_alt_allele);
        assert_eq!(pair.prob_ref_allele, single.prob_ref_allele);
        assert_eq!(pair.strand, single.strand);
        assert_eq!(pair.read_position, single.read_position);
    }
}

#[test]
fn pair_with_both_mates_invalid_is_dropped() {
    let duplicate = rec(b"ACGTACGTAC", 30, vec![CigarOp::Match(10)], 1024, 100);
    let supplementary = rec(b"ACGTACGTAC", 30, vec![CigarOp::Match(10)], 2048, 100);
    let v = resolver(101, Readtype::Illumina);
    assert!(
        v.allele_support(&EvidenceUnit::ReadPair { left: duplicate, right: supplementary })
            .is_none()
    );
}

#[test]
fn rejected_mate_never_reaches_the_mutation_detector() {
    // the flag-rejected mate carries an 'A' at the informative offset,
    // but a flag-rejected read is left unscored; the detector is never
    // consulted for it
    let clean = rec(b"ACGTACGTAC", 30, vec![CigarOp::Match(10)], 99, 100);
    let rejected_mutant = rec(b"AAGTACGTAC", 30, vec![CigarOp::Match(10)], 1024, 100);
    let v = resolver(101, Readtype::Illumina);
    let single = v.allele_support(&EvidenceUnit::SingleRead(clean.clone())).unwrap();
    let pair = v
        .allele_support(&EvidenceUnit::ReadPair { left: clean, right: rejected_mutant })
        .unwrap();
    assert_eq!(pair.prob_alt_allele, single.prob_alt_allele);
    assert_eq!(pair.prob_ref_allele, single.prob_ref_allele);
}

#[test]
fn pair_with_no_projecting_mate_is_dropped() {
    let a = rec(b"ACGTACGTAC", 30, vec![CigarOp::Match(10)], 99, 500);
    let b = rec(b"ACGTACGTAC", 30, vec![CigarOp::Match(10)], 147, 700);
    let v = resolver(101, Readtype::Illumina);
    assert!(v.allele_support(&EvidenceUnit::ReadPair { left: a, right: b }).is_none());
}

#[test]
fn reverse_read_with_locus_at_last_base_is_unavailable() {
    // the G of the CpG would lie one past the read's end
    let read = rec(b"ACGTACGTAC", 30, vec![CigarOp::Match(10)], 16, 100);
    let v = resolver(109, Readtype::Illumina);
    assert!(v.allele_support(&EvidenceUnit::SingleRead(read)).is_none());
}

#[test]
fn long_read_scored_from_tags() {
    // Cs at offsets 1, 4, 7; the tag names the C at offset 4 (rank 2,
    // so gaps 1) with probability byte 200
    let mut read = rec(b"ACAACAACAA", 30, vec![CigarOp::Match(10)], 0, 100);
    read.mm = Some(b"C+m,1;".to_vec());
    read.ml = Some(vec![200]);
    let v = resolver(104, Readtype::PacBio);
    let support = v.allele_support(&EvidenceUnit::SingleRead(read)).unwrap();
    assert_eq!(support.prob_alt_allele, FracProb { num: 200, den: 255 });
    assert_eq!(support.prob_ref_allele, FracProb { num: 55, den: 255 });
    assert_eq!(support.strand, Strand::Forward);
    assert_eq!(support.read_position, Some(4));
}

#[test]
fn long_read_unnamed_offset_gives_no_evidence() {
    // the tag names only the C at offset 1; the decoded mapping holds no
    // probability for the locus C at offset 4, so the read offers
    // nothing rather than a guessed probability
    let mut read = rec(b"ACAACAACAA", 30, vec![CigarOp::Match(10)], 0, 100);
    read.mm = Some(b"C+m,0;".to_vec());
    read.ml = Some(vec![200]);
    let v = resolver(104, Readtype::PacBio);
    assert!(v.allele_support(&EvidenceUnit::SingleRead(read)).is_none());
}

#[test]
fn long_read_without_tags_gives_no_evidence() {
    let read = rec(b"ACAACAACAA", 30, vec![CigarOp::Match(10)], 0, 100);
    let v = resolver(104, Readtype::PacBio);
    assert!(v.allele_support(&EvidenceUnit::SingleRead(read)).is_none());
}

#[test]
fn long_read_malformed_tag_gives_no_evidence() {
    let mut read = rec(b"ACAACAACAA", 30, vec![CigarOp::Match(10)], 0, 100);
    read.mm = Some(b"C+m,x;".to_vec());
    read.ml = Some(vec![200]);
    let v = resolver(104, Readtype::PacBio);
    assert!(v.allele_support(&EvidenceUnit::SingleRead(read)).is_none());
}

#[test]
fn uninformative_pair_reports_no_strand() {
    // tag probabilities 100/255 and 155/255 multiply to equal support for
    // both hypotheses, so the record carries no strand information
    let mut left = rec(b"ACAACAACAA", 30, vec![CigarOp::Match(10)], 99, 100);
    left.mm = Some(b"C+m,1;".to_vec());
    left.ml = Some(vec![100]);
    let mut right = rec(b"ACAACAACAA", 30, vec![CigarOp::Match(10)], 147, 100);
    right.mm = Some(b"C+m,1;".to_vec());
    right.ml = Some(vec![155]);
    let v = resolver(104, Readtype::PacBio);
    let support = v.allele_support(&EvidenceUnit::ReadPair { left, right }).unwrap();
    assert!(support.prob_alt_allele.eq_value(&support.prob_ref_allele));
    assert_eq!(support.strand, Strand::NoStrand);
}

#[test]
fn overlap_validates_evidence() {
    let covering = rec(b"ACGTACGTAC", 30, vec![CigarOp::Match(10)], 0, 100);
    let elsewhere = rec(b"ACGTACGTAC", 30, vec![CigarOp::Match(10)], 0, 500);
    let v = resolver(105, Readtype::Illumina);
    assert_eq!(v.is_valid_evidence(&EvidenceUnit::SingleRead(covering.clone())), Some(vec![0]));
    assert_eq!(v.is_valid_evidence(&EvidenceUnit::SingleRead(elsewhere.clone())), None);
    assert_eq!(
        v.is_valid_evidence(&EvidenceUnit::ReadPair { left: elsewhere, right: covering }),
        Some(vec![0]),
    );
}

#[test]
fn facade_accessors() {
    let v = resolver(12345, Readtype::Illumina);
    assert!(!v.is_imprecise());
    assert_eq!(v.loci().start, 12345);
    assert_eq!(v.loci().contig, "chr1");
    let read = rec(b"ACGT", 30, vec![CigarOp::Match(4)], 0, 100);
    let one = v.prob_sample_alt(&EvidenceUnit::SingleRead(read));
    assert_eq!(one, FracProb { num: 1, den: 1 });
    assert_eq!(v.to_variant_representation(), VariantRepresentation::Methylation);
}
