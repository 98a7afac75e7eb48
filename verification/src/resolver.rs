//! The resolver: one (locus, evidence unit) evaluation.
//!
//! Each evidence unit passes, mate by mate, through the coordinate
//! projector, the validity gate, the strand classifier and the
//! mutation-artifact detector; surviving mates are scored under the
//! platform's scoring rule and merged by the evidence combiner.  A
//! flag-rejected mate contributes no score and is omitted from the
//! combination.  A unit none of whose mates projects, or with a
//! projecting, gate-passing mate that the mutation-artifact detector
//! flags, or no mate of which could be scored, gives no evidence, never
//! a default score.

use vstd::prelude::*;
use crate::bases::{
    spec_informative_offset, spec_compute_probs, spec_mutation_occurred, compute_probs,
    mutation_occurred,
};
use crate::flags::{
    spec_read_reverse_strand, spec_read_invalid, read_reverse_strand, read_invalid,
};
use crate::prob::{FracProb, spec_combine, combine, spec_complement, complement};
use crate::record::{
    ReadRecord, CpGLocus, EvidenceUnit, spec_get_qpos, get_qpos, spec_overlap,
};
use crate::tags::{
    spec_meth_pos, meth_pos, spec_meth_probs, meth_probs, spec_lookup, lookup_prob,
    lemma_lookup_found,
};

verus! {

/// Which strand the combined evidence speaks for.
#[derive(Clone, Copy, Debug, PartialEq, Eq, Structural)]
pub enum Strand {
    Forward,
    Reverse,
    /// The two mates were scored under different orientations.
    Both,
    /// The evidence is uninformative; no strand is reported.
    NoStrand,
}

/// The sequencing platform of the sample, selecting the scoring path:
/// direct base identity for short bisulfite-style reads, or the
/// out-of-band modification tags for long reads.  This is configuration,
/// never inferred from the data.
#[derive(Clone, Copy, Debug, PartialEq, Eq, Structural)]
pub enum Readtype {
    Illumina,
    PacBio,
}

/// The variant kind this resolver stands for.
#[derive(Clone, Copy, Debug, PartialEq, Eq, Structural)]
pub enum VariantRepresentation {
    Methylation,
}

/// The evidence record handed to the downstream engine: the support for
/// the unmethylated (reference) and methylated (alternative) hypotheses as
/// exact fractions, the informative strand, and the read offset anchoring
/// the observation.
#[derive(Clone, Debug)]
pub struct AlleleSupport {
    pub prob_ref_allele: FracProb,
    pub prob_alt_allele: FracProb,
    pub strand: Strand,
    pub read_position: Option<usize>,
    pub third_allele_evidence: Option<u64>,
}

/// The strand under which one read is scored.
pub open spec fn spec_strand_of(read: ReadRecord) -> Strand {
    if spec_read_reverse_strand(read.flag) {
        Strand::Reverse
    } else {
        Strand::Forward
    }
}

/// The projected offset of a mate, available only when the informative
/// base and its quality lie inside the read.
pub open spec fn spec_mate_offset(read: ReadRecord, locus: CpGLocus) -> Option<int> {
    match spec_get_qpos(read, locus) {
        Some(q) => {
            let i = spec_informative_offset(spec_read_reverse_strand(read.flag), q);
            if i < read.seq@.len() && i < read.qual@.len() {
                Some(q)
            } else {
                None
            }
        },
        None => None,
    }
}

/// A projecting mate that passes the validity gate but whose informative
/// base marks a mutation artifact blocks the whole evidence unit: the
/// observation witnesses a sequence variant, not a methylation state.
/// (A flag-rejected mate never reaches the detector; it is simply left
/// unscored.)
pub open spec fn spec_mate_blocked(read: ReadRecord, locus: CpGLocus) -> bool {
    match spec_mate_offset(read, locus) {
        Some(q) => !spec_read_invalid(read.flag) && spec_mutation_occurred(
            spec_read_reverse_strand(read.flag),
            read,
            q,
        ),
        None => false,
    }
}

/// The long-read score of one mate: the decoded tag probability at the
/// projected offset and its complement.  Nothing when either tag yields
/// no data, and nothing when the decoded mapping holds no probability
/// for that offset: absence is never turned into a guessed probability.
pub open spec fn spec_pacbio_probs(read: ReadRecord, q: int) -> Option<(FracProb, FracProb)> {
    match (spec_meth_pos(read), spec_meth_probs(read)) {
        (Ok(offs), Ok(ps)) => match spec_lookup(offs, ps, q) {
            Some(p) => Some((p, spec_complement(p))),
            None => None,
        },
        _ => None,
    }
}

/// The score of one mate: nothing when it does not project, when the
/// validity gate rejects it, or when the platform's path has no evidence
/// for it.
pub open spec fn spec_mate_probs(readtype: Readtype, read: ReadRecord, locus: CpGLocus) -> Option<
    (FracProb, FracProb),
> {
    match spec_mate_offset(read, locus) {
        Some(q) => if spec_read_invalid(read.flag) {
            None
        } else {
            match readtype {
                Readtype::Illumina => Some(
                    spec_compute_probs(spec_read_reverse_strand(read.flag), read, q),
                ),
                Readtype::PacBio => spec_pacbio_probs(read, q),
            }
        },
        None => None,
    }
}

/// The emitted record: an uninformative unit (equal support for both
/// hypotheses) reports no strand.
pub open spec fn spec_build_support(alt: FracProb, ref_p: FracProb, strand: Strand, q: int)
    -> AlleleSupport {
    AlleleSupport {
        prob_ref_allele: ref_p,
        prob_alt_allele: alt,
        strand: if alt.spec_eq_value(ref_p) {
            Strand::NoStrand
        } else {
            strand
        },
        read_position: Some(q as usize),
        third_allele_evidence: None,
    }
}

/// The outcome for a single-read unit.
pub open spec fn spec_single_support(locus: CpGLocus, readtype: Readtype, read: ReadRecord)
    -> Option<AlleleSupport> {
    match spec_mate_offset(read, locus) {
        None => None,
        Some(q) => if spec_mate_blocked(read, locus) {
            None
        } else {
            match spec_mate_probs(readtype, read, locus) {
                None => None,
                Some(p) => Some(spec_build_support(p.0, p.1, spec_strand_of(read), q)),
            }
        },
    }
}

/// The outcome for a mate-pair unit: scored mates are combined as
/// conditionally independent observations (their probabilities multiply,
/// which is the log-space sum); a mate that does not project, or that
/// the validity gate rejects, is omitted from the combination, and the
/// anchor offset comes from the first mate that was actually scored, so
/// that an omitted mate influences nothing in the emitted record.
pub open spec fn spec_pair_support(
    locus: CpGLocus,
    readtype: Readtype,
    left: ReadRecord,
    right: ReadRecord,
) -> Option<AlleleSupport> {
    let offl = spec_mate_offset(left, locus);
    let offr = spec_mate_offset(right, locus);
    if offl is None && offr is None {
        None
    } else if spec_mate_blocked(left, locus) || spec_mate_blocked(right, locus) {
        None
    } else {
        let sl = spec_mate_probs(readtype, left, locus);
        let sr = spec_mate_probs(readtype, right, locus);
        match (if sl is Some { offl } else { offr }) {
            Some(q) => match (sl, sr) {
                (None, None) => None,
                (Some(p), None) => Some(spec_build_support(p.0, p.1, spec_strand_of(left), q)),
                (None, Some(p)) => Some(spec_build_support(p.0, p.1, spec_strand_of(right), q)),
                (Some(pl), Some(pr)) => Some(
                    spec_build_support(
                        spec_combine(pl.0, pr.0),
                        spec_combine(pl.1, pr.1),
                        if spec_strand_of(left) == spec_strand_of(right) {
                            spec_strand_of(left)
                        } else {
                            Strand::Both
                        },
                        q,
                    ),
                ),
            },
            None => None,
        }
    }
}

/// What the resolver emits for one (locus, evidence unit) pair.
pub open spec fn spec_allele_support(locus: CpGLocus, readtype: Readtype, unit: EvidenceUnit)
    -> Option<AlleleSupport> {
    match unit {
        EvidenceUnit::SingleRead(r) => spec_single_support(locus, readtype, r),
        EvidenceUnit::ReadPair { left, right } => spec_pair_support(locus, readtype, left, right),
    }
}

/// Paired combination is commutative: offering the two mates of a pair in
/// either order yields evidence together, with the same probabilities and
/// the same strand (only the anchoring read offset may follow the mate
/// order).
pub proof fn lemma_pair_commutative(
    locus: CpGLocus,
    readtype: Readtype,
    left: ReadRecord,
    right: ReadRecord,
)
    ensures
        (spec_pair_support(locus, readtype, left, right) is Some) == (spec_pair_support(
            locus,
            readtype,
            right,
            left,
        ) is Some),
        spec_pair_support(locus, readtype, left, right) matches Some(a) ==> (spec_pair_support(
            locus,
            readtype,
            right,
            left,
        ) matches Some(b) ==> a.prob_alt_allele == b.prob_alt_allele && a.prob_ref_allele
            == b.prob_ref_allele && a.strand == b.strand),
{
    match (spec_mate_probs(readtype, left, locus), spec_mate_probs(readtype, right, locus)) {
        (Some(pl), Some(pr)) => {
            crate::prob::lemma_combine_commutative(pl.0, pr.0);
            crate::prob::lemma_combine_commutative(pl.1, pr.1);
        },
        _ => {},
    }
}

/// A pair whose other mate does not project onto the locus scores exactly
/// as the present mate alone.
pub proof fn lemma_pair_absent_mate(
    locus: CpGLocus,
    readtype: Readtype,
    left: ReadRecord,
    right: ReadRecord,
)
    requires
        spec_mate_offset(right, locus) is None,
    ensures
        spec_pair_support(locus, readtype, left, right) == spec_single_support(
            locus,
            readtype,
            left,
        ),
{
}

/// A mate the validity gate rejects influences nothing: whether or not
/// it projects onto the locus, the pair scores exactly as the other mate
/// alone.
pub proof fn lemma_pair_invalid_mate_omitted(
    locus: CpGLocus,
    readtype: Readtype,
    kept: ReadRecord,
    rejected: ReadRecord,
)
    requires
        spec_read_invalid(rejected.flag),
    ensures
        spec_pair_support(locus, readtype, kept, rejected) == spec_single_support(
            locus,
            readtype,
            kept,
        ),
        spec_pair_support(locus, readtype, rejected, kept) == spec_single_support(
            locus,
            readtype,
            kept,
        ),
{
}

/// Some read of the unit overlaps the locus interval.
pub open spec fn spec_unit_overlap(unit: EvidenceUnit, locus: CpGLocus) -> bool {
    match unit {
        EvidenceUnit::SingleRead(r) => spec_overlap(r, locus),
        EvidenceUnit::ReadPair { left, right } => spec_overlap(left, locus) || spec_overlap(
            right,
            locus,
        ),
    }
}

/// Projected offset of a mate with its informative base in range.
pub fn mate_offset(read: &ReadRecord, locus: &CpGLocus) -> (r: Option<usize>)
    ensures
        r is Some <==> spec_mate_offset(*read, *locus) is Some,
        r matches Some(q) ==> spec_mate_offset(*read, *locus) == Some(q as int),
{
    match get_qpos(read, locus) {
        Some(q) => {
            let n = read.seq.len();
            let nq = read.qual.len();
            let reverse = read_reverse_strand(read.flag);
            let i = if reverse {
                q + 1
            } else {
                q
            };
            if i < n && i < nq {
                Some(q)
            } else {
                None
            }
        },
        None => None,
    }
}

/// Does this mate project onto the locus, pass the validity gate, and
/// still carry a mutation artifact that blocks the whole unit?
pub fn mate_blocked(read: &ReadRecord, locus: &CpGLocus) -> (r: bool)
    ensures
        r == spec_mate_blocked(*read, *locus),
{
    match mate_offset(read, locus) {
        Some(q) => {
            let reverse = read_reverse_strand(read.flag);
            !read_invalid(read.flag) && mutation_occurred(reverse, read, q)
        },
        None => false,
    }
}

/// Score one mate under the platform's path.
pub fn mate_probs(readtype: Readtype, read: &ReadRecord, locus: &CpGLocus) -> (r: Option<
    (FracProb, FracProb),
>)
    ensures
        r == spec_mate_probs(readtype, *read, *locus),
        r matches Some(p) ==> p.0.small() && p.1.small(),
{
    let q = match mate_offset(read, locus) {
        Some(q) => q,
        None => {
            return None;
        },
    };
    if read_invalid(read.flag) {
        return None;
    }
    let reverse = read_reverse_strand(read.flag);
    match readtype {
        Readtype::Illumina => Some(compute_probs(reverse, read, q)),
        Readtype::PacBio => {
            let offs = match meth_pos(read) {
                Ok(v) => v,
                Err(_) => {
                    return None;
                },
            };
            let ps = match meth_probs(read) {
                Ok(v) => v,
                Err(_) => {
                    return None;
                },
            };
            match lookup_prob(&offs, &ps, q) {
                Some(p) => {
                    proof {
                        lemma_lookup_found(
                            offs@.map_values(|x: usize| x as int),
                            ps@,
                            q as int,
                            p,
                        );
                    }
                    Some((p, complement(p)))
                },
                None => None,
            }
        },
    }
}

fn strand_of(read: &ReadRecord) -> (r: Strand)
    ensures
        r == spec_strand_of(*read),
{
    if read_reverse_strand(read.flag) {
        Strand::Reverse
    } else {
        Strand::Forward
    }
}

fn build_support(alt: FracProb, ref_p: FracProb, strand: Strand, qpos: usize) -> (r: AlleleSupport)
    ensures
        r == spec_build_support(alt, ref_p, strand, qpos as int),
{
    let s = if alt.eq_value(&ref_p) {
        Strand::NoStrand
    } else {
        strand
    };
    AlleleSupport {
        prob_ref_allele: ref_p,
        prob_alt_allele: alt,
        strand: s,
        read_position: Some(qpos),
        third_allele_evidence: None,
    }
}

/// The methylation variant at one CpG locus.
#[derive(Clone, Debug)]
pub struct Methylation {
    pub locus: CpGLocus,
    pub readtype: Readtype,
}

impl Methylation {
    /// Construct the variant for one candidate locus and the sample's
    /// platform.
    pub fn new(locus: CpGLocus, readtype: Readtype) -> (r: Self)
        ensures
            r.locus == locus,
            r.readtype == readtype,
    {
        Methylation { locus, readtype }
    }

    /// A CpG locus is a precise, point-like variant.
    pub fn is_imprecise(&self) -> (r: bool)
        ensures
            !r,
    {
        false
    }

    /// Determine whether the evidence overlaps the locus in a way worth
    /// assessing; `Some` names the single locus as index 0.
    pub fn is_valid_evidence(&self, evidence: &EvidenceUnit) -> (r: Option<Vec<usize>>)
        ensures
            r is Some <==> spec_unit_overlap(*evidence, self.locus),
            r matches Some(v) ==> v@ == seq![0usize],
    {
        let hit = match evidence {
            EvidenceUnit::SingleRead(rec) => self.locus.overlap(rec),
            EvidenceUnit::ReadPair { left, right } => self.locus.overlap(left) || self.locus.overlap(
                right,
            ),
        };
        if hit {
            let mut v: Vec<usize> = Vec::new();
            v.push(0);
            proof {
                assert(v@ =~= seq![0usize]);
            }
            Some(v)
        } else {
            None
        }
    }

    /// The locus this variant evaluates.
    pub fn loci(&self) -> (r: &CpGLocus)
        ensures
            *r == self.locus,
    {
        &self.locus
    }

    /// Resolve one evidence unit against the locus.
    ///
    /// Emits `None` — never a default score — whenever the coordinate
    /// projector yields nothing for every mate, or a projecting,
    /// gate-passing mate carries a mutation artifact, or no mate could
    /// be scored (every projecting mate is flag-rejected, or the
    /// platform's path has no evidence for any of them).  A mate the
    /// validity gate rejects contributes no score and is omitted from
    /// the combination.
    pub fn allele_support(&self, read: &EvidenceUnit) -> (r: Option<AlleleSupport>)
        ensures
            r == spec_allele_support(self.locus, self.readtype, *read),
            // a unit the coordinate projector cannot place yields nothing
            (*read matches EvidenceUnit::SingleRead(rec) && spec_get_qpos(rec, self.locus) is None)
                ==> r is None,
            (*read matches EvidenceUnit::ReadPair { left, right }
                && spec_get_qpos(left, self.locus) is None
                && spec_get_qpos(right, self.locus) is None) ==> r is None,
            // a read the validity gate rejects yields nothing, whatever its bases
            (*read matches EvidenceUnit::SingleRead(rec) && spec_read_invalid(rec.flag))
                ==> r is None,
            (*read matches EvidenceUnit::ReadPair { left, right }
                && spec_read_invalid(left.flag)
                && spec_read_invalid(right.flag)) ==> r is None,
            // a gate-passing read the mutation-artifact detector flags yields nothing
            (*read matches EvidenceUnit::SingleRead(rec)
                && spec_mate_offset(rec, self.locus) matches Some(q)
                && spec_mutation_occurred(spec_read_reverse_strand(rec.flag), rec, q))
                ==> r is None,
            (*read matches EvidenceUnit::ReadPair { left, right }
                && spec_mate_offset(left, self.locus) matches Some(q)
                && !spec_read_invalid(left.flag)
                && spec_mutation_occurred(spec_read_reverse_strand(left.flag), left, q))
                ==> r is None,
            (*read matches EvidenceUnit::ReadPair { left, right }
                && spec_mate_offset(right, self.locus) matches Some(q)
                && !spec_read_invalid(right.flag)
                && spec_mutation_occurred(spec_read_reverse_strand(right.flag), right, q))
                ==> r is None,
    {
        match read {
            EvidenceUnit::SingleRead(record) => {
                let qpos = match mate_offset(record, &self.locus) {
                    Some(q) => q,
                    None => {
                        return None;
                    },
                };
                if mate_blocked(record, &self.locus) {
                    return None;
                }
                let p = match mate_probs(self.readtype, record, &self.locus) {
                    Some(p) => p,
                    None => {
                        return None;
                    },
                };
                let strand = strand_of(record);
                Some(build_support(p.0, p.1, strand, qpos))
            },
            EvidenceUnit::ReadPair { left, right } => {
                let offl = mate_offset(left, &self.locus);
                let offr = mate_offset(right, &self.locus);
                if offl.is_none() && offr.is_none() {
                    return None;
                }
                if mate_blocked(left, &self.locus) || mate_blocked(right, &self.locus) {
                    return None;
                }
                let sl = mate_probs(self.readtype, left, &self.locus);
                let sr = mate_probs(self.readtype, right, &self.locus);
                let anchor_source = if sl.is_some() {
                    offl
                } else {
                    offr
                };
                let anchor = match anchor_source {
                    Some(q) => q,
                    None => {
                        return None;
                    },
                };
                match (sl, sr) {
                    (None, None) => None,
                    (Some(p), None) => Some(build_support(p.0, p.1, strand_of(left), anchor)),
                    (None, Some(p)) => Some(build_support(p.0, p.1, strand_of(right), anchor)),
                    (Some(pl), Some(pr)) => {
                        let alt = combine(pl.0, pr.0);
                        let rf = combine(pl.1, pr.1);
                        let sdl = strand_of(left);
                        let sdr = strand_of(right);
                        let strand = if sdl == sdr {
                            sdl
                        } else {
                            Strand::Both
                        };
                        Some(build_support(alt, rf, strand, anchor))
                    },
                }
            },
        }
    }

    /// A record is as likely to be sampled from the alternative allele as
    /// from the reference: methylation does not change the fragment.
    pub fn prob_sample_alt(&self, _evidence: &EvidenceUnit) -> (r: FracProb)
        ensures
            r == FracProb::spec_one(),
    {
        FracProb::one()
    }

    /// The kind of variant this resolver represents.
    pub fn to_variant_representation(&self) -> (r: VariantRepresentation)
        ensures
            r == VariantRepresentation::Methylation,
    {
        VariantRepresentation::Methylation
    }
}

} // verus!
