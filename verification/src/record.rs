//! The data the resolver works on: reads, loci and evidence units.

use vstd::prelude::*;
use vstd::arithmetic::mul::lemma_mul_upper_bound;
use crate::cigar::{CigarOp, spec_project, project_read_pos, spec_cigar_ref_len, cigar_ref_len};

verus! {

/// One aligned sequencing read, reduced to the plain values the resolver
/// reads: base sequence, per-base quality scores, CIGAR operations, SAM
/// flag bits, 0-based reference position of the alignment start, and the
/// two optional auxiliary modification tags of long-read platforms (the
/// raw skip-encoded modified-base tag and the per-call probability bytes).
/// The resolver never mutates a record.
#[derive(Clone, Debug)]
pub struct ReadRecord {
    pub seq: Vec<u8>,
    pub qual: Vec<u8>,
    pub cigar: Vec<CigarOp>,
    pub flag: u16,
    pub pos: u64,
    pub mm: Option<Vec<u8>>,
    pub ml: Option<Vec<u8>>,
}

/// A candidate CpG site: the 2-base half-open reference interval
/// `[start, start + 2)` holding the C and the G on the forward strand.
#[derive(Clone, Debug)]
pub struct CpGLocus {
    pub contig: String,
    pub start: u64,
}

/// One observation unit offered to the resolver: a single read, or the two
/// mates of a pair.
#[derive(Clone, Debug)]
pub enum EvidenceUnit {
    SingleRead(ReadRecord),
    ReadPair { left: ReadRecord, right: ReadRecord },
}

/// The projection of the locus start onto the read, bounded by the read's
/// own sequence: an offset that the projector yields but the sequence does
/// not hold is unavailable, never an out-of-range index.
pub open spec fn spec_get_qpos(read: ReadRecord, locus: CpGLocus) -> Option<int> {
    match spec_project(read.cigar@, read.pos as int, locus.start as int) {
        Some(q) => if q < read.seq@.len() {
            Some(q)
        } else {
            None
        },
        None => None,
    }
}

/// Position of the CpG site in the read: the 0-based read offset aligned to
/// the locus start, when the read's own sequence represents that position.
pub fn get_qpos(read: &ReadRecord, locus: &CpGLocus) -> (r: Option<usize>)
    ensures
        r is Some <==> spec_get_qpos(*read, *locus) is Some,
        r matches Some(q) ==> spec_get_qpos(*read, *locus) == Some(q as int) && q < read.seq@.len(),
{
    match project_read_pos(&read.cigar, read.pos, locus.start) {
        Some(q) => {
            if q < read.seq.len() as u128 {
                Some(q as usize)
            } else {
                None
            }
        }
        None => None,
    }
}

/// The exclusive end of the read's aligned span on the reference.
pub open spec fn spec_ref_end(read: ReadRecord) -> int {
    read.pos + spec_cigar_ref_len(read.cigar@)
}

/// The read's aligned reference span intersects the locus interval.
pub open spec fn spec_overlap(read: ReadRecord, locus: CpGLocus) -> bool {
    read.pos < locus.start + 2 && locus.start < spec_ref_end(read)
}

impl CpGLocus {
    /// Does the read's aligned reference span intersect this locus?
    pub fn overlap(&self, read: &ReadRecord) -> (r: bool)
        ensures
            r == spec_overlap(*read, *self),
    {
        let n_ops = read.cigar.len();
        proof {
            lemma_mul_upper_bound(n_ops as int, usize::MAX as int, 0xffff_ffff, 0xffff_ffff);
        }
        let end: u128 = read.pos as u128 + cigar_ref_len(&read.cigar);
        (read.pos as u128) < self.start as u128 + 2 && (self.start as u128) < end
    }
}

} // verus!
