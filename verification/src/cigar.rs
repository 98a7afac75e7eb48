//! CIGAR operations and the coordinate projector.
//!
//! The projector maps a reference position to the 0-based offset of the read
//! base aligned to it, walking the read's CIGAR string.  A position that the
//! read's own sequence does not represent (a deletion, a reference skip, a
//! region outside the aligned span, or a malformed CIGAR) projects to
//! nothing.

use vstd::prelude::*;
use vstd::arithmetic::mul::lemma_mul_upper_bound;

verus! {

/// One CIGAR operation, with its length.
#[derive(Clone, Copy, Debug, PartialEq, Eq, Structural)]
pub enum CigarOp {
    /// M: alignment match or mismatch (consumes read and reference).
    Match(u32),
    /// I: insertion into the read (consumes read only).
    Ins(u32),
    /// D: deletion from the read (consumes reference only).
    Del(u32),
    /// N: reference skip, e.g. an intron (consumes reference only).
    RefSkip(u32),
    /// S: soft clip (consumes read only).
    SoftClip(u32),
    /// H: hard clip (consumes neither).
    HardClip(u32),
    /// P: padding (consumes neither).
    Pad(u32),
    /// =: sequence match (consumes read and reference).
    Equal(u32),
    /// X: sequence mismatch (consumes read and reference).
    Diff(u32),
}

/// How many reference bases the operation consumes.
pub open spec fn spec_op_ref_len(op: CigarOp) -> int {
    match op {
        CigarOp::Match(l) => l as int,
        CigarOp::Ins(_) => 0,
        CigarOp::Del(l) => l as int,
        CigarOp::RefSkip(l) => l as int,
        CigarOp::SoftClip(_) => 0,
        CigarOp::HardClip(_) => 0,
        CigarOp::Pad(_) => 0,
        CigarOp::Equal(l) => l as int,
        CigarOp::Diff(l) => l as int,
    }
}

/// How many reference bases a whole CIGAR consumes: the length of the
/// read's aligned span on the reference.
pub open spec fn spec_cigar_ref_len(ops: Seq<CigarOp>) -> int
    decreases ops.len(),
{
    if ops.len() == 0 {
        0
    } else {
        spec_op_ref_len(ops[0]) + spec_cigar_ref_len(ops.skip(1))
    }
}

/// The coordinate projection, one operation at a time.
///
/// `rpos` is the reference coordinate and `qpos` the read offset reached so
/// far; `ref_pos` is the position being projected.  `seen_seq` records
/// whether an operation consuming read sequence has been passed, and `first`
/// whether the current operation is the first of the CIGAR.  The projection
/// yields the read offset aligned to `ref_pos` when `ref_pos` falls inside
/// an alignment-match operation, and nothing when it falls in a deletion or
/// reference skip, lies outside the aligned span, or the CIGAR is malformed
/// (a reference skip before any sequence operation, or a hard clip that is
/// neither leading nor trailing).
pub open spec fn spec_project_rec(
    ops: Seq<CigarOp>,
    ref_pos: int,
    rpos: int,
    qpos: int,
    seen_seq: bool,
    first: bool,
) -> Option<int>
    decreases ops.len(),
{
    if ops.len() == 0 {
        None
    } else {
        let rest = ops.skip(1);
        match ops[0] {
            CigarOp::Match(l) => if rpos <= ref_pos && ref_pos < rpos + l {
                Some(qpos + (ref_pos - rpos))
            } else if ref_pos >= rpos + l {
                spec_project_rec(rest, ref_pos, rpos + l, qpos + l, true, false)
            } else {
                None
            },
            CigarOp::Equal(l) => if rpos <= ref_pos && ref_pos < rpos + l {
                Some(qpos + (ref_pos - rpos))
            } else if ref_pos >= rpos + l {
                spec_project_rec(rest, ref_pos, rpos + l, qpos + l, true, false)
            } else {
                None
            },
            CigarOp::Diff(l) => if rpos <= ref_pos && ref_pos < rpos + l {
                Some(qpos + (ref_pos - rpos))
            } else if ref_pos >= rpos + l {
                spec_project_rec(rest, ref_pos, rpos + l, qpos + l, true, false)
            } else {
                None
            },
            CigarOp::Ins(l) => spec_project_rec(rest, ref_pos, rpos, qpos + l, true, false),
            CigarOp::SoftClip(l) => spec_project_rec(rest, ref_pos, rpos, qpos + l, true, false),
            CigarOp::Del(l) => spec_project_rec(rest, ref_pos, rpos + l, qpos, seen_seq, false),
            CigarOp::RefSkip(l) => if !seen_seq {
                None
            } else {
                spec_project_rec(rest, ref_pos, rpos + l, qpos, seen_seq, false)
            },
            CigarOp::Pad(_) => spec_project_rec(rest, ref_pos, rpos, qpos, seen_seq, false),
            CigarOp::HardClip(_) => if rest.len() == 0 {
                None
            } else if first {
                spec_project_rec(rest, ref_pos, rpos, qpos, seen_seq, false)
            } else {
                None
            },
        }
    }
}

/// The projection of `ref_pos` through a whole CIGAR starting at reference
/// position `pos`.
pub open spec fn spec_project(ops: Seq<CigarOp>, pos: int, ref_pos: int) -> Option<int> {
    spec_project_rec(ops, ref_pos, pos, 0, false, true)
}

/// Walk the CIGAR and project the reference position `ref_pos` onto the
/// read whose alignment starts at reference position `pos`.
pub fn project_read_pos(cigar: &Vec<CigarOp>, pos: u64, ref_pos: u64) -> (r: Option<u128>)
    ensures
        r is Some <==> spec_project(cigar@, pos as int, ref_pos as int) is Some,
        r matches Some(q) ==> spec_project(cigar@, pos as int, ref_pos as int) == Some(q as int),
{
    let ghost full = spec_project(cigar@, pos as int, ref_pos as int);
    proof {
        assert(cigar@.skip(0) =~= cigar@);
    }
    let n = cigar.len();
    let mut rpos: u128 = pos as u128;
    let mut qpos: u128 = 0;
    let mut seen_seq: bool = false;
    let mut j: usize = 0;
    while j < n
        invariant
            n == cigar@.len(),
            j <= n,
            rpos <= pos + j * 0xffff_ffff,
            qpos <= j * 0xffff_ffff,
            full == spec_project(cigar@, pos as int, ref_pos as int),
            full == spec_project_rec(
                cigar@.skip(j as int), ref_pos as int, rpos as int, qpos as int,
                seen_seq, j == 0),
        decreases n - j,
    {
        proof {
            lemma_mul_upper_bound(j as int, usize::MAX as int, 0xffff_ffff, 0xffff_ffff);
            assert(cigar@.skip(j as int)[0] == cigar@[j as int]);
            assert(cigar@.skip(j as int).skip(1) =~= cigar@.skip(j as int + 1));
        }
        let op = cigar[j];
        match op {
            CigarOp::Match(l) | CigarOp::Equal(l) | CigarOp::Diff(l) => {
                if rpos <= ref_pos as u128 && (ref_pos as u128) < rpos + l as u128 {
                    return Some(qpos + (ref_pos as u128 - rpos));
                } else if ref_pos as u128 >= rpos + l as u128 {
                    rpos = rpos + l as u128;
                    qpos = qpos + l as u128;
                    seen_seq = true;
                } else {
                    return None;
                }
            }
            CigarOp::Ins(l) => {
                qpos = qpos + l as u128;
                seen_seq = true;
            }
            CigarOp::SoftClip(l) => {
                qpos = qpos + l as u128;
                seen_seq = true;
            }
            CigarOp::Del(l) => {
                rpos = rpos + l as u128;
            }
            CigarOp::RefSkip(l) => {
                if !seen_seq {
                    return None;
                }
                rpos = rpos + l as u128;
            }
            CigarOp::Pad(_) => {}
            CigarOp::HardClip(_) => {
                if j + 1 == n {
                    return None;
                } else if j != 0 {
                    return None;
                }
            }
        }
        j = j + 1;
    }
    None
}

/// Compute the length of the read's aligned span on the reference.
pub fn cigar_ref_len(cigar: &Vec<CigarOp>) -> (r: u128)
    ensures
        r == spec_cigar_ref_len(cigar@),
        r <= cigar@.len() * 0xffff_ffff,
{
    proof {
        assert(cigar@.skip(0) =~= cigar@);
    }
    let n = cigar.len();
    let mut acc: u128 = 0;
    let mut j: usize = 0;
    while j < n
        invariant
            n == cigar@.len(),
            j <= n,
            acc <= j * 0xffff_ffff,
            spec_cigar_ref_len(cigar@) == acc + spec_cigar_ref_len(cigar@.skip(j as int)),
        decreases n - j,
    {
        proof {
            lemma_mul_upper_bound(j as int, usize::MAX as int, 0xffff_ffff, 0xffff_ffff);
            assert(cigar@.skip(j as int)[0] == cigar@[j as int]);
            assert(cigar@.skip(j as int).skip(1) =~= cigar@.skip(j as int + 1));
        }
        let op = cigar[j];
        match op {
            CigarOp::Match(l) | CigarOp::Equal(l) | CigarOp::Diff(l)
            | CigarOp::Del(l) | CigarOp::RefSkip(l) => {
                acc = acc + l as u128;
            }
            CigarOp::Ins(_) | CigarOp::SoftClip(_) | CigarOp::HardClip(_) | CigarOp::Pad(_) => {}
        }
        j = j + 1;
    }
    acc
}

} // verus!
