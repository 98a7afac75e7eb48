//! SAM-flag interpretation: the read validity gate and the strand classifier.

use vstd::prelude::*;

verus! {

/// Template having multiple segments (the read is paired).
pub const FLAG_PAIRED: u16 = 0x1;
/// Each segment properly aligned according to the aligner.
pub const FLAG_PROPER_PAIR: u16 = 0x2;
/// The read itself maps to the reverse strand.
pub const FLAG_READ_REVERSE: u16 = 0x10;
/// The mate maps to the reverse strand.
pub const FLAG_MATE_REVERSE: u16 = 0x20;
/// The read is the first segment of its pair.
pub const FLAG_FIRST_IN_PAIR: u16 = 0x40;
/// The read is the last segment of its pair.
pub const FLAG_SECOND_IN_PAIR: u16 = 0x80;

/// Which physical strand carries the informative base of the CpG site.
///
/// For a properly paired read the informative strand is reverse exactly when
/// the read maps reverse and is first in its pair, or the mate maps reverse
/// and the read is second in its pair; otherwise it is forward.  For any
/// other read the informative strand is simply the read's own orientation.
pub open spec fn spec_read_reverse_strand(flag: u16) -> bool {
    if flag & FLAG_PAIRED != 0 && flag & FLAG_PROPER_PAIR != 0 {
        (flag & FLAG_READ_REVERSE != 0 && flag & FLAG_FIRST_IN_PAIR != 0)
        || (flag & FLAG_MATE_REVERSE != 0 && flag & FLAG_SECOND_IN_PAIR != 0)
    } else {
        flag & FLAG_READ_REVERSE != 0
    }
}

/// Decide from the SAM flag whether the read's informative base lies on the
/// reverse strand.
pub fn read_reverse_strand(flag: u16) -> (r: bool)
    ensures
        r == spec_read_reverse_strand(flag),
{
    if flag & FLAG_PAIRED != 0 && flag & FLAG_PROPER_PAIR != 0 {
        (flag & FLAG_READ_REVERSE != 0 && flag & FLAG_FIRST_IN_PAIR != 0)
            || (flag & FLAG_MATE_REVERSE != 0 && flag & FLAG_SECOND_IN_PAIR != 0)
    } else {
        flag & FLAG_READ_REVERSE != 0
    }
}

/// The flag allow-list.  Only six flag values are trusted for methylation
/// evidence: 0 and 16 (unpaired reads, forward and reverse) and 99, 147, 83,
/// 163 (the four orientations of a properly paired, primary, non-duplicate,
/// QC-passed mate pair).  Everything else, in particular unmapped, secondary,
/// supplementary, duplicate or QC-failed reads and improper pairs, is
/// rejected.
pub open spec fn spec_read_invalid(flag: u16) -> bool {
    !(flag == 0 || flag == 16 || flag == 99 || flag == 83 || flag == 147 || flag == 163)
}

/// The read validity gate: reject any read whose flag is not on the
/// allow-list.
pub fn read_invalid(flag: u16) -> (r: bool)
    ensures
        r == spec_read_invalid(flag),
{
    !(flag == 0 || flag == 16 || flag == 99 || flag == 83 || flag == 147 || flag == 163)
}

} // verus!
