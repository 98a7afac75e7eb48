//! Calibrated per-read evidence for CpG methylation calling.
//!
//! Given a candidate CpG locus on the reference genome and one aligned read
//! (or a mate pair) covering it, this crate produces probabilistic support
//! for the "methylated" versus "unmethylated" hypothesis at that site, as a
//! single evidence record, or "no evidence" when the read offers none.

pub mod bases;
pub mod cigar;
pub mod flags;
pub mod prob;
pub mod record;
pub mod resolver;
pub mod tags;
