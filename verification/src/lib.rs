//! Trims the per-base insertion and deletion qualities of supplementary
//! alignments to the part of the read that the record stores.
//!
//! Consensus callers may copy the `BI` and `BD` fields of a read into each of
//! its alignments as they are. Where an alignment is hard-clipped the two
//! fields are then longer than its sequence. This crate cuts them back to the
//! stored bases.

pub mod cigar;
pub mod driver;
pub mod extent;
pub mod fields;
pub mod record;
pub mod rewrite;
