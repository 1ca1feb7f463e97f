//! The alignment record of `rust_htslib` and the few of its methods that this
//! crate calls. Nothing in this file is proved: each contract states what the
//! method does as its source shows it.

use crate::fields::{
    first_named, has_named, is_tag, stored_size, text_field, text_named, without_named, AuxField,
};
use rust_htslib::bam::record::Aux;
use rust_htslib::bam::Record;
use vstd::prelude::*;

verus! {

/// `rust_htslib::bam::Record`, a BAM record as htslib holds it in memory.
#[verifier::external_type_specification]
#[verifier::external_body]
pub struct ExRecord(rust_htslib::bam::Record);

/// The flag bits of a record.
pub uninterp spec fn record_flags(record: Record) -> u16;

/// The CIGAR of a record, each operation packed into one word as BAM does.
pub uninterp spec fn record_cigar(record: Record) -> Seq<u32>;

/// What a record holds besides its auxiliary block and the length of its
/// data: the fixed fields, the name, the CIGAR, the sequence and the
/// qualities, in the bytes that BAM stores them in.
pub uninterp spec fn record_body(record: Record) -> Seq<u8>;

/// The auxiliary fields that a walk through the record's auxiliary block
/// finds, front to back, up to the end of the block or to the first field
/// that is not whole.
pub uninterp spec fn record_aux(record: Record) -> Seq<AuxField>;

/// Whether the fields of `record_aux` fill the auxiliary block to its last
/// byte, so that a field written behind the block is found behind them.
pub uninterp spec fn record_aux_intact(record: Record) -> bool;

/// The number of bytes of the record's data of variable length: name, CIGAR,
/// sequence, qualities and auxiliary block.
pub uninterp spec fn record_data_len(record: Record) -> i32;

/// The mask of the flag bit that marks a supplementary alignment.
pub const SUPPLEMENTARY: u16 = 0x800;

/// `Record::is_supplementary`: whether the flag bit 0x800 is set.
#[verifier::external_body]
pub(crate) fn is_supplementary(record: &Record) -> (set: bool)
    ensures
        set == (record_flags(*record) & SUPPLEMENTARY != 0),
{
    record.is_supplementary()
}

/// `Record::raw_cigar`: the packed CIGAR operations, in a vector of their own.
/// The method makes a slice of the record's data, which a record that was
/// never given any does not have. It is called only on a record in which an
/// auxiliary field was found: such a record has data, and its name and CIGAR
/// lie inside them.
#[verifier::external_body]
pub(crate) fn raw_cigar(record: &Record) -> (words: Vec<u32>)
    requires
        record_aux(*record).len() > 0,
    ensures
        words@ == record_cigar(*record),
{
    record.raw_cigar().to_vec()
}

/// `Record::aux`, narrowed to text: htslib looks for the first field named
/// `tag`, and the method hands out the bytes of a `Z` or `H` value up to its
/// zero byte. A field of another type, or none, gives `None`. The method
/// panics on a zero byte in the tag.
#[verifier::external_body]
pub(crate) fn aux_text(record: &Record, tag: [u8; 2]) -> (text: Option<Vec<u8>>)
    requires
        is_tag(tag@),
    ensures
        match text {
            Some(bytes) => text_named(record_aux(*record), tag@) == Some(bytes@)
                && forall|i: int| 0 <= i < bytes@.len() ==> bytes@[i] != 0,
            None => text_named(record_aux(*record), tag@) is None,
        },
{
    match record.aux(&tag) {
        Some(Aux::String(bytes)) => Some(bytes.to_vec()),
        _ => None,
    }
}

/// `Record::remove_aux`: htslib looks for the first field named `tag` and
/// closes the block over it. The answer says whether there was one. The rest
/// of the record stays as it is, and the data shrinks by the bytes of that
/// field. The method panics on a zero byte in the tag.
#[verifier::external_body]
pub(crate) fn remove_aux(record: &mut Record, tag: [u8; 2]) -> (removed: bool)
    requires
        is_tag(tag@),
    ensures
        removed == has_named(record_aux(*old(record)), tag@),
        !removed ==> *final(record) == *old(record),
        record_aux(*final(record)) == without_named(record_aux(*old(record)), tag@),
        record_aux_intact(*final(record)) == record_aux_intact(*old(record)),
        record_flags(*final(record)) == record_flags(*old(record)),
        record_cigar(*final(record)) == record_cigar(*old(record)),
        record_body(*final(record)) == record_body(*old(record)),
        removed ==> ({
            let gone = record_aux(*old(record))[first_named(record_aux(*old(record)), tag@)];
            &&& 0 <= record_data_len(*final(record))
            &&& record_data_len(*final(record)) + stored_size(gone) == record_data_len(
                *old(record),
            )
        }),
{
    record.remove_aux(&tag)
}

/// `Record::push_aux` with a text: htslib writes tag, `Z`, the bytes and a zero
/// byte behind the record's data. The method panics on a zero byte in the
/// text and where the data would grow past `i32::MAX` bytes.
#[verifier::external_body]
pub(crate) fn push_text(record: &mut Record, tag: [u8; 2], text: &[u8])
    requires
        is_tag(tag@),
        forall|i: int| 0 <= i < text@.len() ==> text@[i] != 0,
        0 <= record_data_len(*old(record)),
        record_data_len(*old(record)) + text@.len() + 4 <= i32::MAX,
    ensures
        record_aux_intact(*old(record)) ==> record_aux_intact(*final(record)) && record_aux(
            *final(record),
        ) == record_aux(*old(record)).push(text_field(tag@, text@)),
        record_flags(*final(record)) == record_flags(*old(record)),
        record_cigar(*final(record)) == record_cigar(*old(record)),
        record_body(*final(record)) == record_body(*old(record)),
        record_data_len(*final(record)) == record_data_len(*old(record)) + text@.len() + 4,
{
    record.push_aux(&tag, &Aux::String(text))
}

} // verus!
