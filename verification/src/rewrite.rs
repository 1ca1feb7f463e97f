//! Cutting the `BI` and `BD` texts of one record back to the stored part of
//! its read.

use crate::cigar::{all_known, unpacked_all, CigarOp};
use crate::extent::{compute_extent, extent, leading_clip, trailing_clip};
use crate::fields::{
    first_named, has_named, lemma_first_named, lemma_push_named, lemma_without_commutes,
    lemma_without_other, named_once, text_field, text_named, without_named, AuxField,
};
use crate::record::{
    aux_text, is_supplementary, push_text, raw_cigar, record_aux, record_aux_intact,
    record_body, record_cigar, record_data_len, record_flags, remove_aux, SUPPLEMENTARY,
};
use rust_htslib::bam::Record;
use vstd::prelude::*;
use vstd::slice::slice_subrange;

verus! {

/// The name of the field of insertion qualities, the letters `BI`.
pub const BI: [u8; 2] = [0x42, 0x49];

/// The name of the field of deletion qualities, the letters `BD`.
pub const BD: [u8; 2] = [0x42, 0x44];

/// Why a supplementary record could not be rewritten.
#[derive(Clone, Copy, Debug, PartialEq, Eq, Structural)]
pub enum RewriteError {
    /// The record has no `BI` field that holds text.
    MissingBi,
    /// The record has no `BD` field that holds text.
    MissingBd,
    /// The CIGAR holds an operation code above 8.
    UnknownCigarOperation,
    /// The hard clips cut off more bases than the `BI` text has.
    ClipsExceedLength,
    /// The `BD` text ends before the stored part of the read does.
    ShortBd,
    /// A field that was read a moment ago could not be removed. What is
    /// known of the record's methods rules this out, and `rewrite` tests for
    /// it all the same.
    RemovalFailed,
}

/// What became of a record.
#[derive(Clone, Copy, Debug, PartialEq, Eq, Structural)]
pub enum RewriteOutcome {
    /// The record is no supplementary alignment and was left alone.
    Unchanged,
    /// The two texts were cut to the stored part of the read.
    Rewritten,
    /// The record is a supplementary alignment and cannot be rewritten. It
    /// was left alone.
    Failed(RewriteError),
}

/// The texts `bi` and `bd` of a read with the packed CIGAR `cigar`, each cut
/// to the range that the hard clips leave of a read as long as `bi`.
pub open spec fn trimmed(cigar: Seq<u32>, bi: Seq<u8>, bd: Seq<u8>) -> Result<
    (Seq<u8>, Seq<u8>),
    RewriteError,
> {
    if !all_known(cigar) {
        Err(RewriteError::UnknownCigarOperation)
    } else {
        match extent(unpacked_all(cigar), bi.len()) {
            None => Err(RewriteError::ClipsExceedLength),
            Some((start, end)) => if end > bd.len() {
                Err(RewriteError::ShortBd)
            } else {
                Ok((bi.subrange(start as int, end as int), bd.subrange(start as int, end as int)))
            },
        }
    }
}

/// Cuts the two texts of a read to the range that the hard clips of its
/// CIGAR leave. The length of `bi` stands for the length of the read.
pub fn trim<'a>(cigar: &[u32], bi: &'a [u8], bd: &'a [u8]) -> (cut: Result<
    (&'a [u8], &'a [u8]),
    RewriteError,
>)
    ensures
        trimmed(cigar@, bi@, bd@) == (match cut {
            Ok((new_bi, new_bd)) => Ok((new_bi@, new_bd@)),
            Err(error) => Err(error),
        }),
{
    let ops = match CigarOp::unpack_all(cigar) {
        Some(ops) => ops,
        None => {
            return Err(RewriteError::UnknownCigarOperation);
        },
    };
    let (start, end) = match compute_extent(ops.as_slice(), bi.len()) {
        Some(range) => range,
        None => {
            return Err(RewriteError::ClipsExceedLength);
        },
    };
    if end > bd.len() {
        return Err(RewriteError::ShortBd);
    }
    Ok((slice_subrange(bi, start, end), slice_subrange(bd, start, end)))
}

/// What `rewrite` makes of a record.
pub open spec fn outcome_of(record: Record) -> RewriteOutcome {
    if record_flags(record) & SUPPLEMENTARY == 0 {
        RewriteOutcome::Unchanged
    } else {
        match text_named(record_aux(record), BI@) {
            None => RewriteOutcome::Failed(RewriteError::MissingBi),
            Some(bi) => match text_named(record_aux(record), BD@) {
                None => RewriteOutcome::Failed(RewriteError::MissingBd),
                Some(bd) => match trimmed(record_cigar(record), bi, bd) {
                    Err(error) => RewriteOutcome::Failed(error),
                    Ok(_) => RewriteOutcome::Rewritten,
                },
            },
        }
    }
}

/// The two texts that `rewrite` gives a record, for one that it rewrites.
pub open spec fn new_texts(record: Record) -> (Seq<u8>, Seq<u8>) {
    trimmed(
        record_cigar(record),
        text_named(record_aux(record), BI@).unwrap(),
        text_named(record_aux(record), BD@).unwrap(),
    ).unwrap()
}

/// The auxiliary fields of a record that `rewrite` has rewritten: those it
/// had, without the first `BI` and the first `BD`, and behind them the two
/// texts cut to size, `BI` before `BD`.
pub open spec fn new_aux(record: Record) -> Seq<AuxField> {
    without_named(without_named(record_aux(record), BI@), BD@).push(
        text_field(BI@, new_texts(record).0),
    ).push(text_field(BD@, new_texts(record).1))
}

/// How a rewritten record differs from what it was: all but the auxiliary
/// block stays, the auxiliary fields become `new_aux`, and the data shrinks
/// by what was cut from the two texts.
pub open spec fn is_rewrite(before: Record, after: Record) -> bool {
    let bi = text_named(record_aux(before), BI@).unwrap();
    let bd = text_named(record_aux(before), BD@).unwrap();
    let (new_bi, new_bd) = new_texts(before);
    &&& record_flags(after) == record_flags(before)
    &&& record_cigar(after) == record_cigar(before)
    &&& record_body(after) == record_body(before)
    &&& record_aux_intact(before) ==> record_aux_intact(after) && record_aux(after) == new_aux(
        before,
    )
    &&& record_data_len(after) == record_data_len(before) - (bi.len() - new_bi.len()) - (bd.len()
        - new_bd.len())
}

/// Cuts the `BI` and `BD` texts of a supplementary alignment to the stored
/// part of its read, and leaves every other record alone.
///
/// The length of the `BI` text stands for the length of the read before
/// clipping. The two fields are taken out and put back at the end of the
/// auxiliary block. A record that cannot be rewritten is not touched.
///
/// A record is meant to be rewritten once. A second call takes the text that
/// was cut for the whole read and cuts it again.
pub fn rewrite(record: &mut Record) -> (outcome: RewriteOutcome)
    ensures
        outcome == outcome_of(*old(record)),
        outcome != RewriteOutcome::Failed(RewriteError::RemovalFailed),
        outcome is Rewritten ==> is_rewrite(*old(record), *final(record)),
        !(outcome is Rewritten) ==> *final(record) == *old(record),
{
    if !is_supplementary(record) {
        return RewriteOutcome::Unchanged;
    }
    let bi = match aux_text(record, BI) {
        Some(text) => text,
        None => {
            return RewriteOutcome::Failed(RewriteError::MissingBi);
        },
    };
    let bd = match aux_text(record, BD) {
        Some(text) => text,
        None => {
            return RewriteOutcome::Failed(RewriteError::MissingBd);
        },
    };
    proof {
        lemma_first_named(record_aux(*record), BI@);
    }
    let cigar = raw_cigar(record);
    let (new_bi, new_bd) = match trim(cigar.as_slice(), bi.as_slice(), bd.as_slice()) {
        Ok(texts) => texts,
        Err(error) => {
            return RewriteOutcome::Failed(error);
        },
    };
    proof {
        lemma_without_other(record_aux(*record), BI@, BD@);
    }
    if !remove_aux(record, BI) {
        return RewriteOutcome::Failed(RewriteError::RemovalFailed);
    }
    if !remove_aux(record, BD) {
        return RewriteOutcome::Failed(RewriteError::RemovalFailed);
    }
    push_text(record, BI, new_bi);
    push_text(record, BD, new_bd);
    RewriteOutcome::Rewritten
}

/// A rewritten record holds under `BI` and under `BD` the text that it held
/// there, cut to the range between the hard clips of its CIGAR. The two texts
/// are as long as that range: as long as the `BI` text was, less the bases
/// that the hard clips cut off. This is said of a record that had one field
/// of each name in an auxiliary block that was whole.
pub proof fn lemma_rewritten_texts(before: Record, after: Record)
    requires
        outcome_of(before) is Rewritten,
        is_rewrite(before, after),
        record_aux_intact(before),
        named_once(record_aux(before), BI@),
        named_once(record_aux(before), BD@),
    ensures
        ({
            let bi = text_named(record_aux(before), BI@).unwrap();
            let bd = text_named(record_aux(before), BD@).unwrap();
            let (start, end) = extent(unpacked_all(record_cigar(before)), bi.len()).unwrap();
            &&& start <= end <= bi.len()
            &&& end <= bd.len()
            &&& text_named(record_aux(after), BI@) == Some(bi.subrange(start as int, end as int))
            &&& text_named(record_aux(after), BD@) == Some(bd.subrange(start as int, end as int))
            &&& text_named(record_aux(after), BI@).unwrap().len() == end - start
            &&& text_named(record_aux(after), BD@).unwrap().len() == end - start
            &&& end - start == bi.len() - leading_clip(unpacked_all(record_cigar(before)))
                - trailing_clip(unpacked_all(record_cigar(before)))
        }),
{
    let fields = record_aux(before);
    let rest = without_named(without_named(fields, BI@), BD@);
    let new_bi = text_field(BI@, new_texts(before).0);
    let new_bd = text_field(BD@, new_texts(before).1);
    lemma_without_other(without_named(fields, BI@), BD@, BI@);
    lemma_without_commutes(fields, BI@, BD@);
    lemma_without_other(without_named(fields, BD@), BI@, BD@);
    lemma_push_named(rest, new_bi, BI@);
    lemma_push_named(rest, new_bi, BD@);
    lemma_push_named(rest.push(new_bi), new_bd, BI@);
    lemma_push_named(rest.push(new_bi), new_bd, BD@);
}

/// A rewritten record holds under every name but `BI` and `BD` the field that
/// it held there. This is said of a record whose auxiliary block was whole.
pub proof fn lemma_rewrite_keeps_others(before: Record, after: Record, tag: Seq<u8>)
    requires
        outcome_of(before) is Rewritten,
        is_rewrite(before, after),
        record_aux_intact(before),
        tag != BI@,
        tag != BD@,
    ensures
        has_named(record_aux(after), tag) == has_named(record_aux(before), tag),
        has_named(record_aux(before), tag) ==> record_aux(after)[first_named(
            record_aux(after),
            tag,
        )] == record_aux(before)[first_named(record_aux(before), tag)],
{
    let fields = record_aux(before);
    let less = without_named(fields, BI@);
    let rest = without_named(less, BD@);
    let new_bi = text_field(BI@, new_texts(before).0);
    let new_bd = text_field(BD@, new_texts(before).1);
    lemma_without_other(fields, BI@, tag);
    lemma_without_other(less, BD@, tag);
    lemma_first_named(rest, tag);
    lemma_push_named(rest, new_bi, tag);
    lemma_first_named(rest.push(new_bi), tag);
    lemma_push_named(rest.push(new_bi), new_bd, tag);
}

} // verus!
