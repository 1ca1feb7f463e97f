//! The auxiliary fields of a record as a sequence of named values, and what
//! looking one up, taking one out and adding one do to that sequence.

use vstd::prelude::*;

verus! {

/// One auxiliary field of a record.
pub struct AuxField {
    /// The two letters that name the field.
    pub tag: Seq<u8>,
    /// The letter that gives the type of the value, `Z` for text.
    pub code: u8,
    /// The value as stored, a text without the zero byte that ends it.
    pub value: Seq<u8>,
}

/// The type code of a text, the letter `Z`.
pub const TEXT: u8 = 0x5A;

/// The type code of a text of hexadecimal digits, the letter `H`.
pub const HEX: u8 = 0x48;

/// Whether a value of this type is handed out as text.
pub open spec fn is_text(code: u8) -> bool {
    code == TEXT || code == HEX
}

/// The bytes that a field takes in the auxiliary block: tag, type code, value
/// and, for a text, the zero byte behind it.
pub open spec fn stored_size(field: AuxField) -> int {
    3 + field.value.len() + if is_text(field.code) { 1int } else { 0int }
}

/// Whether `tag` can name a field: two bytes, none of them zero.
pub open spec fn is_tag(tag: Seq<u8>) -> bool {
    tag.len() == 2 && tag[0] != 0 && tag[1] != 0
}

/// The place of the first field named `tag`, or the number of fields where
/// none has that name.
pub open spec fn first_named(fields: Seq<AuxField>, tag: Seq<u8>) -> int
    decreases fields.len(),
{
    if fields.len() == 0 {
        0
    } else if fields[0].tag == tag {
        0
    } else {
        1 + first_named(fields.drop_first(), tag)
    }
}

/// Whether a field named `tag` is among `fields`.
pub open spec fn has_named(fields: Seq<AuxField>, tag: Seq<u8>) -> bool {
    first_named(fields, tag) < fields.len()
}

/// `fields` without the first field named `tag`.
pub open spec fn without_named(fields: Seq<AuxField>, tag: Seq<u8>) -> Seq<AuxField> {
    if has_named(fields, tag) {
        fields.remove(first_named(fields, tag))
    } else {
        fields
    }
}

/// The text of the first field named `tag`, if there is such a field and it
/// holds text.
pub open spec fn text_named(fields: Seq<AuxField>, tag: Seq<u8>) -> Option<Seq<u8>> {
    let at = first_named(fields, tag);
    if at < fields.len() && is_text(fields[at].code) {
        Some(fields[at].value)
    } else {
        None
    }
}

/// The field that holds `text` under `tag`.
pub open spec fn text_field(tag: Seq<u8>, text: Seq<u8>) -> AuxField {
    AuxField { tag, code: TEXT, value: text }
}

/// Whether exactly one of `fields` is named `tag`.
pub open spec fn named_once(fields: Seq<AuxField>, tag: Seq<u8>) -> bool {
    has_named(fields, tag) && !has_named(without_named(fields, tag), tag)
}

/// The first field named `tag` has that name, and no field before it has.
pub proof fn lemma_first_named(fields: Seq<AuxField>, tag: Seq<u8>)
    ensures
        0 <= first_named(fields, tag) <= fields.len(),
        has_named(fields, tag) ==> fields[first_named(fields, tag)].tag == tag,
        forall|i: int| 0 <= i < first_named(fields, tag) ==> (#[trigger] fields[i]).tag != tag,
    decreases fields.len(),
{
    if fields.len() > 0 && fields[0].tag != tag {
        let rest = fields.drop_first();
        lemma_first_named(rest, tag);
        assert forall|i: int| 0 <= i < first_named(fields, tag) implies (#[trigger] fields[
            i
        ]).tag != tag by {
            if i > 0 {
                assert(fields[i] == rest[i - 1]);
            }
        }
    }
}

/// A place that holds the name, or the end, with no field of that name
/// before it, is where `first_named` points.
pub proof fn lemma_first_named_at(fields: Seq<AuxField>, tag: Seq<u8>, at: int)
    requires
        0 <= at <= fields.len(),
        at < fields.len() ==> fields[at].tag == tag,
        forall|i: int| 0 <= i < at ==> (#[trigger] fields[i]).tag != tag,
    ensures
        first_named(fields, tag) == at,
{
    lemma_first_named(fields, tag);
    let found = first_named(fields, tag);
    if found < at {
        assert(fields[found].tag != tag);
    }
    if at < found {
        assert(fields[at].tag != tag);
    }
}

/// Taking out the first field of one name leaves the first field of every
/// other name what it was.
pub proof fn lemma_without_other(fields: Seq<AuxField>, gone: Seq<u8>, kept: Seq<u8>)
    requires
        gone != kept,
    ensures
        has_named(without_named(fields, gone), kept) == has_named(fields, kept),
        has_named(fields, kept) ==> without_named(fields, gone)[first_named(
            without_named(fields, gone),
            kept,
        )] == fields[first_named(fields, kept)],
        text_named(without_named(fields, gone), kept) == text_named(fields, kept),
        has_named(fields, gone) ==> first_named(without_named(fields, gone), kept) == if first_named(
            fields,
            kept,
        ) < first_named(fields, gone) {
            first_named(fields, kept)
        } else {
            first_named(fields, kept) - 1
        },
{
    lemma_first_named(fields, gone);
    lemma_first_named(fields, kept);
    if has_named(fields, gone) {
        let out = first_named(fields, gone);
        let at = first_named(fields, kept);
        let left = fields.remove(out);
        let moved = if at < out {
            at
        } else {
            at - 1
        };
        assert forall|i: int| 0 <= i < moved implies (#[trigger] left[i]).tag != kept by {
            if i < out {
                assert(left[i] == fields[i]);
            } else {
                assert(left[i] == fields[i + 1]);
            }
        }
        if at < fields.len() {
            assert(left[moved] == fields[at]);
        }
        lemma_first_named_at(left, kept, moved);
    }
}

/// Two fields of different names can be taken out in either order.
pub proof fn lemma_without_commutes(fields: Seq<AuxField>, a: Seq<u8>, b: Seq<u8>)
    requires
        a != b,
    ensures
        without_named(without_named(fields, a), b) == without_named(without_named(fields, b), a),
{
    lemma_first_named(fields, a);
    lemma_first_named(fields, b);
    lemma_without_other(fields, a, b);
    lemma_without_other(fields, b, a);
    assert(without_named(without_named(fields, a), b) =~= without_named(
        without_named(fields, b),
        a,
    ));
}

/// A field added at the end is the first of its name where no field had that
/// name, and leaves the first field of every name that was there in place.
pub proof fn lemma_push_named(fields: Seq<AuxField>, field: AuxField, tag: Seq<u8>)
    ensures
        has_named(fields, tag) ==> first_named(fields.push(field), tag) == first_named(fields, tag),
        !has_named(fields, tag) && field.tag == tag ==> first_named(fields.push(field), tag)
            == fields.len(),
        !has_named(fields, tag) && field.tag != tag ==> !has_named(fields.push(field), tag),
{
    lemma_first_named(fields, tag);
    let more = fields.push(field);
    let at = first_named(fields, tag);
    assert forall|i: int| 0 <= i < at implies (#[trigger] more[i]).tag != tag by {
        assert(more[i] == fields[i]);
    }
    if at < fields.len() {
        assert(more[at] == fields[at]);
        lemma_first_named_at(more, tag, at);
    } else if field.tag == tag {
        lemma_first_named_at(more, tag, at);
    } else {
        lemma_first_named_at(more, tag, at + 1);
    }
}

} // verus!
