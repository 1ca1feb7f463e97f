//! The part of a read that an alignment stores: what its CIGAR leaves between
//! the hard clips at its two ends.

use crate::cigar::CigarOp;
use vstd::prelude::*;

verus! {

/// The bases that the hard clips at the front of `ops` cut off: the lengths
/// of the operations before the first that is no hard clip, added up.
pub open spec fn leading_clip(ops: Seq<CigarOp>) -> nat
    decreases ops.len(),
{
    if ops.len() > 0 && ops.first().is_hard_clip() {
        ops.first().len as nat + leading_clip(ops.drop_first())
    } else {
        0
    }
}

/// The bases that the hard clips at the back of `ops` cut off: the lengths of
/// the operations behind the last that is no hard clip, added up.
pub open spec fn trailing_clip(ops: Seq<CigarOp>) -> nat
    decreases ops.len(),
{
    if ops.len() > 0 && ops.last().is_hard_clip() {
        ops.last().len as nat + trailing_clip(ops.drop_last())
    } else {
        0
    }
}

/// The half-open range of a read of `len` bases that lies between its hard
/// clips, where the clips leave one.
pub open spec fn extent(ops: Seq<CigarOp>, len: nat) -> Option<(nat, nat)> {
    if leading_clip(ops) + trailing_clip(ops) <= len {
        Some((leading_clip(ops), (len - trailing_clip(ops)) as nat))
    } else {
        None
    }
}

/// Whether no operation of `ops` is a hard clip.
pub open spec fn no_hard_clip(ops: Seq<CigarOp>) -> bool {
    forall|i: int| 0 <= i < ops.len() ==> !(#[trigger] ops[i]).is_hard_clip()
}

/// Finds the stored part of a read of `seq_len` bases: from the end of the
/// hard clips at the front of `cigar_ops` to the start of those at the back.
/// Hard clips that cut off more than `seq_len` bases leave no range. In a
/// CIGAR of hard clips alone each clip stands at the front and at the back,
/// and counts at both.
pub fn compute_extent(cigar_ops: &[CigarOp], seq_len: usize) -> (found: Option<(usize, usize)>)
    ensures
        match found {
            Some((start, end)) => extent(cigar_ops@, seq_len as nat) == Some(
                (start as nat, end as nat),
            ) && start <= end <= seq_len,
            None => extent(cigar_ops@, seq_len as nat) is None,
        },
{
    let ghost ops = cigar_ops@;
    let mut front: usize = 0;
    let mut at: usize = 0;
    assert(ops.skip(0) =~= ops);
    while at < cigar_ops.len() && cigar_ops[at].hard_clip()
        invariant
            ops == cigar_ops@,
            at <= ops.len(),
            front <= seq_len,
            leading_clip(ops) == front + leading_clip(ops.skip(at as int)),
        decreases ops.len() - at,
    {
        let len: usize = cigar_ops[at].len as usize;
        proof {
            assert(ops.skip(at as int).first() == ops[at as int]);
            assert(ops.skip(at as int).drop_first() =~= ops.skip(at + 1));
        }
        if len > seq_len - front {
            return None;
        }
        front += len;
        at += 1;
    }
    proof {
        if at < ops.len() {
            assert(ops.skip(at as int).first() == ops[at as int]);
        }
    }
    let mut back: usize = 0;
    let mut end: usize = cigar_ops.len();
    assert(ops.take(end as int) =~= ops);
    while end > 0 && cigar_ops[end - 1].hard_clip()
        invariant
            ops == cigar_ops@,
            end <= ops.len(),
            front + back <= seq_len,
            leading_clip(ops) == front,
            trailing_clip(ops) == back + trailing_clip(ops.take(end as int)),
        decreases end,
    {
        let len: usize = cigar_ops[end - 1].len as usize;
        proof {
            assert(ops.take(end as int).last() == ops[end - 1]);
            assert(ops.take(end as int).drop_last() =~= ops.take(end - 1));
        }
        if len > seq_len - front - back {
            return None;
        }
        back += len;
        end -= 1;
    }
    proof {
        if end > 0 {
            assert(ops.take(end as int).last() == ops[end - 1]);
        }
    }
    Some((front, seq_len - back))
}

/// A CIGAR without hard clips leaves the whole read.
pub proof fn lemma_extent_unclipped(ops: Seq<CigarOp>, len: nat)
    requires
        no_hard_clip(ops),
    ensures
        extent(ops, len) == Some((0nat, len)),
{
    if ops.len() > 0 {
        assert(!ops[0].is_hard_clip());
        assert(!ops[ops.len() - 1].is_hard_clip());
    }
}

/// A CIGAR that starts with one hard clip of `k` bases and does not end with
/// a hard clip leaves the read from `k` on.
pub proof fn lemma_extent_front_clip(ops: Seq<CigarOp>, len: nat, k: u32)
    requires
        ops.len() >= 2,
        ops.first().is_hard_clip(),
        ops.first().len == k,
        !ops[1].is_hard_clip(),
        !ops.last().is_hard_clip(),
        k <= len,
    ensures
        extent(ops, len) == Some((k as nat, len)),
{
    assert(ops.drop_first().first() == ops[1]);
    assert(leading_clip(ops.drop_first()) == 0);
}

/// A CIGAR that ends with one hard clip of `k` bases and does not start with
/// a hard clip leaves the read up to its last `k` bases.
pub proof fn lemma_extent_back_clip(ops: Seq<CigarOp>, len: nat, k: u32)
    requires
        ops.len() >= 2,
        !ops.first().is_hard_clip(),
        !ops[ops.len() - 2].is_hard_clip(),
        ops.last().is_hard_clip(),
        ops.last().len == k,
        k <= len,
    ensures
        extent(ops, len) == Some((0nat, (len - k) as nat)),
{
    assert(ops.drop_last().last() == ops[ops.len() - 2]);
    assert(trailing_clip(ops.drop_last()) == 0);
}

/// A CIGAR with one hard clip of `a` bases at its front and one of `b` bases
/// at its back leaves the `len - a - b` bases between them.
pub proof fn lemma_extent_both_clips(ops: Seq<CigarOp>, len: nat, a: u32, b: u32)
    requires
        ops.len() >= 3,
        ops.first().is_hard_clip(),
        ops.first().len == a,
        !ops[1].is_hard_clip(),
        !ops[ops.len() - 2].is_hard_clip(),
        ops.last().is_hard_clip(),
        ops.last().len == b,
        a + b <= len,
    ensures
        extent(ops, len) == Some((a as nat, (len - b) as nat)),
        extent(ops, len).unwrap().1 - extent(ops, len).unwrap().0 == len - a - b,
{
    assert(ops.drop_first().first() == ops[1]);
    assert(leading_clip(ops.drop_first()) == 0);
    assert(ops.drop_last().last() == ops[ops.len() - 2]);
    assert(trailing_clip(ops.drop_last()) == 0);
}

/// Whatever the CIGAR, a range that is found lies inside the read and is as
/// long as the read without the two clips.
pub proof fn lemma_extent_bounds(ops: Seq<CigarOp>, len: nat)
    requires
        extent(ops, len) is Some,
    ensures
        ({
            let (start, end) = extent(ops, len).unwrap();
            &&& start <= end <= len
            &&& end - start == len - leading_clip(ops) - trailing_clip(ops)
        }),
{
}

} // verus!
