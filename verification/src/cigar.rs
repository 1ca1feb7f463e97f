//! CIGAR operations and their packed form.

use vstd::prelude::*;

verus! {

/// What a CIGAR operation does with the bases it covers.
#[derive(Clone, Copy, Debug, PartialEq, Eq, Structural)]
pub enum CigarKind {
    /// `M`: aligned, equal or not.
    Match,
    /// `I`: in the read, not in the reference.
    Ins,
    /// `D`: in the reference, not in the read.
    Del,
    /// `N`: a stretch of the reference that the read skips.
    RefSkip,
    /// `S`: in the stored sequence, not aligned.
    SoftClip,
    /// `H`: cut off the read, not in the stored sequence.
    HardClip,
    /// `P`: padding.
    Pad,
    /// `=`: aligned and equal.
    Equal,
    /// `X`: aligned and different.
    Diff,
}

/// One CIGAR operation: a kind and the number of bases it covers.
#[derive(Clone, Copy, Debug, PartialEq, Eq, Structural)]
pub struct CigarOp {
    pub kind: CigarKind,
    pub len: u32,
}

/// The kind that BAM numbers `code`, for the codes 0 to 8.
pub open spec fn kind_of_code(code: u32) -> Option<CigarKind> {
    if code == 0 {
        Some(CigarKind::Match)
    } else if code == 1 {
        Some(CigarKind::Ins)
    } else if code == 2 {
        Some(CigarKind::Del)
    } else if code == 3 {
        Some(CigarKind::RefSkip)
    } else if code == 4 {
        Some(CigarKind::SoftClip)
    } else if code == 5 {
        Some(CigarKind::HardClip)
    } else if code == 6 {
        Some(CigarKind::Pad)
    } else if code == 7 {
        Some(CigarKind::Equal)
    } else if code == 8 {
        Some(CigarKind::Diff)
    } else {
        None
    }
}

/// The operation that a packed word stands for: the kind in the low four
/// bits, the length in the 28 bits above them.
pub open spec fn unpacked(word: u32) -> Option<CigarOp> {
    match kind_of_code(word & 0xf) {
        Some(kind) => Some(CigarOp { kind, len: word >> 4 }),
        None => None,
    }
}

/// Whether every word of `words` stands for an operation.
pub open spec fn all_known(words: Seq<u32>) -> bool {
    forall|i: int| 0 <= i < words.len() ==> (#[trigger] unpacked(words[i])) is Some
}

/// The operations that `words` stand for, where `all_known(words)`.
pub open spec fn unpacked_all(words: Seq<u32>) -> Seq<CigarOp> {
    Seq::new(words.len(), |i: int| unpacked(words[i]).unwrap())
}

impl CigarOp {
    /// Whether this operation is a hard clip.
    pub open spec fn is_hard_clip(self) -> bool {
        self.kind == CigarKind::HardClip
    }

    /// Whether this operation is a hard clip.
    pub fn hard_clip(&self) -> (hard: bool)
        ensures
            hard == self.is_hard_clip(),
    {
        match self.kind {
            CigarKind::HardClip => true,
            _ => false,
        }
    }

    /// Unpacks one word of a BAM record's CIGAR. A word with a code above 8
    /// stands for no operation.
    pub fn unpack(word: u32) -> (op: Option<CigarOp>)
        ensures
            op == unpacked(word),
    {
        let code: u32 = word & 0xf;
        let len: u32 = word >> 4;
        let kind = if code == 0 {
            CigarKind::Match
        } else if code == 1 {
            CigarKind::Ins
        } else if code == 2 {
            CigarKind::Del
        } else if code == 3 {
            CigarKind::RefSkip
        } else if code == 4 {
            CigarKind::SoftClip
        } else if code == 5 {
            CigarKind::HardClip
        } else if code == 6 {
            CigarKind::Pad
        } else if code == 7 {
            CigarKind::Equal
        } else if code == 8 {
            CigarKind::Diff
        } else {
            return None;
        };
        Some(CigarOp { kind, len })
    }

    /// Unpacks a whole CIGAR, or nothing where one of its words stands for no
    /// operation.
    pub fn unpack_all(words: &[u32]) -> (ops: Option<Vec<CigarOp>>)
        ensures
            ops is Some <==> all_known(words@),
            ops is Some ==> ops.unwrap()@ == unpacked_all(words@),
    {
        let mut ops: Vec<CigarOp> = Vec::new();
        let mut at: usize = 0;
        while at < words.len()
            invariant
                at <= words.len(),
                ops@.len() == at,
                forall|i: int| 0 <= i < at ==> (#[trigger] unpacked(words@[i])) == Some(ops@[i]),
            decreases words.len() - at,
        {
            match CigarOp::unpack(words[at]) {
                Some(op) => ops.push(op),
                None => {
                    return None;
                },
            }
            at += 1;
        }
        assert(ops@ =~= unpacked_all(words@));
        Some(ops)
    }
}

} // verus!
