//! Reads as they are handed over for drawing: cut into segments, placed in
//! rows and, where asked for, paired.

use crate::message::AlignmentDisplayOption;
use crate::modification::BaseModification;
use std::collections::HashMap;
use vstd::prelude::*;

verus! {

/// What a segment of a read shows.
#[derive(Clone, Copy, Debug, PartialEq, Eq, Structural)]
pub enum RenderingContextKind {
    /// Bases aligned to the reference.
    Match,
    /// Reference positions that the read lacks.
    Deletion,
    /// A soft-clipped base.
    SoftClip(u8),
    /// The gap between the two reads of a pair.
    PairGap,
    /// The overlap of the two reads of a pair.
    PairOverlap,
}

/// A mark laid over a segment.
#[derive(Clone, Copy, Debug, PartialEq, Eq, Structural)]
pub enum RenderingContextModifier {
    /// The read is on the forward strand: an arrow at the end.
    Forward,
    /// The read is on the reverse strand: an arrow at the start.
    Reverse,
    /// Bases of this number are inserted before the segment.
    Insertion(usize),
    /// The read has this base at this reference position, unlike the
    /// reference.
    Mismatch(u64, u8),
    /// The two reads of a pair disagree at this reference position.
    PairConflict(u64),
}

/// One segment of a read: what it shows, from which reference position to
/// which (both included), and the marks laid over it.
#[derive(Clone, Debug, PartialEq, Eq)]
pub struct RenderingContext {
    pub start: u64,
    pub end: u64,
    pub kind: RenderingContextKind,
    pub modifiers: Vec<RenderingContextModifier>,
}

/// A read, ready for drawing.
#[derive(Clone, Debug, PartialEq, Eq)]
pub struct AlignedRead {
    pub rendering_contexts: Vec<RenderingContext>,
    /// The modification calls of the read by reference position.
    pub base_modifications: HashMap<u64, Vec<BaseModification>>,
}

/// The two reads of a pair, drawn as one.
#[derive(Clone, Debug, PartialEq, Eq)]
pub struct ReadPair {
    /// The first read of the pair, as an index into the reads.
    pub read_1_index: usize,
    pub rendering_contexts: Vec<RenderingContext>,
}

/// The reads and their places.
#[derive(Clone, Debug, PartialEq, Eq)]
pub struct Alignment {
    pub reads: Vec<AlignedRead>,
    /// The row of each read.
    pub ys: Vec<usize>,
    /// The reads of each row, as indices into the reads.
    pub ys_index: Vec<Vec<usize>>,
    /// The pairs, once they have been worked out.
    pub read_pairs: Option<Vec<ReadPair>>,
    /// Whether each pair is shown, once that has been worked out.
    pub show_pairs: Option<Vec<bool>>,
}

impl Alignment {
    /// Every read that a row or a pair names is there.
    pub open spec fn wf(&self) -> bool {
        &&& forall|row: int, i: int|
            0 <= row < self.ys_index.len() && 0 <= i < self.ys_index[row].len()
                ==> #[trigger] self.ys_index[row][i] < self.reads.len()
        &&& self.read_pairs matches Some(pairs) ==> forall|i: int|
            0 <= i < pairs.len() ==> (#[trigger] pairs[i]).read_1_index < self.ys.len()
    }

    /// Whether every read that a row or a pair names is there.
    pub fn is_well_formed(&self) -> (ok: bool)
        ensures
            ok == self.wf(),
    {
        let mut row: usize = 0;
        while row < self.ys_index.len()
            invariant
                row <= self.ys_index.len(),
                forall|r: int, i: int|
                    0 <= r < row && 0 <= i < self.ys_index[r].len()
                        ==> #[trigger] self.ys_index[r][i] < self.reads.len(),
            decreases self.ys_index.len() - row,
        {
            let indices = &self.ys_index[row];
            let mut i: usize = 0;
            while i < indices.len()
                invariant
                    i <= indices.len(),
                    row < self.ys_index.len(),
                    *indices == self.ys_index[row as int],
                    forall|j: int| 0 <= j < i ==> #[trigger] indices[j] < self.reads.len(),
                decreases indices.len() - i,
            {
                if indices[i] >= self.reads.len() {
                    return false;
                }
                i += 1;
            }
            row += 1;
        }
        match &self.read_pairs {
            Some(pairs) => {
                let mut i: usize = 0;
                while i < pairs.len()
                    invariant
                        i <= pairs.len(),
                        self.read_pairs == Some(*pairs),
                        forall|r: int, k: int|
                            0 <= r < self.ys_index.len() && 0 <= k < self.ys_index[r].len()
                                ==> #[trigger] self.ys_index[r][k] < self.reads.len(),
                        forall|j: int|
                            0 <= j < i ==> (#[trigger] pairs[j]).read_1_index < self.ys.len(),
                    decreases pairs.len() - i,
                {
                    if pairs[i].read_1_index >= self.ys.len() {
                        proof {
                            assert(self.read_pairs->0[i as int].read_1_index >= self.ys.len());
                        }
                        return false;
                    }
                    i += 1;
                }
                true
            },
            None => true,
        }
    }
}

/// What is shown and how.
#[derive(Debug, PartialEq, Eq)]
pub struct State {
    pub alignment_options: Vec<AlignmentDisplayOption>,
    pub alignment: Alignment,
}

impl State {
    /// The options ask for the reads of a pair to share a row.
    pub open spec fn display_as_pairs(&self) -> bool {
        exists|i: int|
            0 <= i < self.alignment_options.len() && (
            #[trigger] self.alignment_options[i]).is_view_as_pairs()
    }

    /// The options ask for aligned bases to be coloured by their
    /// modification calls.
    pub open spec fn show_modifications(&self) -> bool {
        exists|i: int|
            0 <= i < self.alignment_options.len() && (
            #[trigger] self.alignment_options[i]).is_show_base_modifications()
    }
}

} // verus!
