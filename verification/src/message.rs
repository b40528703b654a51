//! What a command asks for.

use vstd::prelude::*;

verus! {

/// Which reads are shown.
#[derive(Clone, Debug, PartialEq, Eq)]
pub enum AlignmentFilter {
    /// Reads with this base at this reference position.
    Base(u64, char),
    /// Reads with this base at the position under the cursor.
    BaseAtCurrentPosition(char),
    /// Reads that are soft-clipped at this reference position.
    BaseSoftclip(u64),
    /// Reads that are soft-clipped at the position under the cursor.
    BaseAtCurrentPositionSoftClip,
}

/// The order in which reads are shown.
#[derive(Debug, PartialEq, Eq)]
pub enum AlignmentSort {
    Default,
    BaseAt(u64),
    BaseAtCurrentPosition,
    StrandAt(u64),
    StrandAtCurrentBase,
    Start,
    MappingQuality,
    Sample,
    ReadGroup,
    ReadOrder,
    ReadName,
    AlignedReadLength,
    InsertSize,
    ChromosomeOfMate,
    Tag,
    /// By the first order, and among equals by the second.
    Then(Box<AlignmentSort>, Box<AlignmentSort>),
    /// The other way round.
    Reverse(Box<AlignmentSort>),
}

/// One option of how the alignment is shown.
#[derive(Debug, PartialEq, Eq)]
pub enum AlignmentDisplayOption {
    /// The two reads of a pair share a row.
    ViewAsPairs,
    /// Aligned bases are coloured by their modification calls.
    ShowBaseModifications,
    Filter(AlignmentFilter),
    Sort(AlignmentSort),
}

impl AlignmentDisplayOption {
    pub open spec fn spec_is_view_as_pairs(&self) -> bool {
        *self is ViewAsPairs
    }

    #[verifier::when_used_as_spec(spec_is_view_as_pairs)]
    pub fn is_view_as_pairs(&self) -> (yes: bool)
        ensures
            yes == (*self is ViewAsPairs),
    {
        match self {
            AlignmentDisplayOption::ViewAsPairs => true,
            _ => false,
        }
    }

    pub open spec fn spec_is_show_base_modifications(&self) -> bool {
        *self is ShowBaseModifications
    }

    #[verifier::when_used_as_spec(spec_is_show_base_modifications)]
    pub fn is_show_base_modifications(&self) -> (yes: bool)
        ensures
            yes == (*self is ShowBaseModifications),
    {
        match self {
            AlignmentDisplayOption::ShowBaseModifications => true,
            _ => false,
        }
    }
}

/// The format of an export of the screen.
#[derive(Clone, Copy, Debug, PartialEq, Eq, Structural)]
pub enum ExportFormat {
    Html,
    Svg,
    Text,
}

/// Where to go.
#[derive(Clone, Debug, PartialEq, Eq)]
pub enum Movement {
    /// To this position of the contig that is shown.
    Position(u64),
    /// To this position of the contig of this name.
    ContigNamePosition(String, u64),
    /// To the gene of this name.
    Gene(String),
}

/// What a command asks for.
#[derive(Debug, PartialEq, Eq)]
pub enum Message {
    Quit,
    Move(Movement),
    /// Show the alignment with these options, and with no others.
    SetAlignmentOption(Vec<AlignmentDisplayOption>),
    /// Write the screen to the file of this path in this format.
    Export(ExportFormat, String),
}

} // verus!
