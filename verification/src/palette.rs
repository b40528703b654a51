//! The colours that reads are drawn in.

use crate::modification::{BaseModification, ModificationType};
use ratatui::style::Color;
use vstd::prelude::*;

verus! {

/// The colours of one modification type, by the confidence of the call.
#[derive(Clone, Copy, Debug, PartialEq, Eq)]
pub struct ModificationShades {
    /// For calls of low confidence.
    pub low: Color,
    /// For calls that are neither of low nor of high confidence.
    pub medium: Color,
    /// For calls of high confidence.
    pub high: Color,
}

/// The colours of the four bases and of anything else.
#[derive(Clone, Copy, Debug, PartialEq, Eq)]
pub struct BaseColors {
    pub a: Color,
    pub c: Color,
    pub g: Color,
    pub t: Color,
    pub other: Color,
}

impl BaseColors {
    /// The colour of `base`, in either case.
    pub open spec fn spec_of(&self, base: u8) -> Color {
        if base == 0x41 || base == 0x61 {
            self.a
        } else if base == 0x43 || base == 0x63 {
            self.c
        } else if base == 0x47 || base == 0x67 {
            self.g
        } else if base == 0x54 || base == 0x74 {
            self.t
        } else {
            self.other
        }
    }

    #[verifier::when_used_as_spec(spec_of)]
    pub fn of(&self, base: u8) -> (color: Color)
        ensures
            color == self.spec_of(base),
    {
        if base == 0x41 || base == 0x61 {
            self.a
        } else if base == 0x43 || base == 0x63 {
            self.c
        } else if base == 0x47 || base == 0x67 {
            self.g
        } else if base == 0x54 || base == 0x74 {
            self.t
        } else {
            self.other
        }
    }
}

/// The colours that reads are drawn in.
#[derive(Clone, Copy, Debug, PartialEq, Eq)]
pub struct Palette {
    /// The background of what is not part of a read.
    pub background: Color,
    /// The background of aligned bases.
    pub match_color: Color,
    /// The foreground of aligned bases.
    pub match_fg_color: Color,
    /// The foreground of deletions.
    pub deletion_color: Color,
    /// The foreground of insertion markers.
    pub insertion_color: Color,
    /// The foreground of the gap between the reads of a pair.
    pub pairgap_color: Color,
    /// The foreground of the overlap of the reads of a pair.
    pub pair_overlap_color: Color,
    /// The backgrounds of soft-clipped bases.
    pub softclip: BaseColors,
    /// The foregrounds of mismatched bases.
    pub mismatch: BaseColors,
    /// The backgrounds of 5-methylcytosine calls.
    pub five_mc: ModificationShades,
    /// The backgrounds of 5-hydroxymethylcytosine calls.
    pub five_hmc: ModificationShades,
    /// The backgrounds of N6-methyladenine calls.
    pub six_ma: ModificationShades,
}

impl Palette {
    /// The shades of `modification_type`.
    pub open spec fn shades(&self, modification_type: ModificationType) -> ModificationShades {
        match modification_type {
            ModificationType::FiveMC => self.five_mc,
            ModificationType::FiveHMC => self.five_hmc,
            ModificationType::SixMA => self.six_ma,
        }
    }

    /// The background of a call of `modification_type` with `probability`.
    pub open spec fn spec_modification_color(
        &self,
        modification_type: &ModificationType,
        probability: u8,
    ) -> Color {
        let call = BaseModification { modification_type: *modification_type, probability };
        if call.is_high() {
            self.shades(*modification_type).high
        } else if call.is_low() {
            self.shades(*modification_type).low
        } else {
            self.shades(*modification_type).medium
        }
    }

    #[verifier::when_used_as_spec(spec_modification_color)]
    pub fn modification_color(&self, modification_type: &ModificationType, probability: u8) -> (color:
        Color)
        ensures
            color == self.spec_modification_color(modification_type, probability),
    {
        let shades = match modification_type {
            ModificationType::FiveMC => self.five_mc,
            ModificationType::FiveHMC => self.five_hmc,
            ModificationType::SixMA => self.six_ma,
        };
        let call = BaseModification { modification_type: *modification_type, probability };
        if call.is_high() {
            shades.high
        } else if call.is_low() {
            shades.low
        } else {
            shades.medium
        }
    }

    /// The background of the soft-clipped base `base`.
    pub open spec fn spec_softclip_color(&self, base: u8) -> Color {
        self.softclip.of(base)
    }

    #[verifier::when_used_as_spec(spec_softclip_color)]
    pub fn softclip_color(&self, base: u8) -> (color: Color)
        ensures
            color == self.spec_softclip_color(base),
    {
        self.softclip.of(base)
    }

    /// The foreground of the mismatched base `base`.
    pub open spec fn spec_mismatch_color(&self, base: u8) -> Color {
        self.mismatch.of(base)
    }

    #[verifier::when_used_as_spec(spec_mismatch_color)]
    pub fn mismatch_color(&self, base: u8) -> (color: Color)
        ensures
            color == self.spec_mismatch_color(base),
    {
        self.mismatch.of(base)
    }
}

} // verus!
