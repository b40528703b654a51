//! Colours and styles of cells.

use ratatui::style::Color;
use vstd::prelude::*;

verus! {

/// Colours are those of `ratatui`.
#[verifier::external_type_specification]
pub struct ExColor(ratatui::style::Color);

/// What a write changes of a cell's colours: a colour that is `None` leaves
/// the cell's own colour as it is.
#[derive(Clone, Copy, Debug, PartialEq, Eq)]
pub struct Style {
    pub fg: Option<Color>,
    pub bg: Option<Color>,
}

impl Style {
    /// The style that changes nothing.
    pub fn new() -> (style: Style)
        ensures
            style == (Style { fg: None, bg: None }),
    {
        Style { fg: None, bg: None }
    }

    /// This style with the foreground `color`.
    pub fn fg(self, color: Color) -> (style: Style)
        ensures
            style == (Style { fg: Some(color), bg: self.bg }),
    {
        Style { fg: Some(color), bg: self.bg }
    }

    /// This style with the background `color`.
    pub fn bg(self, color: Color) -> (style: Style)
        ensures
            style == (Style { fg: self.fg, bg: Some(color) }),
    {
        Style { fg: self.fg, bg: Some(color) }
    }
}

impl Default for Style {
    fn default() -> (style: Style)
        ensures
            style == (Style { fg: None, bg: None }),
    {
        Style { fg: None, bg: None }
    }
}

} // verus!
