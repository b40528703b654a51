//! The part of the screen that is drawn on, and the window on the alignment
//! that it shows.

use ratatui::layout::Rect;
use vstd::prelude::*;

verus! {

/// Areas of the screen are the rectangles of `ratatui`: a corner, a width
/// and a height.
#[verifier::external_type_specification]
pub struct ExRect(ratatui::layout::Rect);

/// Where a coordinate falls with respect to the area that is drawn on.
#[derive(Clone, Copy, Debug, PartialEq, Eq, Structural)]
pub enum OnScreenCoordinate {
    /// Before the first column or row of the area.
    Left,
    /// In the area, at this column or row counted from 0.
    OnScreen(u16),
    /// Behind the last column or row of the area.
    Right,
}

/// The window on the alignment that an area shows: one reference position to
/// a column, one row of reads to a row.
#[derive(Clone, Copy, Debug, PartialEq, Eq, Structural)]
pub struct AlignmentView {
    /// The reference position, counted from 1, in the first column.
    pub left: u64,
    /// The row of reads in the first row.
    pub top: usize,
}

impl AlignmentView {
    /// Where the reference position `x` falls in `area`.
    pub open spec fn spec_onscreen_x_coordinate(
        &self,
        x: u64,
        area: &Rect,
    ) -> OnScreenCoordinate {
        if x < self.left {
            OnScreenCoordinate::Left
        } else if x - self.left < area.width {
            OnScreenCoordinate::OnScreen((x - self.left) as u16)
        } else {
            OnScreenCoordinate::Right
        }
    }

    /// Where the row of reads `y` falls in `area`.
    pub open spec fn spec_onscreen_y_coordinate(
        &self,
        y: usize,
        area: &Rect,
    ) -> OnScreenCoordinate {
        if y < self.top {
            OnScreenCoordinate::Left
        } else if y - self.top < area.height {
            OnScreenCoordinate::OnScreen((y - self.top) as u16)
        } else {
            OnScreenCoordinate::Right
        }
    }

    #[verifier::when_used_as_spec(spec_onscreen_x_coordinate)]
    pub fn onscreen_x_coordinate(&self, x: u64, area: &Rect) -> (coordinate: OnScreenCoordinate)
        ensures
            coordinate == self.spec_onscreen_x_coordinate(x, area),
    {
        if x < self.left {
            OnScreenCoordinate::Left
        } else if x - self.left < area.width as u64 {
            OnScreenCoordinate::OnScreen((x - self.left) as u16)
        } else {
            OnScreenCoordinate::Right
        }
    }

    #[verifier::when_used_as_spec(spec_onscreen_y_coordinate)]
    pub fn onscreen_y_coordinate(&self, y: usize, area: &Rect) -> (coordinate: OnScreenCoordinate)
        ensures
            coordinate == self.spec_onscreen_y_coordinate(y, area),
    {
        if y < self.top {
            OnScreenCoordinate::Left
        } else if y - self.top < area.height as usize {
            OnScreenCoordinate::OnScreen((y - self.top) as u16)
        } else {
            OnScreenCoordinate::Right
        }
    }
}

impl OnScreenCoordinate {
    /// The coordinate is none that lies in `area` only by name: a column or
    /// row given as on screen is one of the area.
    pub open spec fn agrees_with(self, extent: u16) -> bool {
        self matches OnScreenCoordinate::OnScreen(at) ==> at < extent
    }

    /// The first column and the number of columns, in `area`, of what runs
    /// from `start` to `end`, both included. `None` if none of it is in the
    /// area, or if an end is given as on screen and is no column of the
    /// area.
    pub open spec fn spec_onscreen_start_and_length(
        start: &OnScreenCoordinate,
        end: &OnScreenCoordinate,
        area: &Rect,
    ) -> Option<(u16, u16)> {
        if !start.agrees_with(area.width) || !end.agrees_with(area.width) {
            None
        } else {
            match (*start, *end) {
                (OnScreenCoordinate::Left, OnScreenCoordinate::OnScreen(last)) => Some(
                    (0u16, (last + 1) as u16),
                ),
                (OnScreenCoordinate::Left, OnScreenCoordinate::Right) => if area.width > 0 {
                    Some((0u16, area.width))
                } else {
                    None
                },
                (
                    OnScreenCoordinate::OnScreen(first),
                    OnScreenCoordinate::OnScreen(last),
                ) => if first <= last {
                    Some((first, (last - first + 1) as u16))
                } else {
                    None
                },
                (OnScreenCoordinate::OnScreen(first), OnScreenCoordinate::Right) => Some(
                    (first, (area.width - first) as u16),
                ),
                _ => None,
            }
        }
    }

    #[verifier::when_used_as_spec(spec_onscreen_start_and_length)]
    pub fn onscreen_start_and_length(
        start: &OnScreenCoordinate,
        end: &OnScreenCoordinate,
        area: &Rect,
    ) -> (span: Option<(u16, u16)>)
        ensures
            span == Self::spec_onscreen_start_and_length(start, end, area),
            span matches Some((first, length)) ==> length > 0 && first + length <= area.width,
    {
        if let OnScreenCoordinate::OnScreen(first) = *start {
            if first >= area.width {
                return None;
            }
        }
        if let OnScreenCoordinate::OnScreen(last) = *end {
            if last >= area.width {
                return None;
            }
        }
        match (*start, *end) {
            (OnScreenCoordinate::Left, OnScreenCoordinate::OnScreen(last)) => Some((0, last + 1)),
            (OnScreenCoordinate::Left, OnScreenCoordinate::Right) => if area.width > 0 {
                Some((0, area.width))
            } else {
                None
            },
            (OnScreenCoordinate::OnScreen(first), OnScreenCoordinate::OnScreen(last)) => if first
                <= last {
                Some((first, last - first + 1))
            } else {
                None
            },
            (OnScreenCoordinate::OnScreen(first), OnScreenCoordinate::Right) => Some(
                (first, area.width - first),
            ),
            _ => None,
        }
    }
}

} // verus!
