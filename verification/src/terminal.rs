//! The buffer of `ratatui` that reads are drawn on.
//!
//! The buffer is not looked into here. What it holds is known by two names,
//! its area and its cells, and reached through the few functions below,
//! whose contracts say of `ratatui` what its source shows and are taken on
//! trust.

use crate::style::Style;
use ratatui::buffer::Buffer;
use ratatui::layout::Rect;
use ratatui::style::Color;
use vstd::prelude::*;

verus! {

/// The buffer of `ratatui`: cells that cover an area of the screen, row by
/// row.
#[verifier::external_type_specification]
#[verifier::external_body]
pub struct ExBuffer(ratatui::buffer::Buffer);

/// What a cell shows: a symbol and its colours.
#[derive(Debug, PartialEq, Eq)]
pub struct CellData {
    pub symbol: String,
    pub fg: Color,
    pub bg: Color,
}

/// What a cell shows, the symbol as a sequence of characters.
pub ghost struct CellView {
    pub symbol: Seq<char>,
    pub fg: Color,
    pub bg: Color,
}

impl View for CellData {
    type V = CellView;

    open spec fn view(&self) -> CellView {
        CellView { symbol: self.symbol@, fg: self.fg, bg: self.bg }
    }
}

/// The area of the screen that a buffer covers.
pub uninterp spec fn buffer_area(buf: Buffer) -> Rect;

/// What the cells of a buffer show, the rows one behind the other.
pub uninterp spec fn buffer_cells(buf: Buffer) -> Seq<CellView>;

/// What the cells `cells` of a buffer over `area` show after `text` was
/// written in `style` from column `x` of row `y` of the screen on. How
/// `ratatui` lays a text out on cells, which depends on the width of its
/// characters, is not stated here.
pub uninterp spec fn cells_with_string(
    cells: Seq<CellView>,
    area: Rect,
    x: u16,
    y: u16,
    text: Seq<char>,
    style: Style,
) -> Seq<CellView>;

/// The first column behind `area`, or the last column of the screen if the
/// area would reach past it.
pub open spec fn right(area: Rect) -> int {
    if area.x + area.width <= u16::MAX {
        area.x + area.width
    } else {
        u16::MAX as int
    }
}

/// The first row below `area`, or the last row of the screen if the area
/// would reach past it.
pub open spec fn bottom(area: Rect) -> int {
    if area.y + area.height <= u16::MAX {
        area.y + area.height
    } else {
        u16::MAX as int
    }
}

/// The place at column `x` and row `y` of the screen lies in `area`.
pub open spec fn in_area(area: Rect, x: int, y: int) -> bool {
    area.x <= x < right(area) && area.y <= y < bottom(area)
}

/// The place among the cells of a buffer over `area` of the cell at column
/// `x` and row `y` of the screen.
pub open spec fn cell_index(area: Rect, x: int, y: int) -> int {
    (y - area.y) * area.width + (x - area.x)
}

/// The cell of a buffer with these cells over this area at column `x` and
/// row `y` of the screen, if there is one.
pub open spec fn cell_of(cells: Seq<CellView>, area: Rect, x: int, y: int) -> Option<CellView> {
    if in_area(area, x, y) && cell_index(area, x, y) < cells.len() {
        Some(cells[cell_index(area, x, y)])
    } else {
        None
    }
}

/// The buffer has a cell for each place of its area.
pub open spec fn buffer_sound(buf: Buffer) -> bool {
    buffer_cells(buf).len() == buffer_area(buf).width * buffer_area(buf).height
}

/// The area of the screen that `buf` covers.
///
/// This reads the field `area` of the buffer.
#[verifier::external_body]
pub(crate) fn area_of(buf: &Buffer) -> (area: Rect)
    ensures
        area == buffer_area(*buf),
{
    buf.area
}

/// The number of cells of `buf`.
///
/// This is the length of the field `content` of the buffer.
#[verifier::external_body]
pub(crate) fn cell_count(buf: &Buffer) -> (count: usize)
    ensures
        count == buffer_cells(*buf).len(),
{
    buf.content.len()
}

/// What the cell of `buf` at column `x` and row `y` of the screen shows.
///
/// This is `Buffer::cell`, which gives the cell at a place of the area of
/// the buffer, at the index `(y - area.y) * area.width + (x - area.x)` of its
/// cells, and none for a place outside the area or an index past the cells;
/// and `Cell::symbol`, the symbol of that cell.
#[verifier::external_body]
pub(crate) fn cell_at(buf: &Buffer, x: u16, y: u16) -> (cell: Option<CellData>)
    ensures
        match cell {
            Some(data) => Some(data@) == cell_of(
                buffer_cells(*buf),
                buffer_area(*buf),
                x as int,
                y as int,
            ),
            None => cell_of(buffer_cells(*buf), buffer_area(*buf), x as int, y as int) is None,
        },
{
    match buf.cell((x, y)) {
        Some(cell) => Some(
            CellData { symbol: cell.symbol().to_string(), fg: cell.fg, bg: cell.bg },
        ),
        None => None,
    }
}

/// Writes `text` in `style` on `buf`, from column `x` of row `y` of the
/// screen on.
///
/// This is `Buffer::set_string`. It writes on cells of row `y` from column
/// `x` up to the right edge of the buffer and on no others, and fails if
/// the first of them is no cell of the buffer, which the conditions rule
/// out. A colour that the style does not name is left to the cell.
#[verifier::external_body]
pub(crate) fn set_string(buf: &mut Buffer, x: u16, y: u16, text: &str, style: Style)
    requires
        buffer_sound(*old(buf)),
        buffer_area(*old(buf)).x <= x,
        buffer_area(*old(buf)).y <= y < bottom(buffer_area(*old(buf))),
    ensures
        buffer_area(*final(buf)) == buffer_area(*old(buf)),
        buffer_cells(*final(buf)) == cells_with_string(
            buffer_cells(*old(buf)),
            buffer_area(*old(buf)),
            x,
            y,
            text@,
            style,
        ),
        buffer_cells(*final(buf)).len() == buffer_cells(*old(buf)).len(),
        forall|i: int|
            0 <= i < buffer_cells(*old(buf)).len() && !(cell_index(
                buffer_area(*old(buf)),
                x as int,
                y as int,
            ) <= i < cell_index(buffer_area(*old(buf)), right(buffer_area(*old(buf))), y as int))
                ==> #[trigger] buffer_cells(*final(buf))[i] == buffer_cells(*old(buf))[i],
{
    let style = ratatui::style::Style { fg: style.fg, bg: style.bg, ..ratatui::style::Style::new() };
    buf.set_string(x, y, text, style);
}

/// Whether `buf` has a cell for each place of its area.
pub fn buffer_is_sound(buf: &Buffer) -> (sound: bool)
    ensures
        sound == buffer_sound(*buf),
{
    let area = area_of(buf);
    let width: usize = area.width as usize;
    let height: usize = area.height as usize;
    assert(width * height <= 0xFFFF * 0xFFFF) by (nonlinear_arith)
        requires
            width <= 0xFFFF,
            height <= 0xFFFF,
    ;
    cell_count(buf) == width * height
}

} // verus!
