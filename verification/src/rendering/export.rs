//! Export of the buffer of the terminal as plain text, as HTML and as SVG.

use crate::terminal::{area_of, buffer_area, buffer_cells, cell_at, cell_of, CellData, CellView};
use crate::text::{chars_of, push_char};
use ratatui::buffer::Buffer;
use ratatui::layout::Rect;
use ratatui::style::Color;
use vstd::prelude::*;

verus! {

/// The first colour index of the grey ramp.
pub const FIRST_GREY_INDEX: u8 = 232;

/// The level, from 0 to 255, of step `v` of the six steps of the colour
/// cube.
pub open spec fn cube_level(v: int) -> u8 {
    if v == 0 {
        0
    } else {
        (55 + v * 40) as u8
    }
}

/// Red, green and blue of the colour at `idx` of the 256-colour palette:
/// the sixteen named colours, then the cube of six levels of each of red,
/// green and blue, then 24 steps of grey.
pub open spec fn indexed_rgb(idx: u8) -> (u8, u8, u8) {
    if idx == 0 {
        (0u8, 0u8, 0u8)
    } else if idx == 1 {
        (128u8, 0u8, 0u8)
    } else if idx == 2 {
        (0u8, 128u8, 0u8)
    } else if idx == 3 {
        (128u8, 128u8, 0u8)
    } else if idx == 4 {
        (0u8, 0u8, 128u8)
    } else if idx == 5 {
        (128u8, 0u8, 128u8)
    } else if idx == 6 {
        (0u8, 128u8, 128u8)
    } else if idx == 7 {
        (192u8, 192u8, 192u8)
    } else if idx == 8 {
        (128u8, 128u8, 128u8)
    } else if idx == 9 {
        (255u8, 0u8, 0u8)
    } else if idx == 10 {
        (0u8, 255u8, 0u8)
    } else if idx == 11 {
        (255u8, 255u8, 0u8)
    } else if idx == 12 {
        (0u8, 0u8, 255u8)
    } else if idx == 13 {
        (255u8, 0u8, 255u8)
    } else if idx == 14 {
        (0u8, 255u8, 255u8)
    } else if idx == 15 {
        (255u8, 255u8, 255u8)
    } else if idx < FIRST_GREY_INDEX {
        let n = idx - 16;
        (cube_level(n / 36), cube_level((n / 6) % 6), cube_level(n % 6))
    } else {
        let v = (8 + (idx - FIRST_GREY_INDEX) * 10) as u8;
        (v, v, v)
    }
}

/// Red, green and blue of the colour at `idx` of the 256-colour palette.
pub fn indexed_to_rgb(idx: u8) -> (rgb: (u8, u8, u8))
    ensures
        rgb == indexed_rgb(idx),
{
    if idx == 0 {
        (0, 0, 0)
    } else if idx == 1 {
        (128, 0, 0)
    } else if idx == 2 {
        (0, 128, 0)
    } else if idx == 3 {
        (128, 128, 0)
    } else if idx == 4 {
        (0, 0, 128)
    } else if idx == 5 {
        (128, 0, 128)
    } else if idx == 6 {
        (0, 128, 128)
    } else if idx == 7 {
        (192, 192, 192)
    } else if idx == 8 {
        (128, 128, 128)
    } else if idx == 9 {
        (255, 0, 0)
    } else if idx == 10 {
        (0, 255, 0)
    } else if idx == 11 {
        (255, 255, 0)
    } else if idx == 12 {
        (0, 0, 255)
    } else if idx == 13 {
        (255, 0, 255)
    } else if idx == 14 {
        (0, 255, 255)
    } else if idx == 15 {
        (255, 255, 255)
    } else if idx < FIRST_GREY_INDEX {
        let n: u8 = idx - 16;
        let b: u8 = n % 6;
        let g: u8 = (n / 6) % 6;
        let r: u8 = n / 36;
        (scale(r), scale(g), scale(b))
    } else {
        let v: u8 = 8 + (idx - FIRST_GREY_INDEX) * 10;
        (v, v, v)
    }
}

/// The level of step `v` of the colour cube.
fn scale(v: u8) -> (level: u8)
    requires
        v < 6,
    ensures
        level == cube_level(v as int),
{
    if v == 0 {
        0
    } else {
        55 + v * 40
    }
}

/// The hexadecimal digit for `n`, in lower case.
pub open spec fn hex_digit(n: int) -> char {
    if n < 10 {
        ((0x30 + n) as u8) as char
    } else {
        ((0x61 + n - 10) as u8) as char
    }
}

/// The colour with the given red, green and blue as CSS writes it: `#` and
/// two hexadecimal digits for each.
pub open spec fn hex_color(r: u8, g: u8, b: u8) -> Seq<char> {
    seq![
        '#',
        hex_digit(r as int / 16),
        hex_digit(r as int % 16),
        hex_digit(g as int / 16),
        hex_digit(g as int % 16),
        hex_digit(b as int / 16),
        hex_digit(b as int % 16),
    ]
}

/// The CSS colour of a named colour; `inherit` for the terminal's default
/// and for colours that have no name.
pub open spec fn named_css(color: Color) -> Seq<char> {
    match color {
        Color::Reset => "inherit"@,
        Color::Black => "#000000"@,
        Color::Red => "#800000"@,
        Color::Green => "#008000"@,
        Color::Yellow => "#808000"@,
        Color::Blue => "#000080"@,
        Color::Magenta => "#800080"@,
        Color::Cyan => "#008080"@,
        Color::Gray => "#c0c0c0"@,
        Color::DarkGray => "#808080"@,
        Color::LightRed => "#ff0000"@,
        Color::LightGreen => "#00ff00"@,
        Color::LightYellow => "#ffff00"@,
        Color::LightBlue => "#0000ff"@,
        Color::LightMagenta => "#ff00ff"@,
        Color::LightCyan => "#00ffff"@,
        Color::White => "#ffffff"@,
        _ => "inherit"@,
    }
}

/// The CSS colour of any colour.
pub open spec fn css_color(color: Color) -> Seq<char> {
    match color {
        Color::Rgb(r, g, b) => hex_color(r, g, b),
        Color::Indexed(i) => hex_color(indexed_rgb(i).0, indexed_rgb(i).1, indexed_rgb(i).2),
        other => named_css(other),
    }
}

/// The CSS colour of a named colour.
pub fn color_to_css(color: Color) -> (css: &'static str)
    ensures
        css@ == named_css(color),
{
    match color {
        Color::Reset => "inherit",
        Color::Black => "#000000",
        Color::Red => "#800000",
        Color::Green => "#008000",
        Color::Yellow => "#808000",
        Color::Blue => "#000080",
        Color::Magenta => "#800080",
        Color::Cyan => "#008080",
        Color::Gray => "#c0c0c0",
        Color::DarkGray => "#808080",
        Color::LightRed => "#ff0000",
        Color::LightGreen => "#00ff00",
        Color::LightYellow => "#ffff00",
        Color::LightBlue => "#0000ff",
        Color::LightMagenta => "#ff00ff",
        Color::LightCyan => "#00ffff",
        Color::White => "#ffffff",
        // Colours given by number are written out by `color_to_css_owned`.
        _ => "inherit",
    }
}

/// Appends the hexadecimal digit for `n` to `out`.
fn push_hex_digit(out: &mut String, n: u8)
    requires
        n < 16,
    ensures
        final(out)@ == old(out)@.push(hex_digit(n as int)),
{
    let code: u8 = if n < 10 {
        0x30 + n
    } else {
        0x61 + n - 10
    };
    push_char(out, code as char);
}

/// Appends the CSS colour with the given red, green and blue to `out`.
fn push_hex_color(out: &mut String, r: u8, g: u8, b: u8)
    ensures
        final(out)@ == old(out)@ + hex_color(r, g, b),
{
    push_char(out, '#');
    push_hex_digit(out, r / 16);
    push_hex_digit(out, r % 16);
    push_hex_digit(out, g / 16);
    push_hex_digit(out, g % 16);
    push_hex_digit(out, b / 16);
    push_hex_digit(out, b % 16);
    proof {
        assert(out@ =~= old(out)@ + hex_color(r, g, b));
    }
}

/// Appends the CSS colour of `color` to `out`.
fn push_css_color(out: &mut String, color: Color)
    ensures
        final(out)@ == old(out)@ + css_color(color),
{
    match color {
        Color::Rgb(r, g, b) => push_hex_color(out, r, g, b),
        Color::Indexed(i) => {
            let (r, g, b) = indexed_to_rgb(i);
            push_hex_color(out, r, g, b)
        },
        other => out.append(color_to_css(other)),
    }
}

/// The CSS colour of any colour.
pub fn color_to_css_owned(color: Color) -> (css: String)
    ensures
        css@ == css_color(color),
{
    let mut css = String::new();
    push_css_color(&mut css, color);
    proof {
        assert(Seq::<char>::empty() + css_color(color) =~= css_color(color));
    }
    css
}

/// What stands for `c` in HTML.
pub open spec fn html_escaped(c: char) -> Seq<char> {
    if c == '&' {
        "&amp;"@
    } else if c == '<' {
        "&lt;"@
    } else if c == '>' {
        "&gt;"@
    } else if c == '"' {
        "&quot;"@
    } else if c == ' ' {
        "&nbsp;"@
    } else {
        seq![c]
    }
}

/// Appends to `buf` what stands for `c` in HTML.
pub fn push_html_escaped(buf: &mut String, c: char)
    ensures
        final(buf)@ == old(buf)@ + html_escaped(c),
{
    if c == '&' {
        buf.append("&amp;")
    } else if c == '<' {
        buf.append("&lt;")
    } else if c == '>' {
        buf.append("&gt;")
    } else if c == '"' {
        buf.append("&quot;")
    } else if c == ' ' {
        buf.append("&nbsp;")
    } else {
        push_char(buf, c);
        proof {
            assert(buf@ =~= old(buf)@ + seq![c]);
        }
    }
}

/// The width of a cell in an SVG, in pixels.
pub const CHAR_W: u32 = 8;

/// The height of a cell in an SVG, in pixels.
pub const CHAR_H: u32 = 16;

/// What stands before the cells in an HTML export.
pub const HTML_HEAD: &'static str = "<!DOCTYPE html>
<html lang=\"en\">
<head>
  <meta charset=\"UTF-8\">
  <meta name=\"viewport\" content=\"width=device-width, initial-scale=1.0\">
  <title>TGV snapshot</title>
  <style>
    body {
      background: #1e1e1e;
      margin: 0;
      padding: 1em;
    }
    pre {
      font-family: \"JetBrains Mono\", \"Fira Code\", \"Cascadia Code\",
                   \"DejaVu Sans Mono\", \"Courier New\", monospace;
      font-size: 13px;
      line-height: 1.4;
      white-space: pre;
      margin: 0;
    }
  </style>
</head>
<body>
<pre>";

/// What stands behind the cells in an HTML export.
pub const HTML_TAIL: &'static str = "</pre>
</body>
</html>
";

/// What stands between the size of an SVG and the rectangle behind it.
pub const SVG_STYLE: &'static str = "\">
  <defs>
    <style>
      text {
        font-family: \"JetBrains Mono\", \"Fira Code\", \"Cascadia Code\",
                     \"DejaVu Sans Mono\", \"Courier New\", monospace;
        font-size: 16px;
        font-weight: normal;
      }
    </style>
  </defs>
  <!-- background fill -->
  <rect width=\"";

/// What each cell gives to an export.
#[derive(Clone, Copy, Debug, PartialEq, Eq, Structural)]
pub enum Piece {
    /// Its symbol.
    Text,
    /// An HTML span with its colours and its symbol.
    HtmlSpan,
    /// An SVG rectangle in its background, unless that is the default.
    SvgRect,
    /// An SVG text with its symbol in its foreground, unless it is blank.
    SvgText,
}

/// What stands for `c` in an SVG text.
pub open spec fn svg_escaped(c: char) -> Seq<char> {
    if c == '&' {
        "&amp;"@
    } else if c == '<' {
        "&lt;"@
    } else if c == '>' {
        "&gt;"@
    } else if c == '"' {
        "&quot;"@
    } else if c == '\'' {
        "&apos;"@
    } else {
        seq![c]
    }
}

/// `n` in decimal digits, without leading zeros.
pub open spec fn decimal_text(n: nat) -> Seq<char>
    decreases n,
{
    if n < 10 {
        seq![((0x30 + n) as u8) as char]
    } else {
        decimal_text(n / 10).push(((0x30 + n % 10) as u8) as char)
    }
}

/// What stands for the characters of `symbol` in HTML.
pub open spec fn html_escaped_text(symbol: Seq<char>) -> Seq<char>
    decreases symbol.len(),
{
    if symbol.len() == 0 {
        Seq::<char>::empty()
    } else {
        html_escaped_text(symbol.drop_last()) + html_escaped(symbol.last())
    }
}

/// What stands for the characters of `symbol` in an SVG text.
pub open spec fn svg_escaped_text(symbol: Seq<char>) -> Seq<char>
    decreases symbol.len(),
{
    if symbol.len() == 0 {
        Seq::<char>::empty()
    } else {
        svg_escaped_text(symbol.drop_last()) + svg_escaped(symbol.last())
    }
}

/// The HTML span of a cell.
pub open spec fn html_span(cell: CellView) -> Seq<char> {
    "<span style=\"color:"@ + css_color(cell.fg) + ";background-color:"@ + css_color(cell.bg)
        + "\">"@ + html_escaped_text(cell.symbol) + "</span>"@
}

/// The SVG rectangle behind the cell at column `x` and row `y`.
pub open spec fn svg_rect(x: int, y: int, bg: Color) -> Seq<char> {
    "<rect x=\""@ + decimal_text((x * CHAR_W) as nat) + "\" y=\""@ + decimal_text(
        (y * CHAR_H) as nat,
    ) + "\" width=\"8\" height=\"16\" fill=\""@ + css_color(bg) + "\"/>\n"@
}

/// The SVG text of the cell at column `x` and row `y`: its base line is
/// three pixels above the lower edge of the cell.
pub open spec fn svg_text(x: int, y: int, cell: CellView) -> Seq<char> {
    "<text x=\""@ + decimal_text((x * CHAR_W) as nat) + "\" y=\""@ + decimal_text(
        (y * CHAR_H + CHAR_H - 3) as nat,
    ) + "\" fill=\""@ + css_color(cell.fg) + "\">"@ + svg_escaped_text(cell.symbol)
        + "</text>\n"@
}

/// A symbol is blank if it holds nothing but spaces and characters zero.
pub open spec fn is_blank(symbol: Seq<char>) -> bool {
    forall|i: int| 0 <= i < symbol.len() ==> #[trigger] symbol[i] == ' ' || symbol[i] == '\0'
}

/// What the place at column `x` and row `y` gives to an export. A place
/// without a cell gives a space to a text and nothing to the others.
pub open spec fn piece_text(piece: Piece, x: int, y: int, cell: Option<CellView>) -> Seq<char> {
    match piece {
        Piece::Text => match cell {
            Some(cell) => cell.symbol,
            None => seq![' '],
        },
        Piece::HtmlSpan => match cell {
            Some(cell) => html_span(cell),
            None => Seq::<char>::empty(),
        },
        Piece::SvgRect => match cell {
            Some(cell) => if cell.bg is Reset {
                Seq::<char>::empty()
            } else {
                svg_rect(x, y, cell.bg)
            },
            None => Seq::<char>::empty(),
        },
        Piece::SvgText => match cell {
            Some(cell) => if is_blank(cell.symbol) {
                Seq::<char>::empty()
            } else {
                svg_text(x, y, cell)
            },
            None => Seq::<char>::empty(),
        },
    }
}

/// What ends a row in an export: a line break in text and HTML.
pub open spec fn row_end(piece: Piece) -> Seq<char> {
    match piece {
        Piece::Text => seq!['\n'],
        Piece::HtmlSpan => seq!['\n'],
        _ => Seq::<char>::empty(),
    }
}

/// What the first `columns` places of row `y` give to an export.
pub open spec fn row_pieces(
    cells: Seq<CellView>,
    area: Rect,
    piece: Piece,
    y: int,
    columns: nat,
) -> Seq<char>
    decreases columns,
{
    if columns == 0 {
        Seq::<char>::empty()
    } else {
        row_pieces(cells, area, piece, y, (columns - 1) as nat) + piece_text(
            piece,
            columns - 1,
            y,
            cell_of(cells, area, columns - 1, y),
        )
    }
}

/// What the first `rows` rows give to an export. The places are counted from
/// the corner of the screen, as many columns and rows of them as the area of
/// the buffer has.
pub open spec fn rows_pieces(cells: Seq<CellView>, area: Rect, piece: Piece, rows: nat) -> Seq<
    char,
>
    decreases rows,
{
    if rows == 0 {
        Seq::<char>::empty()
    } else {
        rows_pieces(cells, area, piece, (rows - 1) as nat) + row_pieces(
            cells,
            area,
            piece,
            rows - 1,
            area.width as nat,
        ) + row_end(piece)
    }
}

/// What the cells of `buf` give to an export.
pub open spec fn buffer_pieces(buf: Buffer, piece: Piece) -> Seq<char> {
    rows_pieces(buffer_cells(buf), buffer_area(buf), piece, buffer_area(buf).height as nat)
}

/// The buffer as plain text: the symbols of each row, and a line break
/// behind each row.
pub open spec fn buffer_text(buf: Buffer) -> Seq<char> {
    buffer_pieces(buf, Piece::Text)
}

/// The buffer as an HTML page: a span for each cell, and a line break behind
/// each row.
pub open spec fn buffer_html(buf: Buffer) -> Seq<char> {
    HTML_HEAD@ + buffer_pieces(buf, Piece::HtmlSpan) + HTML_TAIL@
}

/// The buffer as an SVG of `CHAR_W` by `CHAR_H` pixels to a cell: a dark
/// rectangle behind everything, then the backgrounds of the cells, then
/// their symbols.
pub open spec fn buffer_svg(buf: Buffer) -> Seq<char> {
    let width = decimal_text((buffer_area(buf).width * CHAR_W) as nat);
    let height = decimal_text((buffer_area(buf).height * CHAR_H) as nat);
    "<?xml version=\"1.0\" encoding=\"UTF-8\"?>\n<svg xmlns=\"http://www.w3.org/2000/svg\"\n     width=\""@
        + width + "\" height=\""@ + height + "\"\n     viewBox=\"0 0 "@ + width + " "@ + height
        + SVG_STYLE@ + width + "\" height=\""@ + height
        + "\" fill=\"#1e1e1e\"/>\n  <!-- cell backgrounds -->\n"@ + buffer_pieces(
        buf,
        Piece::SvgRect,
    ) + "\n  <!-- characters -->\n"@ + buffer_pieces(buf, Piece::SvgText) + "\n</svg>\n"@
}

/// Appends to `out` what stands for the characters of `symbol` in HTML, or,
/// if `svg` is set, in an SVG text.
fn push_escaped_text(out: &mut String, symbol: &str, svg: bool)
    ensures
        final(out)@ == old(out)@ + if svg {
            svg_escaped_text(symbol@)
        } else {
            html_escaped_text(symbol@)
        },
{
    let chars = chars_of(symbol);
    let ghost before = out@;
    let mut i: usize = 0;
    proof {
        assert(chars@.take(0) =~= Seq::<char>::empty());
        assert(out@ =~= before + Seq::<char>::empty());
    }
    while i < chars.len()
        invariant
            i <= chars.len(),
            chars@ == symbol@,
            out@ == before + if svg {
                svg_escaped_text(chars@.take(i as int))
            } else {
                html_escaped_text(chars@.take(i as int))
            },
        decreases chars.len() - i,
    {
        let ghost seen = chars@.take(i as int);
        let ghost upto = chars@.take(i + 1);
        let ghost so_far = out@;
        proof {
            assert(upto.drop_last() =~= seen);
            assert(upto.last() == chars@[i as int]);
        }
        if svg {
            push_svg_escaped(out, chars[i]);
            proof {
                assert(out@ =~= before + (svg_escaped_text(seen) + svg_escaped(chars@[i as int])));
            }
        } else {
            push_html_escaped(out, chars[i]);
            proof {
                assert(out@ =~= before + (html_escaped_text(seen) + html_escaped(
                    chars@[i as int],
                )));
            }
        }
        i += 1;
    }
    proof {
        assert(chars@.take(i as int) =~= chars@);
    }
}

/// Whether `symbol` holds nothing but spaces and characters zero.
fn symbol_is_blank(symbol: &str) -> (blank: bool)
    ensures
        blank == is_blank(symbol@),
{
    let chars = chars_of(symbol);
    let mut i: usize = 0;
    while i < chars.len()
        invariant
            i <= chars.len(),
            chars@ == symbol@,
            forall|j: int| 0 <= j < i ==> #[trigger] chars@[j] == ' ' || chars@[j] == '\0',
        decreases chars.len() - i,
    {
        if !(chars[i] == ' ' || chars[i] == '\0') {
            return false;
        }
        i += 1;
    }
    true
}

/// Appends to `buf` what stands for `c` in an SVG text.
fn push_svg_escaped(buf: &mut String, c: char)
    ensures
        final(buf)@ == old(buf)@ + svg_escaped(c),
{
    if c == '&' {
        buf.append("&amp;")
    } else if c == '<' {
        buf.append("&lt;")
    } else if c == '>' {
        buf.append("&gt;")
    } else if c == '"' {
        buf.append("&quot;")
    } else if c == '\'' {
        buf.append("&apos;")
    } else {
        push_char(buf, c);
        proof {
            assert(buf@ =~= old(buf)@ + seq![c]);
        }
    }
}

/// Appends `n` in decimal digits to `out`.
fn push_decimal(out: &mut String, n: u32)
    ensures
        final(out)@ == old(out)@ + decimal_text(n as nat),
    decreases n,
{
    if n >= 10 {
        push_decimal(out, n / 10);
    }
    push_char(out, (0x30 + (n % 10) as u8) as char);
    proof {
        assert(out@ =~= old(out)@ + decimal_text(n as nat));
    }
}

/// Appends to `out` what the place at column `x` and row `y` gives to an
/// export.
fn push_piece(out: &mut String, piece: Piece, x: u16, y: u16, cell: Option<CellData>)
    ensures
        final(out)@ == old(out)@ + piece_text(piece, x as int, y as int, match cell {
            Some(data) => Some(data@),
            None => None,
        }),
{
    let ghost before = out@;
    let cell = match cell {
        Some(cell) => cell,
        None => {
            match piece {
                Piece::Text => {
                    push_char(out, ' ');
                    proof {
                        assert(out@ =~= before + seq![' ']);
                    }
                },
                _ => {
                    proof {
                        assert(out@ =~= before + Seq::<char>::empty());
                    }
                },
            }
            return ;
        },
    };
    match piece {
        Piece::Text => {
            out.append(cell.symbol.as_str());
        },
        Piece::HtmlSpan => {
            out.append("<span style=\"color:");
            push_css_color(out, cell.fg);
            out.append(";background-color:");
            push_css_color(out, cell.bg);
            out.append("\">");
            push_escaped_text(out, cell.symbol.as_str(), false);
            out.append("</span>");
            proof {
                assert(out@ =~= before + html_span(cell@));
            }
        },
        Piece::SvgRect => {
            // A cell in the default background needs no rectangle.
            match cell.bg {
                Color::Reset => {
                    proof {
                        assert(out@ =~= before + Seq::<char>::empty());
                    }
                },
                bg => {
                    out.append("<rect x=\"");
                    push_decimal(out, x as u32 * CHAR_W);
                    out.append("\" y=\"");
                    push_decimal(out, y as u32 * CHAR_H);
                    out.append("\" width=\"8\" height=\"16\" fill=\"");
                    push_css_color(out, bg);
                    out.append("\"/>\n");
                    proof {
                        assert(out@ =~= before + svg_rect(x as int, y as int, bg));
                    }
                },
            }
        },
        Piece::SvgText => {
            if symbol_is_blank(cell.symbol.as_str()) {
                proof {
                    assert(out@ =~= before + Seq::<char>::empty());
                }
            } else {
                out.append("<text x=\"");
                push_decimal(out, x as u32 * CHAR_W);
                out.append("\" y=\"");
                // The base line of the text is near the lower edge of the
                // cell.
                push_decimal(out, y as u32 * CHAR_H + CHAR_H - 3);
                out.append("\" fill=\"");
                push_css_color(out, cell.fg);
                out.append("\">");
                push_escaped_text(out, cell.symbol.as_str(), true);
                out.append("</text>\n");
                proof {
                    assert(out@ =~= before + svg_text(x as int, y as int, cell@));
                }
            }
        },
    }
}

/// Appends to `out` what the cells of `buf` give to an export, row by row.
fn push_pieces(out: &mut String, buf: &Buffer, piece: Piece)
    ensures
        final(out)@ == old(out)@ + buffer_pieces(*buf, piece),
{
    let ghost before = out@;
    let ghost cells = buffer_cells(*buf);
    let area = area_of(buf);
    let mut y: u16 = 0;
    proof {
        assert(out@ =~= before + rows_pieces(cells, area, piece, 0));
    }
    while y < area.height
        invariant
            y <= area.height,
            area == buffer_area(*buf),
            cells == buffer_cells(*buf),
            out@ == before + rows_pieces(cells, area, piece, y as nat),
        decreases area.height - y,
    {
        let ghost rows = out@;
        let mut x: u16 = 0;
        proof {
            assert(out@ =~= rows + row_pieces(cells, area, piece, y as int, 0));
        }
        while x < area.width
            invariant
                x <= area.width,
                y < area.height,
                area == buffer_area(*buf),
                cells == buffer_cells(*buf),
                out@ == rows + row_pieces(cells, area, piece, y as int, x as nat),
            decreases area.width - x,
        {
            let ghost row = row_pieces(cells, area, piece, y as int, x as nat);
            push_piece(out, piece, x, y, cell_at(buf, x, y));
            proof {
                let next = piece_text(
                    piece,
                    x as int,
                    y as int,
                    cell_of(cells, area, x as int, y as int),
                );
                assert(out@ =~= rows + (row + next));
            }
            x += 1;
        }
        let ghost row = row_pieces(cells, area, piece, y as int, area.width as nat);
        match piece {
            Piece::Text => push_char(out, '\n'),
            Piece::HtmlSpan => push_char(out, '\n'),
            _ => {},
        }
        proof {
            let done = rows_pieces(cells, area, piece, y as nat);
            assert(out@ =~= before + (done + row + row_end(piece)));
        }
        y += 1;
    }
}

/// The buffer as plain text: the symbols, without their colours.
pub fn buffer_to_text(buf: &Buffer) -> (text: String)
    ensures
        text@ == buffer_text(*buf),
{
    let mut out = String::new();
    push_pieces(&mut out, buf, Piece::Text);
    proof {
        assert(out@ =~= buffer_text(*buf));
    }
    out
}

/// The buffer as an HTML page that needs nothing else, with the colours in
/// the style of each cell.
pub fn buffer_to_html(buf: &Buffer) -> (html: String)
    ensures
        html@ == buffer_html(*buf),
{
    let mut out = String::new();
    out.append(HTML_HEAD);
    push_pieces(&mut out, buf, Piece::HtmlSpan);
    out.append(HTML_TAIL);
    proof {
        assert(out@ =~= buffer_html(*buf));
    }
    out
}

/// The buffer as an SVG that needs nothing else: a rectangle for the
/// background of each cell, and a text for its symbol.
pub fn buffer_to_svg(buf: &Buffer) -> (svg: String)
    ensures
        svg@ == buffer_svg(*buf),
{
    let area = area_of(buf);
    let width: u32 = area.width as u32 * CHAR_W;
    let height: u32 = area.height as u32 * CHAR_H;
    let mut out = String::new();
    out.append(
        "<?xml version=\"1.0\" encoding=\"UTF-8\"?>\n<svg xmlns=\"http://www.w3.org/2000/svg\"\n     width=\"",
    );
    push_decimal(&mut out, width);
    out.append("\" height=\"");
    push_decimal(&mut out, height);
    out.append("\"\n     viewBox=\"0 0 ");
    push_decimal(&mut out, width);
    out.append(" ");
    push_decimal(&mut out, height);
    out.append(SVG_STYLE);
    push_decimal(&mut out, width);
    out.append("\" height=\"");
    push_decimal(&mut out, height);
    out.append("\" fill=\"#1e1e1e\"/>\n  <!-- cell backgrounds -->\n");
    push_pieces(&mut out, buf, Piece::SvgRect);
    out.append("\n  <!-- characters -->\n");
    push_pieces(&mut out, buf, Piece::SvgText);
    out.append("\n</svg>\n");
    proof {
        assert(out@ =~= buffer_svg(*buf));
    }
    out
}

} // verus!
