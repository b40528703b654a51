use ratatui::buffer::Buffer;
use ratatui::layout::Rect;
use ratatui::style::{Color, Style};
use tgv::rendering::export::{
    buffer_to_html, buffer_to_svg, buffer_to_text, color_to_css, color_to_css_owned,
    indexed_to_rgb, push_html_escaped, CHAR_H, CHAR_W,
};

fn make_buf(content: &str, w: u16, h: u16) -> Buffer {
    let mut buf = Buffer::empty(Rect { x: 0, y: 0, width: w, height: h });
    buf.set_string(0, 0, content, Style::default());
    buf
}

#[test]
fn test_buffer_to_text_contains_content() {
    let buf = make_buf("Hello", 10, 3);
    let text = buffer_to_text(&buf);
    assert!(text.contains("Hello"));
    // should have 3 lines
    assert_eq!(text.lines().count(), 3);
}

#[test]
fn test_buffer_to_html_structure() {
    let buf = make_buf("Hi", 5, 2);
    let html = buffer_to_html(&buf);
    assert!(html.contains("<!DOCTYPE html>"), "missing doctype");
    assert!(html.contains("<pre>"), "missing <pre>");
    assert!(html.contains("<span style="), "missing spans");
    // Each character renders in its own <span> so check individually.
    assert!(html.contains(">H<"), "missing 'H' in span");
    assert!(html.contains(">i<"), "missing 'i' in span");
}

#[test]
fn test_buffer_to_html_escapes_angle_brackets() {
    let mut buf = Buffer::empty(Rect { x: 0, y: 0, width: 10, height: 1 });
    buf.set_string(0, 0, "<tag>", Style::default());
    let html = buffer_to_html(&buf);
    // Each char is escaped individually inside its own span.
    assert!(html.contains("&lt;"), "< not escaped");
    assert!(html.contains("&gt;"), "> not escaped");
    assert!(!html.contains("<tag>"), "<tag> should not appear unescaped");
}

#[test]
fn test_buffer_to_svg_structure() {
    let buf = make_buf("TGV", 10, 3);
    let svg = buffer_to_svg(&buf);
    assert!(svg.contains("<?xml"), "missing xml declaration");
    assert!(svg.contains("<svg"), "missing <svg>");
    assert!(svg.contains("<rect"), "missing <rect>");
    assert!(svg.contains("<text"), "missing <text>");
    // Each character is in a separate <text> element.
    assert!(svg.contains(">T<"), "missing 'T' in text element");
    assert!(svg.contains(">G<"), "missing 'G' in text element");
    assert!(svg.contains(">V<"), "missing 'V' in text element");
}

#[test]
fn test_buffer_to_svg_dimensions() {
    let buf = make_buf("X", 20, 5);
    let svg = buffer_to_svg(&buf);
    let expected_w = 20u32 * CHAR_W;
    let expected_h = 5u32 * CHAR_H;
    assert!(svg.contains(&format!("width=\"{expected_w}\"")));
    assert!(svg.contains(&format!("height=\"{expected_h}\"")));
}

#[test]
fn test_color_to_css_rgb() {
    assert_eq!(color_to_css_owned(Color::Rgb(255, 128, 0)), "#ff8000");
    assert_eq!(color_to_css_owned(Color::Rgb(0, 0, 0)), "#000000");
}

#[test]
fn test_color_to_css_named() {
    assert_eq!(color_to_css_owned(Color::White), "#ffffff");
    assert_eq!(color_to_css_owned(Color::Reset), "inherit");
}

#[test]
fn test_indexed_to_rgb_values() {
    assert_eq!(indexed_to_rgb(0), (0, 0, 0));
    assert_eq!(indexed_to_rgb(7), (192, 192, 192));
    assert_eq!(indexed_to_rgb(8), (128, 128, 128));
    assert_eq!(indexed_to_rgb(15), (255, 255, 255));
    assert_eq!(indexed_to_rgb(16), (0, 0, 0));
    assert_eq!(indexed_to_rgb(17), (0, 0, 95));
    assert_eq!(indexed_to_rgb(21), (0, 0, 255));
    assert_eq!(indexed_to_rgb(22), (0, 95, 0));
    assert_eq!(indexed_to_rgb(52), (95, 0, 0));
    assert_eq!(indexed_to_rgb(110), (135, 175, 215));
    assert_eq!(indexed_to_rgb(231), (255, 255, 255));
    assert_eq!(indexed_to_rgb(232), (8, 8, 8));
    assert_eq!(indexed_to_rgb(233), (18, 18, 18));
    assert_eq!(indexed_to_rgb(255), (238, 238, 238));
}

#[test]
fn test_color_to_css_of_every_kind() {
    assert_eq!(color_to_css(Color::Red), "#800000");
    assert_eq!(color_to_css(Color::Gray), "#c0c0c0");
    assert_eq!(color_to_css(Color::DarkGray), "#808080");
    assert_eq!(color_to_css(Color::LightCyan), "#00ffff");
    assert_eq!(color_to_css(Color::Rgb(1, 2, 3)), "inherit");
    assert_eq!(color_to_css(Color::Indexed(9)), "inherit");
    assert_eq!(color_to_css_owned(Color::Indexed(9)), "#ff0000");
    assert_eq!(color_to_css_owned(Color::Indexed(110)), "#87afd7");
    assert_eq!(color_to_css_owned(Color::Indexed(244)), "#808080");
    assert_eq!(color_to_css_owned(Color::Rgb(0x0a, 0xbc, 0x9f)), "#0abc9f");
    assert_eq!(color_to_css_owned(Color::LightMagenta), "#ff00ff");
}

#[test]
fn test_push_html_escaped_each_case() {
    let mut out = String::from("x");
    for c in ['&', '<', '>', '"', ' ', 'a', '\'', '\u{25BA}'] {
        push_html_escaped(&mut out, c);
    }
    assert_eq!(out, "x&amp;&lt;&gt;&quot;&nbsp;a'\u{25BA}");
}

#[test]
fn test_buffer_to_text_exact() {
    let mut buf = make_buf("ab", 3, 2);
    buf.set_string(1, 1, "cd", Style::default());
    assert_eq!(buffer_to_text(&buf), "ab \n cd\n");
    assert_eq!(buffer_to_text(&Buffer::empty(Rect { x: 0, y: 0, width: 0, height: 2 })), "\n\n");
    assert_eq!(buffer_to_text(&Buffer::empty(Rect { x: 0, y: 0, width: 2, height: 0 })), "");
    // Places are counted from the corner of the screen: a buffer that starts
    // elsewhere shows the part of it that lies there.
    let mut moved = Buffer::empty(Rect { x: 1, y: 1, width: 2, height: 2 });
    moved.set_string(1, 1, "pq", Style::default());
    moved.set_string(1, 2, "rs", Style::default());
    assert_eq!(buffer_to_text(&moved), "  \n p\n");
}

#[test]
fn test_buffer_to_html_exact() {
    let mut buf = Buffer::empty(Rect { x: 0, y: 0, width: 2, height: 1 });
    buf.set_string(0, 0, "<", Style::new().fg(Color::Rgb(255, 0, 16)).bg(Color::Indexed(21)));
    let html = buffer_to_html(&buf);
    let head_end = html.find("<pre>").unwrap() + "<pre>".len();
    assert!(html.starts_with("<!DOCTYPE html>\n<html lang=\"en\">\n<head>\n  <meta charset=\"UTF-8\">\n"));
    assert!(html.contains("    body {\n      background: #1e1e1e;\n"));
    assert!(html.contains(
        "font-family: \"JetBrains Mono\", \"Fira Code\", \"Cascadia Code\",\n                   \"DejaVu Sans Mono\", \"Courier New\", monospace;\n"
    ));
    assert_eq!(
        &html[head_end..],
        "<span style=\"color:#ff0010;background-color:#0000ff\">&lt;</span>\
         <span style=\"color:inherit;background-color:inherit\">&nbsp;</span>\n\
         </pre>\n</body>\n</html>\n"
    );
}

#[test]
fn test_buffer_to_svg_exact() {
    let mut buf = Buffer::empty(Rect { x: 0, y: 0, width: 13, height: 2 });
    buf.content[12 + 13].set_symbol("'").set_fg(Color::Green).set_bg(Color::Indexed(232));
    buf.content[1].set_symbol("\0").set_fg(Color::Green);
    buf.content[2].set_symbol(" ").set_fg(Color::Green).set_bg(Color::Black);
    let svg = buffer_to_svg(&buf);
    assert_eq!(
        svg,
        "<?xml version=\"1.0\" encoding=\"UTF-8\"?>\n\
         <svg xmlns=\"http://www.w3.org/2000/svg\"\n     width=\"104\" height=\"32\"\n     viewBox=\"0 0 104 32\">\n  \
         <defs>\n    <style>\n      text {\n        \
         font-family: \"JetBrains Mono\", \"Fira Code\", \"Cascadia Code\",\n                     \
         \"DejaVu Sans Mono\", \"Courier New\", monospace;\n        \
         font-size: 16px;\n        font-weight: normal;\n      }\n    </style>\n  </defs>\n  \
         <!-- background fill -->\n  <rect width=\"104\" height=\"32\" fill=\"#1e1e1e\"/>\n  \
         <!-- cell backgrounds -->\n\
         <rect x=\"16\" y=\"0\" width=\"8\" height=\"16\" fill=\"#000000\"/>\n\
         <rect x=\"96\" y=\"16\" width=\"8\" height=\"16\" fill=\"#080808\"/>\n\
         \n  <!-- characters -->\n\
         <text x=\"96\" y=\"29\" fill=\"#008000\">&apos;</text>\n\
         \n</svg>\n"
    );
}

#[test]
fn test_symbols_of_several_characters() {
    let mut buf = Buffer::empty(Rect { x: 0, y: 0, width: 2, height: 1 });
    buf.content[0].set_symbol("<&");
    buf.content[1].set_symbol(" \0 ").set_bg(Color::Red);
    assert_eq!(buffer_to_text(&buf), "<& \0 \n");
    let html = buffer_to_html(&buf);
    assert!(html.contains(">&lt;&amp;</span>"));
    assert!(html.contains("background-color:#800000\">&nbsp;\0&nbsp;</span>"));
    let svg = buffer_to_svg(&buf);
    assert!(svg.contains("<text x=\"0\" y=\"13\" fill=\"inherit\">&lt;&amp;</text>\n"));
    assert_eq!(svg.matches("<text ").count(), 1);
    assert!(svg.contains("<rect x=\"8\" y=\"0\" width=\"8\" height=\"16\" fill=\"#800000\"/>\n"));
}

#[test]
fn test_buffer_with_too_few_cells() {
    let mut buf = Buffer::empty(Rect { x: 0, y: 0, width: 2, height: 2 });
    buf.set_string(0, 0, "abcd", Style::default());
    buf.set_string(0, 1, "cd", Style::default());
    buf.content.truncate(3);
    assert_eq!(buffer_to_text(&buf), "ab\nc \n");
}
