use tgv::text::{
    chars_of, is_whitespace_char, parse_u64_span, parse_usize_span, split_spans, string_of,
    trim_span, Span,
};

fn whole(text: &[char]) -> Span {
    Span { start: 0, end: text.len() }
}

fn pieces(input: &str, sep: char) -> Vec<String> {
    let text = chars_of(input);
    split_spans(&text, whole(&text), sep).iter().map(|span| string_of(&text, *span)).collect()
}

fn trimmed(input: &str) -> String {
    let text = chars_of(input);
    string_of(&text, trim_span(&text, whole(&text)))
}

fn number(input: &str) -> Option<usize> {
    let text = chars_of(input);
    parse_usize_span(&text, whole(&text))
}

#[test]
fn test_chars_and_strings() {
    assert_eq!(chars_of("a\u{25BA}b"), vec!['a', '\u{25BA}', 'b']);
    assert_eq!(chars_of(""), Vec::<char>::new());
    let text = chars_of("hello");
    assert_eq!(string_of(&text, Span { start: 1, end: 4 }), "ell");
    assert_eq!(string_of(&text, Span { start: 2, end: 2 }), "");
}

#[test]
fn test_split_is_one_piece_more_than_separators() {
    assert_eq!(pieces("", ';'), vec![""]);
    assert_eq!(pieces("abc", ';'), vec!["abc"]);
    assert_eq!(pieces("a;b", ';'), vec!["a", "b"]);
    assert_eq!(pieces(";a;;b;", ';'), vec!["", "a", "", "b", ""]);
    assert_eq!(pieces(";;", ';'), vec!["", "", ""]);
    assert_eq!(pieces("a,b;c", ','), vec!["a", "b;c"]);
    for input in ["", "x", ";", "a;b;c", ";;;;", "no separator"] {
        assert_eq!(pieces(input, ';'), input.split(';').collect::<Vec<_>>());
    }
}

#[test]
fn test_split_within_a_span() {
    let text = chars_of("xx;a,b,,c;yy");
    let spans = split_spans(&text, Span { start: 3, end: 9 }, ',');
    let found: Vec<(usize, usize)> = spans.iter().map(|s| (s.start, s.end)).collect();
    assert_eq!(found, vec![(3, 4), (5, 6), (7, 7), (8, 9)]);
}

#[test]
fn test_trim_takes_white_space_from_both_ends() {
    assert_eq!(trimmed(""), "");
    assert_eq!(trimmed("   "), "");
    assert_eq!(trimmed(" a b "), "a b");
    assert_eq!(trimmed("\t\n\u{B}\u{C}\r x\u{85}\u{A0}\u{1680}\u{2000}\u{200A}"), "x");
    assert_eq!(trimmed("\u{2028}\u{2029}\u{202F}\u{205F}\u{3000}y\u{3000}"), "y");
    // Near misses stay.
    assert_eq!(trimmed("\u{200B}z\u{1C}"), "\u{200B}z\u{1C}");
    for c in ['\u{8}', '\u{E}', '\u{1F}', '!', '\u{84}', '\u{86}', '\u{200B}', '\u{FEFF}'] {
        assert!(!is_whitespace_char(c));
        assert_eq!(c.is_whitespace(), is_whitespace_char(c));
    }
    for code in 0u32..0x3100 {
        if let Some(c) = char::from_u32(code) {
            assert_eq!(c.is_whitespace(), is_whitespace_char(c), "{code:#x}");
        }
    }
    let text = chars_of("ab   ");
    let span = trim_span(&text, Span { start: 2, end: 5 });
    assert_eq!((span.start, span.end), (5, 5));
}

#[test]
fn test_numbers() {
    assert_eq!(number("0"), Some(0));
    assert_eq!(number("007"), Some(7));
    assert_eq!(number("+12"), Some(12));
    assert_eq!(number("1234567890"), Some(1234567890));
    assert_eq!(number(""), None);
    assert_eq!(number("+"), None);
    assert_eq!(number("-1"), None);
    assert_eq!(number("++1"), None);
    assert_eq!(number("1 "), None);
    assert_eq!(number(" 1"), None);
    assert_eq!(number("1_000"), None);
    assert_eq!(number("12a"), None);
    assert_eq!(number("\u{661}"), None);
    assert_eq!(number(&usize::MAX.to_string()), Some(usize::MAX));
    assert_eq!(number(&format!("{}0", usize::MAX)), None);
    assert_eq!(number("99999999999999999999999999999999999999999"), None);
    let text = chars_of("18446744073709551615");
    assert_eq!(parse_u64_span(&text, whole(&text)), Some(u64::MAX));
    let text = chars_of("18446744073709551616");
    assert_eq!(parse_u64_span(&text, whole(&text)), None);
    let text = chars_of("x42y");
    assert_eq!(parse_u64_span(&text, Span { start: 1, end: 3 }), Some(42));
    for input in ["0", "+5", "", "+", "5+", "00", "18446744073709551615", "18446744073709551616"] {
        let text = chars_of(input);
        assert_eq!(parse_u64_span(&text, whole(&text)), input.parse::<u64>().ok(), "{input}");
    }
}
