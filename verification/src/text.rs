//! Splitting, trimming and number parsing on character sequences.
//!
//! The specifications speak of `Seq<char>`; the executable functions work on
//! a `Vec<char>` and hand out [`Span`]s into it, so that no text is copied.

use vstd::prelude::*;

verus! {

/// A half-open range of positions in a text.
#[derive(Clone, Copy, Debug)]
pub struct Span {
    pub start: usize,
    pub end: usize,
}

impl Span {
    /// The span lies inside `text`.
    pub open spec fn within(self, text: Seq<char>) -> bool {
        self.start <= self.end <= text.len()
    }

    /// The characters of `text` that the span covers.
    pub open spec fn of(self, text: Seq<char>) -> Seq<char> {
        text.subrange(self.start as int, self.end as int)
    }

    /// The span lies inside `outer`.
    pub open spec fn inside(self, outer: Span) -> bool {
        outer.start <= self.start <= self.end <= outer.end
    }
}

/// The characters that each span of `spans` covers.
pub open spec fn spans_text(spans: Seq<Span>, text: Seq<char>) -> Seq<Seq<char>> {
    Seq::new(spans.len(), |i: int| spans[i].of(text))
}

/// `pieces` tile `outer` from its start to its end, leaving out exactly one
/// position, that of a separator, between two neighbours.
pub open spec fn spans_chained(pieces: Seq<Span>, outer: Span) -> bool {
    &&& pieces.len() >= 1
    &&& pieces.first().start == outer.start
    &&& pieces.last().end == outer.end
    &&& forall|i: int| 0 <= i < pieces.len() ==> (#[trigger] pieces[i]).inside(outer)
    &&& forall|i: int|
        0 <= i < pieces.len() - 1 ==> (#[trigger] pieces[i + 1]).start == pieces[i].end + 1
}

/// The pieces of `s` between occurrences of `sep`. There is always one piece
/// more than there are separators, so the empty text has one empty piece.
pub open spec fn split(s: Seq<char>, sep: char) -> Seq<Seq<char>>
    decreases s.len(),
{
    if s.len() == 0 {
        seq![Seq::<char>::empty()]
    } else {
        let before = split(s.drop_last(), sep);
        if s.last() == sep {
            before.push(Seq::<char>::empty())
        } else {
            before.drop_last().push(before.last().push(s.last()))
        }
    }
}

/// The characters with the Unicode property `White_Space`.
pub open spec fn is_whitespace(c: char) -> bool {
    let u = c as u32;
    ||| 0x09 <= u <= 0x0D
    ||| u == 0x20
    ||| u == 0x85
    ||| u == 0xA0
    ||| u == 0x1680
    ||| 0x2000 <= u <= 0x200A
    ||| u == 0x2028
    ||| u == 0x2029
    ||| u == 0x202F
    ||| u == 0x205F
    ||| u == 0x3000
}

/// `s` without its leading whitespace.
pub open spec fn trim_start(s: Seq<char>) -> Seq<char>
    decreases s.len(),
{
    if s.len() > 0 && is_whitespace(s.first()) {
        trim_start(s.drop_first())
    } else {
        s
    }
}

/// `s` without its trailing whitespace.
pub open spec fn trim_end(s: Seq<char>) -> Seq<char>
    decreases s.len(),
{
    if s.len() > 0 && is_whitespace(s.last()) {
        trim_end(s.drop_last())
    } else {
        s
    }
}

/// `s` without its leading and trailing whitespace.
pub open spec fn trim(s: Seq<char>) -> Seq<char> {
    trim_end(trim_start(s))
}

/// `c` is one of the decimal digits `0` to `9`.
pub open spec fn is_digit(c: char) -> bool {
    0x30 <= c as u32 <= 0x39
}

/// Every character of `s` is a decimal digit.
pub open spec fn all_digits(s: Seq<char>) -> bool {
    forall|i: int| 0 <= i < s.len() ==> is_digit(#[trigger] s[i])
}

/// The number that the digits of `s` write in base ten.
pub open spec fn decimal_value(s: Seq<char>) -> nat
    decreases s.len(),
{
    if s.len() == 0 {
        0
    } else {
        decimal_value(s.drop_last()) * 10 + (s.last() as u32 - 0x30) as nat
    }
}

/// `s` without one leading plus sign.
pub open spec fn without_plus(s: Seq<char>) -> Seq<char> {
    if s.len() > 0 && s.first() == '+' {
        s.drop_first()
    } else {
        s
    }
}

/// The number that `s` writes, if it is an optional plus sign followed by one
/// or more decimal digits whose value fits 64 bits.
pub open spec fn parse_u64(s: Seq<char>) -> Option<u64> {
    let digits = without_plus(s);
    if digits.len() > 0 && all_digits(digits) && decimal_value(digits) <= u64::MAX {
        Some(decimal_value(digits) as u64)
    } else {
        None
    }
}

/// The number that `s` writes, if it is an optional plus sign followed by one
/// or more decimal digits whose value fits the machine word.
pub open spec fn parse_usize(s: Seq<char>) -> Option<usize> {
    let digits = without_plus(s);
    if digits.len() > 0 && all_digits(digits) && decimal_value(digits) <= usize::MAX {
        Some(decimal_value(digits) as usize)
    } else {
        None
    }
}

/// A prefix of a digit string writes a number no larger than the whole.
pub proof fn lemma_decimal_prefix(s: Seq<char>, k: int)
    requires
        0 <= k <= s.len(),
    ensures
        decimal_value(s.take(k)) <= decimal_value(s),
    decreases s.len() - k,
{
    if k == s.len() {
        assert(s.take(k) =~= s);
    } else {
        lemma_decimal_prefix(s.drop_last(), k);
        assert(s.drop_last().take(k) =~= s.take(k));
    }
}

/// Appends `c` to `s`.
///
/// This is `String::push` of the standard library, which is taken on trust
/// to append the given character to the end of the string.
#[verifier::external_body]
pub(crate) fn push_char(s: &mut String, c: char)
    ensures
        final(s)@ == old(s)@.push(c),
{
    s.push(c)
}

/// The characters that `span` of `text` covers, as a string.
pub fn string_of(text: &Vec<char>, span: Span) -> (string: String)
    requires
        span.within(text@),
    ensures
        string@ == span.of(text@),
{
    let mut string = String::new();
    let mut i: usize = span.start;
    while i < span.end
        invariant
            span.within(text@),
            span.start <= i <= span.end,
            string@ == text@.subrange(span.start as int, i as int),
        decreases span.end - i,
    {
        push_char(&mut string, text[i]);
        proof {
            assert(string@ =~= text@.subrange(span.start as int, i + 1));
        }
        i += 1;
    }
    string
}

/// The characters of `s`, in order.
pub fn chars_of(s: &str) -> (text: Vec<char>)
    ensures
        text@ == s@,
{
    let mut text: Vec<char> = Vec::new();
    for c in it: s.chars()
        invariant
            text@ == it.seq().take(it.index() as int),
            it.seq() == s@,
    {
        text.push(c);
    }
    text
}

/// Cuts `span` of `text` at every `sep`.
pub fn split_spans(text: &Vec<char>, span: Span, sep: char) -> (pieces: Vec<Span>)
    requires
        span.within(text@),
    ensures
        spans_text(pieces@, text@) == split(span.of(text@), sep),
        spans_chained(pieces@, span),
{
    let mut pieces: Vec<Span> = Vec::new();
    let mut begin: usize = span.start;
    let mut i: usize = span.start;
    proof {
        assert(text@.subrange(span.start as int, i as int) =~= Seq::<char>::empty());
        assert(spans_text(pieces@, text@).push(text@.subrange(begin as int, i as int))
            =~= seq![Seq::<char>::empty()]);
    }
    while i < span.end
        invariant
            span.within(text@),
            span.start <= begin <= i <= span.end,
            split(text@.subrange(span.start as int, i as int), sep) == spans_text(
                pieces@,
                text@,
            ).push(text@.subrange(begin as int, i as int)),
            pieces.len() == 0 ==> begin == span.start,
            pieces.len() > 0 ==> pieces@.first().start == span.start && begin == pieces@.last().end
                + 1,
            forall|j: int| 0 <= j < pieces.len() ==> (#[trigger] pieces@[j]).inside(span),
            forall|j: int|
                0 <= j < pieces.len() - 1 ==> (#[trigger] pieces@[j + 1]).start == pieces@[j].end
                    + 1,
        decreases span.end - i,
    {
        let ghost seen = text@.subrange(span.start as int, i as int);
        let ghost next = text@.subrange(span.start as int, i + 1);
        let ghost done = spans_text(pieces@, text@);
        proof {
            assert(next.drop_last() =~= seen);
            assert(next.last() == text@[i as int]);
        }
        if text[i] == sep {
            pieces.push(Span { start: begin, end: i });
            proof {
                assert(spans_text(pieces@, text@) =~= done.push(
                    text@.subrange(begin as int, i as int),
                ));
                assert(text@.subrange(i + 1, i + 1) =~= Seq::<char>::empty());
            }
            begin = i + 1;
        } else {
            proof {
                let open = text@.subrange(begin as int, i as int);
                assert(done.push(open).drop_last() =~= done);
                assert(open.push(text@[i as int]) =~= text@.subrange(begin as int, i + 1));
            }
        }
        i += 1;
    }
    let ghost done = spans_text(pieces@, text@);
    pieces.push(Span { start: begin, end: span.end });
    proof {
        assert(spans_text(pieces@, text@) =~= done.push(
            text@.subrange(begin as int, span.end as int),
        ));
    }
    pieces
}

/// Whether `c` is whitespace.
pub fn is_whitespace_char(c: char) -> (white: bool)
    ensures
        white == is_whitespace(c),
{
    let u: u32 = c as u32;
    (0x09 <= u && u <= 0x0D) || u == 0x20 || u == 0x85 || u == 0xA0 || u == 0x1680 || (0x2000 <= u
        && u <= 0x200A) || u == 0x2028 || u == 0x2029 || u == 0x202F || u == 0x205F || u == 0x3000
}

/// Narrows `span` of `text` until neither end is whitespace.
pub fn trim_span(text: &Vec<char>, span: Span) -> (trimmed: Span)
    requires
        span.within(text@),
    ensures
        trimmed.of(text@) == trim(span.of(text@)),
        trimmed.inside(span),
        trimmed.start == span.end - trim_start(span.of(text@)).len(),
{
    let mut start: usize = span.start;
    while start < span.end && is_whitespace_char(text[start])
        invariant
            span.within(text@),
            span.start <= start <= span.end,
            trim_start(span.of(text@)) == trim_start(
                text@.subrange(start as int, span.end as int),
            ),
        decreases span.end - start,
    {
        proof {
            let rest = text@.subrange(start as int, span.end as int);
            assert(rest.drop_first() =~= text@.subrange(start + 1, span.end as int));
        }
        start += 1;
    }
    let mut end: usize = span.end;
    while start < end && is_whitespace_char(text[end - 1])
        invariant
            span.within(text@),
            span.start <= start <= end <= span.end,
            trim_start(span.of(text@)) == text@.subrange(start as int, span.end as int),
            trim(span.of(text@)) == trim_end(text@.subrange(start as int, end as int)),
        decreases end - start,
    {
        proof {
            let rest = text@.subrange(start as int, end as int);
            assert(rest.drop_last() =~= text@.subrange(start as int, end - 1));
        }
        end -= 1;
    }
    Span { start, end }
}

/// Reads `span` of `text` as an unsigned decimal number of 64 bits.
pub fn parse_u64_span(text: &Vec<char>, span: Span) -> (number: Option<u64>)
    requires
        span.within(text@),
    ensures
        number == parse_u64(span.of(text@)),
{
    let mut i: usize = span.start;
    if i < span.end && text[i] == '+' {
        i += 1;
    }
    let first: usize = i;
    let ghost digits = without_plus(span.of(text@));
    proof {
        assert(digits =~= text@.subrange(first as int, span.end as int));
    }
    if first == span.end {
        return None;
    }
    let mut value: u64 = 0;
    while i < span.end
        invariant
            span.within(text@),
            span.start <= first <= i <= span.end,
            digits == without_plus(span.of(text@)),
            digits == text@.subrange(first as int, span.end as int),
            all_digits(digits.take(i - first)),
            value == decimal_value(digits.take(i - first)),
        decreases span.end - i,
    {
        let c: u32 = text[i] as u32;
        let ghost seen = digits.take(i - first);
        let ghost next = digits.take(i - first + 1);
        proof {
            assert(next.drop_last() =~= seen);
            assert(next.last() == text@[i as int]);
            assert(digits[i - first] == text@[i as int]);
        }
        if c < 0x30 || c > 0x39 {
            proof {
                assert(!is_digit(digits[i - first]));
            }
            return None;
        }
        proof {
            assert(decimal_value(next) == value * 10 + (c - 0x30));
        }
        let digit: u64 = (c - 0x30) as u64;
        let scaled = match value.checked_mul(10) {
            Some(scaled) => scaled,
            None => {
                proof {
                    lemma_decimal_prefix(digits, i - first + 1);
                }
                return None;
            },
        };
        value = match scaled.checked_add(digit) {
            Some(sum) => sum,
            None => {
                proof {
                    lemma_decimal_prefix(digits, i - first + 1);
                }
                return None;
            },
        };
        proof {
            assert forall|j: int| 0 <= j < next.len() implies is_digit(#[trigger] next[j]) by {
                if j < seen.len() {
                    assert(next[j] == seen[j]);
                }
            }
        }
        i += 1;
    }
    proof {
        assert(digits.take(i - first) =~= digits);
    }
    Some(value)
}

/// Reads `span` of `text` as an unsigned decimal number.
pub fn parse_usize_span(text: &Vec<char>, span: Span) -> (number: Option<usize>)
    requires
        span.within(text@),
    ensures
        number == parse_usize(span.of(text@)),
{
    match parse_u64_span(text, span) {
        Some(value) => if value <= usize::MAX as u64 {
            Some(value as usize)
        } else {
            None
        },
        None => None,
    }
}

} // verus!
