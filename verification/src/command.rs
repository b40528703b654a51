//! The command language: what the text typed in command mode asks for.
//!
//! The grammar is given by specification functions that read a text from a
//! position on and say where they end; the executable functions follow them
//! on a vector of characters.

use crate::error::TGVError;
use crate::message::{
    AlignmentDisplayOption, AlignmentFilter, AlignmentSort, ExportFormat, Message, Movement,
};
use crate::text::{
    chars_of, decimal_value, is_digit, lemma_decimal_prefix, parse_u64, parse_u64_span, push_char,
    spans_chained, spans_text, split, split_spans, string_of, trim, trim_span, Span,
};
use vstd::prelude::*;

verus! {

/// Space, tab, carriage return and line feed.
pub open spec fn is_multispace(c: char) -> bool {
    c == ' ' || c == '\t' || c == '\r' || c == '\n'
}

/// The position behind the spaces, tabs, carriage returns and line feeds
/// that stand at `pos`.
pub open spec fn multispace0(text: Seq<char>, pos: int) -> int
    decreases text.len() - pos,
{
    if 0 <= pos < text.len() && is_multispace(text[pos]) {
        multispace0(text, pos + 1)
    } else {
        pos
    }
}

/// The code of `c`, or of its lower-case form if it is an ASCII capital.
pub open spec fn lower(c: char) -> u32 {
    let code = c as u32;
    if 0x41 <= code <= 0x5A {
        (code + 0x20) as u32
    } else {
        code
    }
}

/// `tag` stands at `pos`, whatever the case of its ASCII letters.
pub open spec fn stands_no_case(text: Seq<char>, pos: int, tag: Seq<char>) -> bool {
    &&& 0 <= pos
    &&& pos + tag.len() <= text.len()
    &&& forall|i: int| 0 <= i < tag.len() ==> lower(#[trigger] text[pos + i]) == lower(tag[i])
}

/// The position behind `tag`, if it stands at `pos` in any case.
pub open spec fn tag_no_case(text: Seq<char>, pos: int, tag: Seq<char>) -> Option<int> {
    if stands_no_case(text, pos, tag) {
        Some(pos + tag.len())
    } else {
        None
    }
}

/// The position behind `c`, if it stands at `pos`.
pub open spec fn one_char(text: Seq<char>, pos: int, c: char) -> Option<int> {
    if 0 <= pos < text.len() && text[pos] == c {
        Some(pos + 1)
    } else {
        None
    }
}

/// The position behind the first of `a` and `b`, tried in this order, that
/// stands at `pos` in any case.
pub open spec fn either_tag(text: Seq<char>, pos: int, a: Seq<char>, b: Seq<char>) -> Option<
    int,
> {
    match tag_no_case(text, pos, a) {
        Some(end) => Some(end),
        None => tag_no_case(text, pos, b),
    }
}

/// The position behind the decimal digits that stand at `pos`.
pub open spec fn digits_end(text: Seq<char>, pos: int) -> int
    decreases text.len() - pos,
{
    if 0 <= pos < text.len() && is_digit(text[pos]) {
        digits_end(text, pos + 1)
    } else {
        pos
    }
}

/// The number that the decimal digits at `pos` write, and the position
/// behind them. There is none if no digit stands there or if the number does
/// not fit 64 bits.
pub open spec fn number(text: Seq<char>, pos: int) -> Option<(u64, int)> {
    let end = digits_end(text, pos);
    if pos < end && decimal_value(text.subrange(pos, end)) <= u64::MAX {
        Some((decimal_value(text.subrange(pos, end)) as u64, end))
    } else {
        None
    }
}

/// What stands at `pos` of a pair of parentheses with or without a number in
/// them, and the position behind it: `None` without parentheses,
/// `Some(None)` for an empty pair.
pub open spec fn optional_parenthesis(text: Seq<char>, pos: int) -> (Option<Option<u64>>, int) {
    match one_char(text, pos, '(') {
        Some(open) => {
            let (inner, at) = match number(text, open) {
                Some((value, end)) => (Some(value), end),
                None => (None, open),
            };
            match one_char(text, at, ')') {
                Some(end) => (Some(inner), end),
                None => (None, pos),
            }
        },
        None => (None, pos),
    }
}

/// The order that `BASE`, with or without a position in parentheses, asks
/// for.
pub open spec fn base_sort_unit(text: Seq<char>, pos: int) -> Option<(AlignmentSort, int)> {
    match tag_no_case(text, pos, "BASE"@) {
        Some(at) => {
            let (position, end) = optional_parenthesis(text, at);
            match position {
                Some(Some(position)) => Some((AlignmentSort::BaseAt(position), end)),
                _ => Some((AlignmentSort::BaseAtCurrentPosition, end)),
            }
        },
        None => None,
    }
}

/// The order that `STRAND`, with or without a position in parentheses, asks
/// for.
pub open spec fn strand_sort_unit(text: Seq<char>, pos: int) -> Option<(AlignmentSort, int)> {
    match tag_no_case(text, pos, "STRAND"@) {
        Some(at) => {
            let (position, end) = optional_parenthesis(text, at);
            match position {
                Some(Some(position)) => Some((AlignmentSort::StrandAt(position), end)),
                _ => Some((AlignmentSort::StrandAtCurrentBase, end)),
            }
        },
        None => None,
    }
}

/// The order that the word at `pos` asks for, if it is the word `tag`.
pub open spec fn word_sort(text: Seq<char>, pos: int, tag: Seq<char>, sort: AlignmentSort) -> Option<
    (AlignmentSort, int),
> {
    match tag_no_case(text, pos, tag) {
        Some(end) => Some((sort, end)),
        None => None,
    }
}

/// The first of `a` and `b` that is there.
pub open spec fn or_else<T>(a: Option<T>, b: Option<T>) -> Option<T> {
    match a {
        Some(found) => Some(found),
        None => b,
    }
}

/// One order by its name.
pub open spec fn sort_unit(text: Seq<char>, pos: int) -> Option<(AlignmentSort, int)> {
    or_else(
        base_sort_unit(text, pos),
        or_else(
            strand_sort_unit(text, pos),
            or_else(
                word_sort(text, pos, "START"@, AlignmentSort::Start),
                or_else(
                    word_sort(text, pos, "MAPQ"@, AlignmentSort::MappingQuality),
                    or_else(
                        word_sort(text, pos, "SAMPLE"@, AlignmentSort::Sample),
                        or_else(
                            word_sort(text, pos, "READGROUP"@, AlignmentSort::ReadGroup),
                            or_else(
                                word_sort(text, pos, "READORDER"@, AlignmentSort::ReadOrder),
                                or_else(
                                    word_sort(text, pos, "READNAME"@, AlignmentSort::ReadName),
                                    or_else(
                                        word_sort(
                                            text,
                                            pos,
                                            "LENGTH"@,
                                            AlignmentSort::AlignedReadLength,
                                        ),
                                        or_else(
                                            word_sort(
                                                text,
                                                pos,
                                                "INSERTSIZE"@,
                                                AlignmentSort::InsertSize,
                                            ),
                                            or_else(
                                                word_sort(
                                                    text,
                                                    pos,
                                                    "MATECONTIG"@,
                                                    AlignmentSort::ChromosomeOfMate,
                                                ),
                                                word_sort(text, pos, "TAG"@, AlignmentSort::Tag),
                                            ),
                                        ),
                                    ),
                                ),
                            ),
                        ),
                    ),
                ),
            ),
        ),
    )
}

/// One order and its direction: `DESC` behind it turns it round, `ASC`
/// leaves it as it is.
pub open spec fn sort_and_direction(text: Seq<char>, pos: int) -> Option<(AlignmentSort, int)> {
    match sort_unit(text, pos) {
        Some((sort, end)) => {
            let at = multispace0(text, end);
            match tag_no_case(text, at, "DESC"@) {
                Some(end) => Some((AlignmentSort::Reverse(Box::new(sort)), end)),
                None => match tag_no_case(text, at, "ASC"@) {
                    Some(end) => Some((sort, end)),
                    None => Some((sort, at)),
                },
            }
        },
        None => None,
    }
}

/// The position behind a comma with any white space around it.
pub open spec fn comma(text: Seq<char>, pos: int) -> Option<int> {
    match one_char(text, multispace0(text, pos), ',') {
        Some(end) => Some(multispace0(text, end)),
        None => None,
    }
}

/// `first` followed by the orders that stand at `pos`, each behind a comma:
/// the reads are put in the first order, and those that are equal in it in
/// the next.
pub open spec fn more_sorts(text: Seq<char>, pos: int, first: AlignmentSort) -> (
    AlignmentSort,
    int,
)
    decreases text.len() - pos,
{
    match comma(text, pos) {
        Some(at) => match sort_and_direction(text, at) {
            Some((sort, end)) => if pos < end <= text.len() {
                more_sorts(text, end, AlignmentSort::Then(Box::new(first), Box::new(sort)))
            } else {
                (first, pos)
            },
            None => (first, pos),
        },
        None => (first, pos),
    }
}

/// The order that a list of orders with commas between them asks for; the
/// empty list asks for the default order.
pub open spec fn sort_expression(text: Seq<char>, pos: int) -> (AlignmentSort, int) {
    let at = multispace0(text, pos);
    match sort_and_direction(text, at) {
        Some((first, end)) => {
            let (sort, end) = more_sorts(text, end, first);
            (sort, multispace0(text, end))
        },
        None => (AlignmentSort::Default, at),
    }
}

/// `SORT` or `ORDER BY` and the order behind it.
pub open spec fn sort_option(text: Seq<char>, pos: int) -> Option<(AlignmentDisplayOption, int)> {
    match either_tag(text, multispace0(text, pos), "SORT"@, "ORDER BY"@) {
        Some(at) => {
            let (sort, end) = sort_expression(text, at);
            Some((AlignmentDisplayOption::Sort(sort), multispace0(text, end)))
        },
        None => None,
    }
}

/// The base that a filter names.
pub enum FilterBase {
    /// This letter, in the case in which it was written.
    Letter(char),
    /// Any soft-clipped base.
    SoftClip,
}

/// The base at `pos`: one of the letters A, T, C, G and N, or the word
/// `SOFTCLIP`, in any case.
pub open spec fn filter_base(text: Seq<char>, pos: int) -> Option<(FilterBase, int)> {
    if tag_no_case(text, pos, "A"@) is Some || tag_no_case(text, pos, "T"@) is Some || tag_no_case(
        text,
        pos,
        "C"@,
    ) is Some || tag_no_case(text, pos, "G"@) is Some || tag_no_case(text, pos, "N"@) is Some {
        Some((FilterBase::Letter(text[pos]), pos + 1))
    } else {
        match tag_no_case(text, pos, "SOFTCLIP"@) {
            Some(end) => Some((FilterBase::SoftClip, end)),
            None => None,
        }
    }
}

/// The filter that `BASE`, with or without a position in parentheses, an
/// equals sign and a base ask for.
pub open spec fn node_base_filter(text: Seq<char>, pos: int) -> Option<(AlignmentFilter, int)> {
    match tag_no_case(text, pos, "BASE"@) {
        Some(at) => {
            let (position, at) = optional_parenthesis(text, at);
            match one_char(text, multispace0(text, at), '=') {
                Some(at) => match filter_base(text, multispace0(text, at)) {
                    Some((base, end)) => Some(
                        (
                            match (position, base) {
                                (Some(Some(position)), FilterBase::SoftClip) => {
                                    AlignmentFilter::BaseSoftclip(position)
                                },
                                (_, FilterBase::SoftClip) => {
                                    AlignmentFilter::BaseAtCurrentPositionSoftClip
                                },
                                (Some(Some(position)), FilterBase::Letter(letter)) => {
                                    AlignmentFilter::Base(position, letter)
                                },
                                (_, FilterBase::Letter(letter)) => {
                                    AlignmentFilter::BaseAtCurrentPosition(letter)
                                },
                            },
                            end,
                        ),
                    ),
                    None => None,
                },
                None => None,
            }
        },
        None => None,
    }
}

/// `FILTER` or `WHERE` and the filter behind it.
pub open spec fn filter_option(text: Seq<char>, pos: int) -> Option<
    (AlignmentDisplayOption, int),
> {
    match either_tag(text, multispace0(text, pos), "FILTER"@, "WHERE"@) {
        Some(at) => match node_base_filter(text, multispace0(text, at)) {
            Some((filter, end)) => Some(
                (
                    AlignmentDisplayOption::Filter(filter),
                    multispace0(text, multispace0(text, end)),
                ),
            ),
            None => None,
        },
        None => None,
    }
}

/// One display option: a filter or an order.
pub open spec fn display_option(text: Seq<char>, pos: int) -> Option<
    (AlignmentDisplayOption, int),
> {
    or_else(filter_option(text, pos), sort_option(text, pos))
}

/// The display options that stand at `pos`, one behind the other, and the
/// position behind the last.
pub open spec fn display_options(text: Seq<char>, pos: int) -> (Seq<AlignmentDisplayOption>, int)
    decreases text.len() - pos,
{
    match display_option(text, pos) {
        Some((option, end)) => if pos < end <= text.len() {
            let (more, end) = display_options(text, end);
            (seq![option] + more, end)
        } else {
            (Seq::<AlignmentDisplayOption>::empty(), pos)
        },
        None => (Seq::<AlignmentDisplayOption>::empty(), pos),
    }
}

/// `found` is the position that `wanted` says.
pub open spec fn at_position(found: Option<usize>, wanted: Option<int>) -> bool {
    match wanted {
        Some(end) => found matches Some(at) && at == end,
        None => found is None,
    }
}

/// `found` is the value and the position that `wanted` says.
pub open spec fn at_parse<T>(found: Option<(T, usize)>, wanted: Option<(T, int)>) -> bool {
    match wanted {
        Some((value, end)) => found matches Some((read, at)) && read == value && at == end,
        None => found is None,
    }
}

/// Digits end at the end of the text at the latest.
proof fn lemma_digits_end_bounds(text: Seq<char>, pos: int)
    requires
        0 <= pos <= text.len(),
    ensures
        pos <= digits_end(text, pos) <= text.len(),
    decreases text.len() - pos,
{
    if pos < text.len() && is_digit(text[pos]) {
        lemma_digits_end_bounds(text, pos + 1);
    }
}

/// Skips the white space at `pos`.
fn skip_multispace(text: &Vec<char>, pos: usize) -> (end: usize)
    requires
        pos <= text.len(),
    ensures
        end == multispace0(text@, pos as int),
        pos <= end <= text.len(),
{
    let mut end: usize = pos;
    while end < text.len() && (text[end] == ' ' || text[end] == '\t' || text[end] == '\r'
        || text[end] == '\n')
        invariant
            pos <= end <= text.len(),
            multispace0(text@, pos as int) == multispace0(text@, end as int),
        decreases text.len() - end,
    {
        end += 1;
    }
    end
}

/// The code of `c`, or of its lower-case form if it is an ASCII capital.
fn lower_code(c: char) -> (code: u32)
    ensures
        code == lower(c),
{
    let code: u32 = c as u32;
    if 0x41 <= code && code <= 0x5A {
        code + 0x20
    } else {
        code
    }
}

/// Reads `tag` at `pos`, in any case.
fn read_tag_no_case(text: &Vec<char>, pos: usize, tag: &str) -> (end: Option<usize>)
    requires
        pos <= text.len(),
    ensures
        at_position(end, tag_no_case(text@, pos as int, tag@)),
        end matches Some(end) ==> pos + tag@.len() == end && end <= text.len(),
{
    let letters = chars_of(tag);
    if letters.len() > text.len() - pos {
        return None;
    }
    let mut i: usize = 0;
    while i < letters.len()
        invariant
            i <= letters.len(),
            letters@ == tag@,
            pos + letters.len() <= text.len(),
            forall|j: int| 0 <= j < i ==> lower(#[trigger] text@[pos + j]) == lower(letters@[j]),
        decreases letters.len() - i,
    {
        if lower_code(text[pos + i]) != lower_code(letters[i]) {
            proof {
                assert(lower(text@[pos + i]) != lower(tag@[i as int]));
            }
            return None;
        }
        i += 1;
    }
    Some(pos + letters.len())
}

/// Reads the character `c` at `pos`.
fn read_char(text: &Vec<char>, pos: usize, c: char) -> (end: Option<usize>)
    requires
        pos <= text.len(),
    ensures
        at_position(end, one_char(text@, pos as int, c)),
        end matches Some(end) ==> pos + 1 == end && end <= text.len(),
{
    if pos < text.len() && text[pos] == c {
        Some(pos + 1)
    } else {
        None
    }
}

/// Reads the first of `a` and `b` that stands at `pos`.
fn read_either_tag(text: &Vec<char>, pos: usize, a: &str, b: &str) -> (end: Option<usize>)
    requires
        pos <= text.len(),
    ensures
        at_position(end, either_tag(text@, pos as int, a@, b@)),
        end matches Some(end) ==> pos <= end <= text.len() && (a@.len() > 0 && b@.len() > 0
            ==> pos < end),
{
    match read_tag_no_case(text, pos, a) {
        Some(end) => Some(end),
        None => read_tag_no_case(text, pos, b),
    }
}

/// Whether `c` is a decimal digit.
fn is_digit_char(c: char) -> (digit: bool)
    ensures
        digit == is_digit(c),
{
    let code: u32 = c as u32;
    0x30 <= code && code <= 0x39
}

/// Reads the number at `pos`.
fn read_number(text: &Vec<char>, pos: usize) -> (found: Option<(u64, usize)>)
    requires
        pos <= text.len(),
    ensures
        at_parse(found, number(text@, pos as int)),
        found matches Some((_, end)) ==> pos < end <= text.len(),
{
    let mut end: usize = pos;
    let mut value: u64 = 0;
    proof {
        assert(text@.subrange(pos as int, pos as int) =~= Seq::<char>::empty());
        lemma_digits_end_bounds(text@, pos as int);
    }
    while end < text.len() && is_digit_char(text[end])
        invariant
            pos <= end <= text.len(),
            digits_end(text@, pos as int) == digits_end(text@, end as int),
            end <= digits_end(text@, pos as int) <= text.len(),
            value == decimal_value(text@.subrange(pos as int, end as int)),
        decreases text.len() - end,
    {
        let digit: u64 = (text[end] as u32 - 0x30) as u64;
        let ghost all = text@.subrange(pos as int, digits_end(text@, pos as int));
        let ghost upto = text@.subrange(pos as int, end + 1);
        proof {
            lemma_digits_end_bounds(text@, end + 1);
            assert(upto.drop_last() =~= text@.subrange(pos as int, end as int));
            assert(all.take(end + 1 - pos) =~= upto);
            lemma_decimal_prefix(all, end + 1 - pos);
        }
        let scaled = match value.checked_mul(10) {
            Some(scaled) => scaled,
            None => {
                return None;
            },
        };
        value = match scaled.checked_add(digit) {
            Some(sum) => sum,
            None => {
                return None;
            },
        };
        end += 1;
    }
    proof {
        assert(end == digits_end(text@, pos as int));
    }
    if end == pos {
        None
    } else {
        Some((value, end))
    }
}

/// Reads a pair of parentheses with or without a number in them, if one
/// stands at `pos`.
fn parse_optional_parenthesis(text: &Vec<char>, pos: usize) -> (found: (Option<Option<u64>>, usize))
    requires
        pos <= text.len(),
    ensures
        found.0 == optional_parenthesis(text@, pos as int).0,
        found.1 == optional_parenthesis(text@, pos as int).1,
        pos <= found.1 <= text.len(),
{
    match read_char(text, pos, '(') {
        Some(open) => {
            let (inner, at) = match read_number(text, open) {
                Some((value, end)) => (Some(value), end),
                None => (None, open),
            };
            match read_char(text, at, ')') {
                Some(end) => (Some(inner), end),
                None => (None, pos),
            }
        },
        None => (None, pos),
    }
}

/// Reads `BASE` with or without a position as an order.
fn base_sort_unit_at(text: &Vec<char>, pos: usize) -> (found: Option<(AlignmentSort, usize)>)
    requires
        pos <= text.len(),
    ensures
        at_parse(found, base_sort_unit(text@, pos as int)),
        found matches Some((_, end)) ==> pos < end <= text.len(),
{
    proof {
        reveal_strlit("BASE");
    }
    match read_tag_no_case(text, pos, "BASE") {
        Some(at) => {
            let (position, end) = parse_optional_parenthesis(text, at);
            match position {
                Some(Some(position)) => Some((AlignmentSort::BaseAt(position), end)),
                _ => Some((AlignmentSort::BaseAtCurrentPosition, end)),
            }
        },
        None => None,
    }
}

/// Reads `STRAND` with or without a position as an order.
fn strand_sort_unit_at(text: &Vec<char>, pos: usize) -> (found: Option<(AlignmentSort, usize)>)
    requires
        pos <= text.len(),
    ensures
        at_parse(found, strand_sort_unit(text@, pos as int)),
        found matches Some((_, end)) ==> pos < end <= text.len(),
{
    proof {
        reveal_strlit("STRAND");
    }
    match read_tag_no_case(text, pos, "STRAND") {
        Some(at) => {
            let (position, end) = parse_optional_parenthesis(text, at);
            match position {
                Some(Some(position)) => Some((AlignmentSort::StrandAt(position), end)),
                _ => Some((AlignmentSort::StrandAtCurrentBase, end)),
            }
        },
        None => None,
    }
}

/// Reads the word `tag` as the order `sort`.
fn word_sort_at(text: &Vec<char>, pos: usize, tag: &str, sort: AlignmentSort) -> (found: Option<
    (AlignmentSort, usize),
>)
    requires
        pos <= text.len(),
    ensures
        at_parse(found, word_sort(text@, pos as int, tag@, sort)),
        found matches Some((_, end)) ==> pos + tag@.len() == end && end <= text.len(),
{
    match read_tag_no_case(text, pos, tag) {
        Some(end) => Some((sort, end)),
        None => None,
    }
}

/// Reads one order by its name.
fn sort_unit_at(text: &Vec<char>, pos: usize) -> (found: Option<(AlignmentSort, usize)>)
    requires
        pos <= text.len(),
    ensures
        at_parse(found, sort_unit(text@, pos as int)),
        found matches Some((_, end)) ==> pos < end <= text.len(),
{
    proof {
        reveal_strlit("START");
        reveal_strlit("MAPQ");
        reveal_strlit("SAMPLE");
        reveal_strlit("READGROUP");
        reveal_strlit("READORDER");
        reveal_strlit("READNAME");
        reveal_strlit("LENGTH");
        reveal_strlit("INSERTSIZE");
        reveal_strlit("MATECONTIG");
        reveal_strlit("TAG");
    }
    if let Some(found) = base_sort_unit_at(text, pos) {
        return Some(found);
    }
    if let Some(found) = strand_sort_unit_at(text, pos) {
        return Some(found);
    }
    if let Some(found) = word_sort_at(text, pos, "START", AlignmentSort::Start) {
        return Some(found);
    }
    if let Some(found) = word_sort_at(text, pos, "MAPQ", AlignmentSort::MappingQuality) {
        return Some(found);
    }
    if let Some(found) = word_sort_at(text, pos, "SAMPLE", AlignmentSort::Sample) {
        return Some(found);
    }
    if let Some(found) = word_sort_at(text, pos, "READGROUP", AlignmentSort::ReadGroup) {
        return Some(found);
    }
    if let Some(found) = word_sort_at(text, pos, "READORDER", AlignmentSort::ReadOrder) {
        return Some(found);
    }
    if let Some(found) = word_sort_at(text, pos, "READNAME", AlignmentSort::ReadName) {
        return Some(found);
    }
    if let Some(found) = word_sort_at(text, pos, "LENGTH", AlignmentSort::AlignedReadLength) {
        return Some(found);
    }
    if let Some(found) = word_sort_at(text, pos, "INSERTSIZE", AlignmentSort::InsertSize) {
        return Some(found);
    }
    if let Some(found) = word_sort_at(text, pos, "MATECONTIG", AlignmentSort::ChromosomeOfMate) {
        return Some(found);
    }
    word_sort_at(text, pos, "TAG", AlignmentSort::Tag)
}

/// Reads one order and its direction.
fn sort_and_direction_at(text: &Vec<char>, pos: usize) -> (found: Option<(AlignmentSort, usize)>)
    requires
        pos <= text.len(),
    ensures
        at_parse(found, sort_and_direction(text@, pos as int)),
        found matches Some((_, end)) ==> pos < end <= text.len(),
{
    match sort_unit_at(text, pos) {
        Some((sort, end)) => {
            let at = skip_multispace(text, end);
            match read_tag_no_case(text, at, "DESC") {
                Some(end) => Some((AlignmentSort::Reverse(Box::new(sort)), end)),
                None => match read_tag_no_case(text, at, "ASC") {
                    Some(end) => Some((sort, end)),
                    None => Some((sort, at)),
                },
            }
        },
        None => None,
    }
}

/// Reads a comma with any white space around it.
fn read_comma(text: &Vec<char>, pos: usize) -> (end: Option<usize>)
    requires
        pos <= text.len(),
    ensures
        at_position(end, comma(text@, pos as int)),
        end matches Some(end) ==> pos < end <= text.len(),
{
    let at = skip_multispace(text, pos);
    match read_char(text, at, ',') {
        Some(end) => Some(skip_multispace(text, end)),
        None => None,
    }
}

/// Reads the orders that follow `first`, each behind a comma.
fn more_sorts_at(text: &Vec<char>, pos: usize, first: AlignmentSort) -> (found: (
    AlignmentSort,
    usize,
))
    requires
        pos <= text.len(),
    ensures
        found.0 == more_sorts(text@, pos as int, first).0,
        found.1 == more_sorts(text@, pos as int, first).1,
        pos <= found.1 <= text.len(),
{
    let ghost whole = more_sorts(text@, pos as int, first);
    let mut sort = first;
    let mut at: usize = pos;
    loop
        invariant
            pos <= at <= text.len(),
            whole == more_sorts(text@, pos as int, first),
            whole == more_sorts(text@, at as int, sort),
        decreases text.len() - at,
    {
        let next = match read_comma(text, at) {
            Some(next) => next,
            None => {
                return (sort, at);
            },
        };
        let (second, end) = match sort_and_direction_at(text, next) {
            Some(found) => found,
            None => {
                return (sort, at);
            },
        };
        sort = AlignmentSort::Then(Box::new(sort), Box::new(second));
        at = end;
    }
}

/// Reads a list of orders with commas between them.
fn parse_sort_expression(text: &Vec<char>, pos: usize) -> (found: (AlignmentSort, usize))
    requires
        pos <= text.len(),
    ensures
        found.0 == sort_expression(text@, pos as int).0,
        found.1 == sort_expression(text@, pos as int).1,
        pos <= found.1 <= text.len(),
{
    let at = skip_multispace(text, pos);
    match sort_and_direction_at(text, at) {
        Some((first, end)) => {
            let (sort, end) = more_sorts_at(text, end, first);
            (sort, skip_multispace(text, end))
        },
        None => (AlignmentSort::Default, at),
    }
}

/// Reads `SORT` or `ORDER BY` and the order behind it.
fn parse_sort(text: &Vec<char>, pos: usize) -> (found: Option<(AlignmentDisplayOption, usize)>)
    requires
        pos <= text.len(),
    ensures
        at_parse(found, sort_option(text@, pos as int)),
        found matches Some((_, end)) ==> pos < end <= text.len(),
{
    proof {
        reveal_strlit("SORT");
        reveal_strlit("ORDER BY");
    }
    let at = skip_multispace(text, pos);
    match read_either_tag(text, at, "SORT", "ORDER BY") {
        Some(at) => {
            let (sort, end) = parse_sort_expression(text, at);
            Some((AlignmentDisplayOption::Sort(sort), skip_multispace(text, end)))
        },
        None => None,
    }
}

/// Reads the base that a filter names.
fn filter_base_at(text: &Vec<char>, pos: usize) -> (found: Option<(FilterBase, usize)>)
    requires
        pos <= text.len(),
    ensures
        at_parse(found, filter_base(text@, pos as int)),
        found matches Some((_, end)) ==> pos < end <= text.len(),
{
    proof {
        reveal_strlit("A");
        reveal_strlit("T");
        reveal_strlit("C");
        reveal_strlit("G");
        reveal_strlit("N");
        reveal_strlit("SOFTCLIP");
    }
    if read_tag_no_case(text, pos, "A").is_some() || read_tag_no_case(text, pos, "T").is_some()
        || read_tag_no_case(text, pos, "C").is_some() || read_tag_no_case(text, pos, "G").is_some()
        || read_tag_no_case(text, pos, "N").is_some() {
        Some((FilterBase::Letter(text[pos]), pos + 1))
    } else {
        match read_tag_no_case(text, pos, "SOFTCLIP") {
            Some(end) => Some((FilterBase::SoftClip, end)),
            None => None,
        }
    }
}

/// Reads `BASE`, with or without a position, an equals sign and a base as a
/// filter.
fn node_base_filter_at(text: &Vec<char>, pos: usize) -> (found: Option<(AlignmentFilter, usize)>)
    requires
        pos <= text.len(),
    ensures
        at_parse(found, node_base_filter(text@, pos as int)),
        found matches Some((_, end)) ==> pos < end <= text.len(),
{
    let at = match read_tag_no_case(text, pos, "BASE") {
        Some(at) => at,
        None => {
            return None;
        },
    };
    let (position, at) = parse_optional_parenthesis(text, at);
    let at = skip_multispace(text, at);
    let at = match read_char(text, at, '=') {
        Some(at) => at,
        None => {
            return None;
        },
    };
    let at = skip_multispace(text, at);
    let (base, end) = match filter_base_at(text, at) {
        Some(found) => found,
        None => {
            return None;
        },
    };
    let filter = match (position, base) {
        (Some(Some(position)), FilterBase::SoftClip) => AlignmentFilter::BaseSoftclip(position),
        (_, FilterBase::SoftClip) => AlignmentFilter::BaseAtCurrentPositionSoftClip,
        (Some(Some(position)), FilterBase::Letter(letter)) => AlignmentFilter::Base(
            position,
            letter,
        ),
        (_, FilterBase::Letter(letter)) => AlignmentFilter::BaseAtCurrentPosition(letter),
    };
    Some((filter, end))
}

/// Reads `FILTER` or `WHERE` and the filter behind it.
fn parse_filter(text: &Vec<char>, pos: usize) -> (found: Option<(AlignmentDisplayOption, usize)>)
    requires
        pos <= text.len(),
    ensures
        at_parse(found, filter_option(text@, pos as int)),
        found matches Some((_, end)) ==> pos < end <= text.len(),
{
    proof {
        reveal_strlit("FILTER");
        reveal_strlit("WHERE");
    }
    let at = skip_multispace(text, pos);
    let at = match read_either_tag(text, at, "FILTER", "WHERE") {
        Some(at) => at,
        None => {
            return None;
        },
    };
    let at = skip_multispace(text, at);
    match node_base_filter_at(text, at) {
        Some((filter, end)) => {
            let end = skip_multispace(text, end);
            Some((AlignmentDisplayOption::Filter(filter), skip_multispace(text, end)))
        },
        None => None,
    }
}

/// Reads the display options that stand at `pos`, one behind the other.
fn parse_display_options(text: &Vec<char>, pos: usize) -> (found: (
    Vec<AlignmentDisplayOption>,
    usize,
))
    requires
        pos <= text.len(),
    ensures
        found.0@ == display_options(text@, pos as int).0,
        found.1 == display_options(text@, pos as int).1,
        pos <= found.1 <= text.len(),
{
    let ghost whole = display_options(text@, pos as int);
    let mut options: Vec<AlignmentDisplayOption> = Vec::new();
    let mut at: usize = pos;
    proof {
        assert(options@ + whole.0 =~= whole.0);
    }
    loop
        invariant
            pos <= at <= text.len(),
            whole == display_options(text@, pos as int),
            whole.0 == options@ + display_options(text@, at as int).0,
            whole.1 == display_options(text@, at as int).1,
        decreases text.len() - at,
    {
        let found = match parse_filter(text, at) {
            Some(found) => Some(found),
            None => parse_sort(text, at),
        };
        let ghost before = options@;
        let ghost rest = display_options(text@, at as int);
        match found {
            Some((option, end)) => {
                proof {
                    let more = display_options(text@, end as int);
                    assert(before + (seq![option] + more.0) =~= before.push(option) + more.0);
                }
                options.push(option);
                at = end;
            },
            None => {
                proof {
                    assert(before + rest.0 =~= before);
                }
                return (options, at);
            },
        }
    }
}

/// What a command asks for, with texts as sequences of characters.
pub ghost enum Command {
    Quit,
    /// Help, which there is none of.
    Help,
    SetAlignmentOption(Seq<AlignmentDisplayOption>),
    Export(ExportFormat, Seq<char>),
    /// An export in a format of this name, which is not known.
    UnknownExportFormat(Seq<char>),
    /// An export that names no file.
    ExportWithoutPath,
    Position(u64),
    ContigNamePosition(Seq<char>, u64),
    Gene(Seq<char>),
    /// Nothing that is understood.
    Invalid,
}

/// `text` is one of the words `a` and `b`, tried in this order and in any
/// case, with any white space around it.
pub open spec fn is_word(text: Seq<char>, a: Seq<char>, b: Seq<char>) -> bool {
    match either_tag(text, multispace0(text, 0), a, b) {
        Some(end) => multispace0(text, end) == text.len(),
        None => false,
    }
}

/// `s` is `tag`, whatever the case of its ASCII letters.
pub open spec fn equals_no_case(s: Seq<char>, tag: Seq<char>) -> bool {
    s.len() == tag.len() && stands_no_case(s, 0, tag)
}

/// Space, tab, line feed, form feed and carriage return.
pub open spec fn is_ascii_whitespace(c: char) -> bool {
    c == ' ' || c == '\t' || c == '\n' || c == '\x0C' || c == '\r'
}

/// The position of the first ASCII white space from `pos` on, or the length
/// of `s` if there is none.
pub open spec fn first_ascii_whitespace(s: Seq<char>, pos: int) -> int
    decreases s.len() - pos,
{
    if 0 <= pos < s.len() && !is_ascii_whitespace(s[pos]) {
        first_ascii_whitespace(s, pos + 1)
    } else {
        pos
    }
}

/// `c`, or its lower-case form if it is an ASCII capital.
pub open spec fn lower_char(c: char) -> char {
    if 0x41 <= c as u32 <= 0x5A {
        ((c as u32 + 0x20) as u8) as char
    } else {
        c
    }
}

/// `s` with its ASCII capitals in lower case.
pub open spec fn ascii_lower(s: Seq<char>) -> Seq<char> {
    Seq::new(s.len(), |i: int| lower_char(s[i]))
}

/// The export format of this name.
pub open spec fn export_format(name: Seq<char>) -> Option<ExportFormat> {
    if equals_no_case(name, "html"@) {
        Some(ExportFormat::Html)
    } else if equals_no_case(name, "svg"@) {
        Some(ExportFormat::Svg)
    } else if equals_no_case(name, "text"@) || equals_no_case(name, "txt"@) {
        Some(ExportFormat::Text)
    } else {
        None
    }
}

/// What `input` asks for if it starts, behind white space, with `export`:
/// the format is what follows up to the first ASCII white space, the path is
/// what follows that, each without the white space around it.
pub open spec fn export_command(input: Seq<char>) -> Option<Command> {
    let trimmed = trim(input);
    if stands_no_case(trimmed, 0, "export"@) {
        let rest = trim(trimmed.skip("export"@.len() as int));
        let cut = first_ascii_whitespace(rest, 0);
        let format = if cut < rest.len() {
            trim(rest.take(cut))
        } else {
            rest
        };
        let path = if cut < rest.len() {
            trim(rest.skip(cut + 1))
        } else {
            Seq::<char>::empty()
        };
        Some(
            match export_format(format) {
                Some(known) => if path.len() == 0 {
                    Command::ExportWithoutPath
                } else {
                    Command::Export(known, path)
                },
                None => Command::UnknownExportFormat(ascii_lower(format)),
            },
        )
    } else {
        None
    }
}

/// Where `input` asks to go: a number is a position, `name:number` is a
/// position on a contig, and anything else without a colon is a gene.
pub open spec fn movement(input: Seq<char>) -> Command {
    let pieces = split(input, ':');
    if pieces.len() == 1 {
        match parse_u64(pieces[0]) {
            Some(position) => Command::Position(position),
            None => Command::Gene(pieces[0]),
        }
    } else if pieces.len() == 2 {
        match parse_u64(pieces[1]) {
            Some(position) => Command::ContigNamePosition(pieces[0], position),
            None => Command::Invalid,
        }
    } else {
        Command::Invalid
    }
}

/// What `input` asks for.
pub open spec fn command(input: Seq<char>) -> Command {
    if input == seq!['q'] {
        Command::Quit
    } else if input == seq!['h'] {
        Command::Help
    } else if is_word(input, "clear"@, "default"@) {
        Command::SetAlignmentOption(Seq::<AlignmentDisplayOption>::empty())
    } else if is_word(input, "paired"@, "paired"@) {
        Command::SetAlignmentOption(seq![AlignmentDisplayOption::ViewAsPairs])
    } else if is_word(input, "mod"@, "modifications"@) {
        Command::SetAlignmentOption(seq![AlignmentDisplayOption::ShowBaseModifications])
    } else {
        match export_command(input) {
            Some(export) => export,
            None => if display_options(input, 0).1 == input.len() {
                Command::SetAlignmentOption(display_options(input, 0).0)
            } else {
                movement(input)
            },
        }
    }
}

/// `result` is the one message that `message` describes.
pub open spec fn one_message(result: Result<Vec<Message>, TGVError>, message: Command) -> bool {
    &&& result matches Ok(messages)
    &&& messages.len() == 1
    &&& match message {
        Command::Quit => messages[0] is Quit,
        Command::SetAlignmentOption(options) => messages[0] matches Message::SetAlignmentOption(
            found,
        ) && found@ == options,
        Command::Export(format, path) => messages[0] matches Message::Export(found, file)
            && found == format && file@ == path,
        Command::Position(position) => messages[0] matches Message::Move(
            Movement::Position(found),
        ) && found == position,
        Command::ContigNamePosition(name, position) => messages[0] matches Message::Move(
            Movement::ContigNamePosition(contig, found),
        ) && contig@ == name && found == position,
        Command::Gene(name) => messages[0] matches Message::Move(Movement::Gene(found))
            && found@ == name,
        _ => false,
    }
}

/// `result` is an error that says `text`.
pub open spec fn refusal(result: Result<Vec<Message>, TGVError>, text: Seq<char>) -> bool {
    result matches Err(TGVError::RegisterError(said)) && said@ == text
}

/// `result` is the answer to `input`, which asks for `wanted`.
pub open spec fn answers(
    result: Result<Vec<Message>, TGVError>,
    wanted: Command,
    input: Seq<char>,
) -> bool {
    match wanted {
        Command::Help => refusal(result, "TODO: help screen is not implemented"@),
        Command::UnknownExportFormat(name) => refusal(
            result,
            "Unknown export format '"@ + name + "'. Use: html, svg, text"@,
        ),
        Command::ExportWithoutPath => refusal(
            result,
            "Usage: export <format> <path>  (e.g. export html ~/snapshot.html)"@,
        ),
        Command::Invalid => refusal(result, "Invalid command mode input: "@ + input),
        message => one_message(result, message),
    }
}

/// Whether `text` is one of the words `a` and `b` with any white space
/// around it.
fn reads_word(text: &Vec<char>, a: &str, b: &str) -> (yes: bool)
    ensures
        yes == is_word(text@, a@, b@),
{
    let at = skip_multispace(text, 0);
    match read_either_tag(text, at, a, b) {
        Some(end) => skip_multispace(text, end) == text.len(),
        None => false,
    }
}

/// Whether `text` is `"default"` or the like: a word that puts the options
/// back.
fn restore_default_options(text: &Vec<char>) -> (yes: bool)
    ensures
        yes == is_word(text@, "clear"@, "default"@),
{
    reads_word(text, "clear", "default")
}

/// Whether `text` asks for the reads of a pair to share a row.
fn view_as_pair(text: &Vec<char>) -> (yes: bool)
    ensures
        yes == is_word(text@, "paired"@, "paired"@),
{
    reads_word(text, "paired", "paired")
}

/// Whether `text` asks for the colours of modification calls.
fn show_base_modifications(text: &Vec<char>) -> (yes: bool)
    ensures
        yes == is_word(text@, "mod"@, "modifications"@),
{
    reads_word(text, "mod", "modifications")
}

/// Whether `tag` stands at the start of `span`, in any case.
fn starts_no_case(text: &Vec<char>, span: Span, tag: &str) -> (yes: bool)
    requires
        span.within(text@),
    ensures
        yes == stands_no_case(span.of(text@), 0, tag@),
{
    let letters = chars_of(tag);
    if letters.len() > span.end - span.start {
        return false;
    }
    let mut i: usize = 0;
    while i < letters.len()
        invariant
            i <= letters.len(),
            letters@ == tag@,
            span.within(text@),
            span.start + letters.len() <= span.end,
            forall|j: int|
                0 <= j < i ==> lower(#[trigger] span.of(text@)[0 + j]) == lower(letters@[j]),
        decreases letters.len() - i,
    {
        if lower_code(text[span.start + i]) != lower_code(letters[i]) {
            proof {
                assert(lower(span.of(text@)[0 + i]) != lower(tag@[i as int]));
            }
            return false;
        }
        i += 1;
    }
    true
}

/// Whether `span` is `tag`, in any case.
fn span_equals_no_case(text: &Vec<char>, span: Span, tag: &str) -> (yes: bool)
    requires
        span.within(text@),
    ensures
        yes == equals_no_case(span.of(text@), tag@),
{
    let same_length = tag.unicode_len() == span.end - span.start;
    same_length && starts_no_case(text, span, tag)
}

/// The characters that `span` of `text` covers, the ASCII capitals in lower
/// case, as a string.
fn lowered_string_of(text: &Vec<char>, span: Span) -> (string: String)
    requires
        span.within(text@),
    ensures
        string@ == ascii_lower(span.of(text@)),
{
    let mut string = String::new();
    let mut i: usize = span.start;
    while i < span.end
        invariant
            span.within(text@),
            span.start <= i <= span.end,
            string@ == ascii_lower(text@.subrange(span.start as int, i as int)),
        decreases span.end - i,
    {
        let c = text[i];
        let code: u32 = c as u32;
        let lowered: char = if 0x41 <= code && code <= 0x5A {
            ((code + 0x20) as u8) as char
        } else {
            c
        };
        push_char(&mut string, lowered);
        proof {
            assert(string@ =~= ascii_lower(text@.subrange(span.start as int, i + 1)));
        }
        i += 1;
    }
    string
}

/// The one message `message`.
fn single(message: Message) -> (messages: Vec<Message>)
    ensures
        messages.len() == 1,
        messages[0] == message,
{
    let mut messages: Vec<Message> = Vec::new();
    messages.push(message);
    messages
}

/// What `text` asks for if it is an export; `None` if it is none.
fn try_parse_export(text: &Vec<char>) -> (found: Option<Result<Vec<Message>, TGVError>>)
    ensures
        match export_command(text@) {
            Some(export) => found matches Some(result) && answers(result, export, text@),
            None => found is None,
        },
{
    proof {
        reveal_strlit("export");
    }
    let whole = Span { start: 0, end: text.len() };
    proof {
        assert(whole.of(text@) =~= text@);
    }
    let trimmed = trim_span(text, whole);
    if !starts_no_case(text, trimmed, "export") {
        return None;
    }
    let behind = Span { start: trimmed.start + 6, end: trimmed.end };
    proof {
        assert(behind.of(text@) =~= trimmed.of(text@).skip(6));
    }
    let rest = trim_span(text, behind);
    let ghost line = rest.of(text@);
    let mut cut: usize = rest.start;
    while cut < rest.end && !is_ascii_whitespace_char(text[cut])
        invariant
            rest.within(text@),
            rest.start <= cut <= rest.end,
            line == rest.of(text@),
            first_ascii_whitespace(line, 0) == first_ascii_whitespace(line, cut - rest.start),
        decreases rest.end - cut,
    {
        cut += 1;
    }
    let (format, path) = if cut < rest.end {
        proof {
            let at = cut - rest.start;
            assert(text@.subrange(rest.start as int, cut as int) =~= line.take(at));
            assert(text@.subrange(cut + 1, rest.end as int) =~= line.skip(at + 1));
        }
        (
            trim_span(text, Span { start: rest.start, end: cut }),
            trim_span(text, Span { start: cut + 1, end: rest.end }),
        )
    } else {
        proof {
            assert(text@.subrange(rest.end as int, rest.end as int) =~= Seq::<char>::empty());
        }
        (rest, Span { start: rest.end, end: rest.end })
    };
    let known = if span_equals_no_case(text, format, "html") {
        ExportFormat::Html
    } else if span_equals_no_case(text, format, "svg") {
        ExportFormat::Svg
    } else if span_equals_no_case(text, format, "text") || span_equals_no_case(
        text,
        format,
        "txt",
    ) {
        ExportFormat::Text
    } else {
        let mut said = String::from_str("Unknown export format '");
        let name = lowered_string_of(text, format);
        said.append(name.as_str());
        said.append("'. Use: html, svg, text");
        return Some(Err(TGVError::RegisterError(said)));
    };
    if path.start == path.end {
        return Some(
            Err(
                TGVError::RegisterError(
                    String::from_str(
                        "Usage: export <format> <path>  (e.g. export html ~/snapshot.html)",
                    ),
                ),
            ),
        );
    }
    Some(Ok(single(Message::Export(known, string_of(text, path)))))
}

/// Whether `c` is ASCII white space.
fn is_ascii_whitespace_char(c: char) -> (white: bool)
    ensures
        white == is_ascii_whitespace(c),
{
    c == ' ' || c == '\t' || c == '\n' || c == '\x0C' || c == '\r'
}

/// Where `text` asks to go.
fn parse_movement(text: &Vec<char>) -> (result: Result<Vec<Message>, TGVError>)
    ensures
        answers(result, movement(text@), text@),
{
    let whole = Span { start: 0, end: text.len() };
    proof {
        assert(whole.of(text@) =~= text@);
    }
    let pieces = split_spans(text, whole, ':');
    if pieces.len() == 1 {
        match parse_u64_span(text, pieces[0]) {
            Some(n) => Ok(single(Message::Move(Movement::Position(n)))),
            None => Ok(single(Message::Move(Movement::Gene(string_of(text, pieces[0]))))),
        }
    } else if pieces.len() == 2 {
        match parse_u64_span(text, pieces[1]) {
            Some(n) => Ok(
                single(
                    Message::Move(Movement::ContigNamePosition(string_of(text, pieces[0]), n)),
                ),
            ),
            None => Err(invalid_input(text)),
        }
    } else {
        Err(invalid_input(text))
    }
}

/// The error for a text that is not understood.
fn invalid_input(text: &Vec<char>) -> (error: TGVError)
    ensures
        error matches TGVError::RegisterError(said) && said@ == "Invalid command mode input: "@
            + text@,
{
    let whole = Span { start: 0, end: text.len() };
    proof {
        assert(whole.of(text@) =~= text@);
    }
    let mut said = String::from_str("Invalid command mode input: ");
    let input = string_of(text, whole);
    said.append(input.as_str());
    TGVError::RegisterError(said)
}

/// Reads a command.
///
/// `q` quits. `clear` and `default` put the options of the display back,
/// `paired` and `mod` set one option, `export`, a format and a path ask for
/// an export, and a list of `FILTER`, `WHERE`, `SORT` and `ORDER BY` clauses
/// sets the options that it gives. Anything else is a place to go to: a
/// position, a contig and a position with a colon between them, or a gene.
pub fn parse(input: &str) -> (result: Result<Vec<Message>, TGVError>)
    ensures
        answers(result, command(input@), input@),
{
    let text = chars_of(input);
    if text.len() == 1 && text[0] == 'q' {
        proof {
            assert(text@ =~= seq!['q']);
        }
        return Ok(single(Message::Quit));
    }
    if text.len() == 1 && text[0] == 'h' {
        proof {
            assert(text@ =~= seq!['h']);
        }
        return Err(
            TGVError::RegisterError(String::from_str("TODO: help screen is not implemented")),
        );
    }
    proof {
        assert(text@ != seq!['q']) by {
            if text@ == seq!['q'] {
                assert(text@.len() == 1 && text@[0] == 'q');
            }
        }
        assert(text@ != seq!['h']) by {
            if text@ == seq!['h'] {
                assert(text@.len() == 1 && text@[0] == 'h');
            }
        }
    }
    if restore_default_options(&text) {
        return Ok(single(Message::SetAlignmentOption(Vec::new())));
    }
    if view_as_pair(&text) {
        let mut options: Vec<AlignmentDisplayOption> = Vec::new();
        options.push(AlignmentDisplayOption::ViewAsPairs);
        proof {
            assert(options@ =~= seq![AlignmentDisplayOption::ViewAsPairs]);
        }
        return Ok(single(Message::SetAlignmentOption(options)));
    }
    if show_base_modifications(&text) {
        let mut options: Vec<AlignmentDisplayOption> = Vec::new();
        options.push(AlignmentDisplayOption::ShowBaseModifications);
        proof {
            assert(options@ =~= seq![AlignmentDisplayOption::ShowBaseModifications]);
        }
        return Ok(single(Message::SetAlignmentOption(options)));
    }
    if let Some(result) = try_parse_export(&text) {
        return result;
    }
    let (options, end) = parse_display_options(&text, 0);
    if end == text.len() {
        return Ok(single(Message::SetAlignmentOption(options)));
    }
    parse_movement(&text)
}

} // verus!
