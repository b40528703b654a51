//! Base modification calls carried by an aligned read.

use crate::cigar::{
    cigar_in_range, reference_position, reference_position_u64, reference_positions, CigarOp,
};
use crate::error::TGVError;
use crate::text::{
    chars_of, parse_usize, parse_usize_span, spans_chained, spans_text, split, split_spans, trim,
    trim_span, Span,
};
use std::collections::HashMap;
use vstd::prelude::*;

verus! {

broadcast use vstd::std_specs::hash::group_hash_axioms;

/// The kinds of base modification that are recognised.
#[derive(Clone, Copy, Debug, PartialEq, Eq, Structural)]
pub enum ModificationType {
    /// 5-methylcytosine, written `m` in a call tag.
    FiveMC,
    /// 5-hydroxymethylcytosine, written `h` in a call tag.
    FiveHMC,
    /// N6-methyladenine, written `a` in a call tag.
    SixMA,
}

/// One modification call: what was called and how confidently.
#[derive(Clone, Copy, Debug, PartialEq, Eq, Structural)]
pub struct BaseModification {
    pub modification_type: ModificationType,
    /// Confidence of the call, from 0 (unmodified) to 255 (modified).
    pub probability: u8,
}

impl BaseModification {
    /// A call is high-confidence from probability 179 upwards.
    pub open spec fn spec_is_high(&self) -> bool {
        self.probability >= 179
    }

    /// A call is low-confidence below probability 77.
    pub open spec fn spec_is_low(&self) -> bool {
        self.probability < 77
    }

    #[verifier::when_used_as_spec(spec_is_high)]
    pub fn is_high(&self) -> (high: bool)
        ensures
            high == (self.probability >= 179),
    {
        self.probability >= 179
    }

    #[verifier::when_used_as_spec(spec_is_low)]
    pub fn is_low(&self) -> (low: bool)
        ensures
            low == (self.probability < 77),
    {
        self.probability < 77
    }
}

/// One decoded call: the reference position it was made at, and the call.
pub type Call = (u64, BaseModification);

/// What a read brings to the decoding of its call tag.
pub ghost struct ReadData {
    /// The probability bytes, one for each delta of the tag.
    pub probabilities: Seq<u8>,
    /// The bases of the read.
    pub sequence: Seq<u8>,
    /// The CIGAR of the alignment.
    pub cigar: Seq<CigarOp>,
    /// The reference position at which the alignment starts, counted from 1.
    pub start: u64,
}

/// What the header of a section of a call tag says of the section.
#[derive(Clone, Copy, Debug, PartialEq, Eq, Structural)]
pub enum SectionKind {
    /// The header is shorter than three bytes: the section is passed over
    /// and uses up no probability byte.
    Malformed,
    /// The strand is not `+` or the code is not known: the section makes no
    /// call, and each of its tokens uses up one probability byte.
    Skipped,
    /// The section calls modifications of one type on one base letter.
    Calls { base: u8, modification_type: ModificationType },
}

/// The upper-case form of an ASCII letter; any other byte is itself.
pub open spec fn to_upper(b: u8) -> u8 {
    if 0x61 <= b <= 0x7A {
        (b - 0x20) as u8
    } else {
        b
    }
}

/// The offsets into `sequence`, in rising order, at which the base, taken in
/// upper case, is `base`.
pub open spec fn base_offsets(sequence: Seq<u8>, base: u8) -> Seq<int>
    decreases sequence.len(),
{
    if sequence.len() == 0 {
        Seq::<int>::empty()
    } else {
        let before = base_offsets(sequence.drop_last(), base);
        if to_upper(sequence.last()) == base {
            before.push(sequence.len() - 1)
        } else {
            before
        }
    }
}

/// The header of a section is shorter than three bytes in UTF-8.
pub open spec fn header_too_short(header: Seq<char>) -> bool {
    ||| header.len() == 0
    ||| header.len() == 1 && (header[0] as u32) < 0x800
    ||| header.len() == 2 && (header[0] as u32) < 0x80 && (header[1] as u32) < 0x80
}

/// The modification that a single-letter code stands for.
pub open spec fn code_type(code: char) -> Option<ModificationType> {
    if code == 'm' {
        Some(ModificationType::FiveMC)
    } else if code == 'h' {
        Some(ModificationType::FiveHMC)
    } else if code == 'a' {
        Some(ModificationType::SixMA)
    } else {
        None
    }
}

/// What a header says: its first three bytes are the base letter, the strand
/// and the modification code.
pub open spec fn header_kind(header: Seq<char>) -> SectionKind {
    if header_too_short(header) {
        SectionKind::Malformed
    } else if header.len() >= 3 && (header[0] as u32) < 0x80 && header[1] == '+' {
        match code_type(header[2]) {
            Some(modification_type) => SectionKind::Calls {
                base: to_upper(header[0] as u32 as u8),
                modification_type,
            },
            None => SectionKind::Skipped,
        }
    } else {
        SectionKind::Skipped
    }
}

/// The fields of a section: its text without the whitespace around it, cut
/// at every comma.
pub open spec fn section_fields(section: Seq<char>) -> Seq<Seq<char>> {
    split(trim(section), ',')
}

/// The delta tokens of the fields of a section: all fields but the first.
/// Nothing behind the first comma means no token at all.
pub open spec fn field_tokens(fields: Seq<Seq<char>>) -> Seq<Seq<char>> {
    if fields.len() == 2 && fields[1].len() == 0 {
        Seq::<Seq<char>>::empty()
    } else {
        fields.skip(1)
    }
}

/// The header of a section.
pub open spec fn section_header(section: Seq<char>) -> Seq<char> {
    section_fields(section).first()
}

/// The delta tokens of a section.
pub open spec fn section_tokens(section: Seq<char>) -> Seq<Seq<char>> {
    field_tokens(section_fields(section))
}

/// The deltas that the tokens write, up to the first token that is no
/// number: decoding of the section ends there.
pub open spec fn leading_deltas(tokens: Seq<Seq<char>>) -> Seq<usize>
    decreases tokens.len(),
{
    if tokens.len() == 0 {
        Seq::<usize>::empty()
    } else {
        let before = leading_deltas(tokens.drop_last());
        match parse_usize(trim(tokens.last())) {
            Some(delta) => if before.len() == tokens.len() - 1 {
                before.push(delta)
            } else {
                before
            },
            None => before,
        }
    }
}

/// Where the cursor into a list of `bound` candidates stands after `deltas`:
/// each delta moves it forward, and where that reaches a candidate, the
/// cursor steps past it.
pub open spec fn candidate_cursor(deltas: Seq<usize>, bound: nat) -> nat
    decreases deltas.len(),
{
    if deltas.len() == 0 {
        0
    } else {
        let reached = candidate_cursor(deltas.drop_last(), bound) + deltas.last();
        if reached < bound {
            (reached + 1) as nat
        } else {
            reached as nat
        }
    }
}

/// The candidate that the last of `deltas` reaches; it may lie past the list.
pub open spec fn selected_candidate(deltas: Seq<usize>, bound: nat) -> nat
    recommends
        deltas.len() > 0,
{
    (candidate_cursor(deltas.drop_last(), bound) + deltas.last()) as nat
}

/// The probability byte at `index`, or 255 past the end of the bytes.
pub open spec fn probability_at(probabilities: Seq<u8>, index: nat) -> u8 {
    if index < probabilities.len() {
        probabilities[index as int]
    } else {
        255
    }
}

/// The call that the last of `deltas` makes, in a section on `base` whose
/// first token has the probability byte at `first`. It makes none where it
/// reaches past the candidates or reaches a base that is not aligned. Its
/// probability byte is the one at its own place among the tokens, whatever
/// the tokens before it did.
pub open spec fn delta_call(
    read: ReadData,
    base: u8,
    modification_type: ModificationType,
    first: nat,
    deltas: Seq<usize>,
) -> Option<Call>
    recommends
        deltas.len() > 0,
{
    let candidates = base_offsets(read.sequence, base);
    let chosen = selected_candidate(deltas, candidates.len());
    if chosen < candidates.len() {
        match reference_position(read.cigar, read.start, candidates[chosen as int]) {
            Some(position) => Some(
                (
                    position as u64,
                    BaseModification {
                        modification_type,
                        probability: probability_at(
                            read.probabilities,
                            (first + deltas.len() - 1) as nat,
                        ),
                    },
                ),
            ),
            None => None,
        }
    } else {
        None
    }
}

/// The calls that `deltas` make, in the order of the deltas.
pub open spec fn delta_calls(
    read: ReadData,
    base: u8,
    modification_type: ModificationType,
    first: nat,
    deltas: Seq<usize>,
) -> Seq<Call>
    decreases deltas.len(),
{
    if deltas.len() == 0 {
        Seq::<Call>::empty()
    } else {
        let before = delta_calls(read, base, modification_type, first, deltas.drop_last());
        match delta_call(read, base, modification_type, first, deltas) {
            Some(call) => before.push(call),
            None => before,
        }
    }
}

/// The number of probability bytes that a section uses up. It depends on
/// the text of the section alone.
pub open spec fn section_consumed(section: Seq<char>) -> nat {
    match header_kind(section_header(section)) {
        SectionKind::Malformed => 0,
        SectionKind::Skipped => section_tokens(section).len(),
        SectionKind::Calls { .. } => leading_deltas(section_tokens(section)).len(),
    }
}

/// The calls that a section makes when its first token has the probability
/// byte at `first`.
pub open spec fn section_calls(read: ReadData, section: Seq<char>, first: nat) -> Seq<Call> {
    match header_kind(section_header(section)) {
        SectionKind::Calls { base, modification_type } => delta_calls(
            read,
            base,
            modification_type,
            first,
            leading_deltas(section_tokens(section)),
        ),
        _ => Seq::<Call>::empty(),
    }
}

/// The number of probability bytes that `sections` use up together.
pub open spec fn consumed(sections: Seq<Seq<char>>) -> nat
    decreases sections.len(),
{
    if sections.len() == 0 {
        0
    } else {
        consumed(sections.drop_last()) + section_consumed(sections.last())
    }
}

/// The calls that `sections` make, in the order of the tag.
pub open spec fn decoded_calls(read: ReadData, sections: Seq<Seq<char>>) -> Seq<Call>
    decreases sections.len(),
{
    if sections.len() == 0 {
        Seq::<Call>::empty()
    } else {
        decoded_calls(read, sections.drop_last()) + section_calls(
            read,
            sections.last(),
            consumed(sections.drop_last()),
        )
    }
}

/// `map` with `call` added behind the calls already made at `position`.
pub open spec fn with_call(
    map: Map<u64, Seq<BaseModification>>,
    position: u64,
    call: BaseModification,
) -> Map<u64, Seq<BaseModification>> {
    if map.contains_key(position) {
        map.insert(position, map[position].push(call))
    } else {
        map.insert(position, seq![call])
    }
}

/// The calls gathered by reference position, each list in the order in
/// which the calls were made. A position without a call has no entry.
pub open spec fn modification_map(calls: Seq<Call>) -> Map<u64, Seq<BaseModification>>
    decreases calls.len(),
{
    if calls.len() == 0 {
        Map::<u64, Seq<BaseModification>>::empty()
    } else {
        with_call(modification_map(calls.drop_last()), calls.last().0, calls.last().1)
    }
}

/// The modification calls of a read: the sections of `tag`, which `;` parts,
/// decoded in order.
pub open spec fn decoded_modifications(tag: Seq<char>, read: ReadData) -> Map<
    u64,
    Seq<BaseModification>,
> {
    modification_map(decoded_calls(read, split(tag, ';')))
}

/// What a map of calls holds, each list as a sequence.
pub open spec fn modifications_view(map: HashMap<u64, Vec<BaseModification>>) -> Map<
    u64,
    Seq<BaseModification>,
> {
    Map::new(|position: u64| map@.contains_key(position), |position: u64| map@[position]@)
}

/// Decoding is a function of its inputs: the same tag, probabilities,
/// sequence, CIGAR and start always give the same map.
pub proof fn lemma_decoding_is_deterministic(
    tag_a: Seq<char>,
    read_a: ReadData,
    tag_b: Seq<char>,
    read_b: ReadData,
)
    requires
        tag_a =~= tag_b,
        read_a.probabilities =~= read_b.probabilities,
        read_a.sequence =~= read_b.sequence,
        read_a.cigar =~= read_b.cigar,
        read_a.start == read_b.start,
    ensures
        decoded_modifications(tag_a, read_a) == decoded_modifications(tag_b, read_b),
{
}

/// Each leading delta of a section has the probability byte at its own
/// place. The section uses up exactly one byte for each of them, and the
/// call that delta number `k` makes, if it makes one, carries the byte at
/// `first + k`: it does not matter whether the deltas before it made a call,
/// reached past the candidates or reached a base that is not aligned.
pub proof fn lemma_one_probability_per_delta(
    read: ReadData,
    section: Seq<char>,
    first: nat,
    k: int,
)
    requires
        header_kind(section_header(section)) is Calls,
        0 <= k < leading_deltas(section_tokens(section)).len(),
    ensures
        section_consumed(section) == leading_deltas(section_tokens(section)).len(),
        match delta_call(
            read,
            header_kind(section_header(section))->base,
            header_kind(section_header(section))->modification_type,
            first,
            leading_deltas(section_tokens(section)).take(k + 1),
        ) {
            Some(call) => call.1.probability == probability_at(
                read.probabilities,
                (first + k) as nat,
            ),
            None => true,
        },
{
}

/// A delta that reaches past the candidates makes no call, and moves the
/// cursor on by its own amount only.
pub proof fn lemma_overshoot_makes_no_call(
    read: ReadData,
    base: u8,
    modification_type: ModificationType,
    first: nat,
    deltas: Seq<usize>,
)
    requires
        deltas.len() > 0,
        selected_candidate(deltas, base_offsets(read.sequence, base).len()) >= base_offsets(
            read.sequence,
            base,
        ).len(),
    ensures
        delta_call(read, base, modification_type, first, deltas) is None,
        delta_calls(read, base, modification_type, first, deltas) == delta_calls(
            read,
            base,
            modification_type,
            first,
            deltas.drop_last(),
        ),
        candidate_cursor(deltas, base_offsets(read.sequence, base).len()) == selected_candidate(
            deltas,
            base_offsets(read.sequence, base).len(),
        ),
{
}

/// A section on the reverse strand makes no call: the calls of a tag are
/// those of the tag without it.
pub proof fn lemma_reverse_strand_makes_no_call(
    read: ReadData,
    before: Seq<Seq<char>>,
    section: Seq<char>,
)
    requires
        section_header(section).len() >= 2,
        section_header(section)[1] == '-',
    ensures
        section_calls(read, section, consumed(before)) == Seq::<Call>::empty(),
        decoded_calls(read, before.push(section)) == decoded_calls(read, before),
{
    let sections = before.push(section);
    assert(sections.drop_last() =~= before);
    assert(decoded_calls(read, before) + Seq::<Call>::empty() =~= decoded_calls(read, before));
}

/// A section whose header is long enough and whose strand is not `+` or
/// whose code is not known makes no call, and uses up one probability byte
/// for each of its tokens: the sections behind it find their bytes where
/// they would have found them had it been decoded.
pub proof fn lemma_skipped_section_keeps_step(
    read: ReadData,
    before: Seq<Seq<char>>,
    section: Seq<char>,
)
    requires
        header_kind(section_header(section)) is Skipped,
    ensures
        decoded_calls(read, before.push(section)) == decoded_calls(read, before),
        consumed(before.push(section)) == consumed(before) + section_tokens(section).len(),
{
    let sections = before.push(section);
    assert(sections.drop_last() =~= before);
    assert(decoded_calls(read, before) + Seq::<Call>::empty() =~= decoded_calls(read, before));
}

/// A code that is none of `m`, `h` and `a`, behind a base letter and the
/// strand `+`, has its section skipped.
pub proof fn lemma_unknown_code_is_skipped(header: Seq<char>)
    requires
        header.len() >= 3,
        (header[0] as u32) < 0x80,
        header[1] == '+',
        header[2] != 'm',
        header[2] != 'h',
        header[2] != 'a',
    ensures
        header_kind(header) is Skipped,
{
}

/// A position has an entry in the map exactly if a call was made there, and
/// then the entry holds at least one call.
pub proof fn lemma_modification_map_entries(calls: Seq<Call>, position: u64)
    ensures
        modification_map(calls).contains_key(position) <==> exists|i: int|
            0 <= i < calls.len() && (#[trigger] calls[i]).0 == position,
        modification_map(calls).contains_key(position) ==> modification_map(calls)[position].len()
            > 0,
    decreases calls.len(),
{
    if calls.len() > 0 {
        let before = calls.drop_last();
        lemma_modification_map_entries(before, position);
        if modification_map(before).contains_key(position) {
            let i = choose|i: int| 0 <= i < before.len() && (#[trigger] before[i]).0 == position;
            assert(calls[i].0 == position);
        }
        if calls.last().0 == position {
            assert(calls[calls.len() - 1].0 == position);
        }
        if exists|i: int| 0 <= i < calls.len() && (#[trigger] calls[i]).0 == position {
            let i = choose|i: int| 0 <= i < calls.len() && (#[trigger] calls[i]).0 == position;
            if i < before.len() {
                assert(before[i].0 == position);
            }
        }
    }
}

/// Each piece of a chain starts at least as many positions into the outer
/// span as there are pieces before it.
proof fn lemma_chained_start(pieces: Seq<Span>, outer: Span, i: int)
    requires
        spans_chained(pieces, outer),
        0 <= i < pieces.len(),
    ensures
        pieces[i].start >= outer.start + i,
    decreases i,
{
    if i > 0 {
        lemma_chained_start(pieces, outer, i - 1);
        assert(pieces[(i - 1) + 1].start == pieces[i - 1].end + 1);
        assert(pieces[i - 1].inside(outer));
    }
}

/// No more deltas lead than there are tokens.
proof fn lemma_leading_deltas_len(tokens: Seq<Seq<char>>)
    ensures
        leading_deltas(tokens).len() <= tokens.len(),
    decreases tokens.len(),
{
    if tokens.len() > 0 {
        lemma_leading_deltas_len(tokens.drop_last());
    }
}

/// Behind a token that is no number, no further delta leads.
proof fn lemma_leading_deltas_stop(tokens: Seq<Seq<char>>, k: int)
    requires
        0 <= k < tokens.len(),
        leading_deltas(tokens.take(k)).len() == k,
        parse_usize(trim(tokens[k])) is None,
    ensures
        leading_deltas(tokens) == leading_deltas(tokens.take(k)),
    decreases tokens.len(),
{
    if tokens.len() == k + 1 {
        assert(tokens.drop_last() =~= tokens.take(k));
    } else {
        assert(tokens.drop_last().take(k) =~= tokens.take(k));
        lemma_leading_deltas_stop(tokens.drop_last(), k);
        lemma_leading_deltas_len(tokens.take(k));
    }
}

/// The upper-case form of an ASCII letter; any other byte is itself.
pub fn to_upper_byte(b: u8) -> (upper: u8)
    ensures
        upper == to_upper(b),
{
    if 0x61 <= b && b <= 0x7A {
        b - 0x20
    } else {
        b
    }
}

/// The offsets into `sequence` at which the base is `base`.
fn offsets_of_base(sequence: &[u8], base: u8) -> (offsets: Vec<usize>)
    ensures
        offsets.len() == base_offsets(sequence@, base).len(),
        forall|i: int|
            0 <= i < offsets.len() ==> #[trigger] offsets[i] == base_offsets(sequence@, base)[i],
        forall|i: int| 0 <= i < offsets.len() ==> (#[trigger] offsets[i]) < sequence.len(),
{
    let mut offsets: Vec<usize> = Vec::new();
    let mut k: usize = 0;
    while k < sequence.len()
        invariant
            k <= sequence.len(),
            offsets.len() == base_offsets(sequence@.take(k as int), base).len(),
            forall|i: int|
                0 <= i < offsets.len() ==> #[trigger] offsets[i] == base_offsets(
                    sequence@.take(k as int),
                    base,
                )[i],
            forall|i: int| 0 <= i < offsets.len() ==> (#[trigger] offsets[i]) < sequence.len(),
        decreases sequence.len() - k,
    {
        proof {
            assert(sequence@.take(k + 1).drop_last() =~= sequence@.take(k as int));
        }
        if to_upper_byte(sequence[k]) == base {
            offsets.push(k);
        }
        k += 1;
    }
    proof {
        assert(sequence@.take(k as int) =~= sequence@);
    }
    offsets
}

/// What the header in `header` of `text` says of its section.
fn classify_header(text: &Vec<char>, header: Span) -> (kind: SectionKind)
    requires
        header.within(text@),
    ensures
        kind == header_kind(header.of(text@)),
{
    let len: usize = header.end - header.start;
    if len == 0 {
        return SectionKind::Malformed;
    }
    let first: u32 = text[header.start] as u32;
    if len == 1 {
        return if first < 0x800 {
            SectionKind::Malformed
        } else {
            SectionKind::Skipped
        };
    }
    let strand: char = text[header.start + 1];
    if len == 2 {
        return if first < 0x80 && (strand as u32) < 0x80 {
            SectionKind::Malformed
        } else {
            SectionKind::Skipped
        };
    }
    if first >= 0x80 || strand != '+' {
        return SectionKind::Skipped;
    }
    let base: u8 = to_upper_byte(first as u8);
    let code: char = text[header.start + 2];
    proof {
        let h = header.of(text@);
        assert(h[0] == text@[header.start as int]);
        assert(h[1] == strand);
        assert(h[2] == code);
    }
    if code == 'm' {
        SectionKind::Calls { base, modification_type: ModificationType::FiveMC }
    } else if code == 'h' {
        SectionKind::Calls { base, modification_type: ModificationType::FiveHMC }
    } else if code == 'a' {
        SectionKind::Calls { base, modification_type: ModificationType::SixMA }
    } else {
        SectionKind::Skipped
    }
}

/// Adds `call` behind the calls that `map` holds at `position`.
fn record_call(
    map: &mut HashMap<u64, Vec<BaseModification>>,
    position: u64,
    call: BaseModification,
)
    ensures
        modifications_view(*final(map)) == with_call(modifications_view(*old(map)), position, call),
{
    let mut calls: Vec<BaseModification> = match map.remove(&position) {
        Some(calls) => calls,
        None => Vec::new(),
    };
    calls.push(call);
    map.insert(position, calls);
    proof {
        assert(modifications_view(*map) =~= with_call(
            modifications_view(*old(map)),
            position,
            call,
        ));
    }
}

/// `table` and `probabilities` hold what `read` says.
spec fn holds_read(
    read: ReadData,
    table: Seq<Option<u64>>,
    probabilities: Seq<u8>,
) -> bool {
    &&& probabilities == read.probabilities
    &&& table.len() == read.sequence.len()
    &&& forall|offset: int|
        0 <= offset < table.len() ==> #[trigger] table[offset] == reference_position_u64(
            read.cigar,
            read.start,
            offset,
        )
}

/// `offsets` are the candidates for `base` in `read`.
spec fn holds_candidates(read: ReadData, base: u8, offsets: Seq<usize>) -> bool {
    &&& offsets.len() == base_offsets(read.sequence, base).len()
    &&& forall|i: int|
        0 <= i < offsets.len() ==> #[trigger] offsets[i] == base_offsets(read.sequence, base)[i]
    &&& forall|i: int| 0 <= i < offsets.len() ==> (#[trigger] offsets[i]) < read.sequence.len()
}

/// Decodes the delta tokens of one section that calls modifications: the
/// fields of `fields` behind the first, `count` of them. Returns the index
/// of the probability byte behind the last delta that was read.
fn decode_deltas(
    text: &Vec<char>,
    fields: &Vec<Span>,
    count: usize,
    offsets: &Vec<usize>,
    table: &Vec<Option<u64>>,
    probabilities: &[u8],
    modification_type: ModificationType,
    first: usize,
    map: &mut HashMap<u64, Vec<BaseModification>>,
    Ghost(read): Ghost<ReadData>,
    Ghost(base): Ghost<u8>,
    Ghost(prior): Ghost<Seq<Call>>,
) -> (cursor: usize)
    requires
        forall|i: int| 0 <= i < fields.len() ==> (#[trigger] fields[i]).within(text@),
        field_tokens(spans_text(fields@, text@)).len() == count,
        count < fields.len(),
        first + count <= usize::MAX,
        holds_read(read, table@, probabilities@),
        holds_candidates(read, base, offsets@),
        modifications_view(*old(map)) == modification_map(prior),
    ensures
        cursor == first + leading_deltas(field_tokens(spans_text(fields@, text@))).len(),
        modifications_view(*final(map)) == modification_map(
            prior + delta_calls(
                read,
                base,
                modification_type,
                first as nat,
                leading_deltas(field_tokens(spans_text(fields@, text@))),
            ),
        ),
{
    let ghost tokens = field_tokens(spans_text(fields@, text@));
    let ghost bound = offsets@.len();
    let mut j: usize = 0;
    let mut position: usize = 0;
    let mut cursor: usize = first;
    let ghost mut deltas: Seq<usize> = Seq::empty();
    proof {
        assert(tokens.take(0) =~= Seq::<Seq<char>>::empty());
        assert(prior + delta_calls(read, base, modification_type, first as nat, deltas) =~= prior);
        assert forall|i: int| 0 <= i < count implies #[trigger] tokens[i] == fields[i + 1].of(
            text@,
        ) by {}
    }
    while j < count
        invariant
            j <= count,
            count < fields.len(),
            first + count <= usize::MAX,
            tokens == field_tokens(spans_text(fields@, text@)),
            tokens.len() == count,
            forall|i: int| 0 <= i < fields.len() ==> (#[trigger] fields[i]).within(text@),
            forall|i: int| 0 <= i < count ==> #[trigger] tokens[i] == fields[i + 1].of(text@),
            bound == offsets@.len(),
            holds_read(read, table@, probabilities@),
            holds_candidates(read, base, offsets@),
            deltas == leading_deltas(tokens.take(j as int)),
            deltas.len() == j,
            cursor == first + j,
            position <= bound,
            candidate_cursor(deltas, bound as nat) < bound ==> position == candidate_cursor(
                deltas,
                bound as nat,
            ),
            candidate_cursor(deltas, bound as nat) >= bound ==> position == bound,
            modifications_view(*map) == modification_map(
                prior + delta_calls(read, base, modification_type, first as nat, deltas),
            ),
        decreases count - j,
    {
        let token = trim_span(text, fields[j + 1]);
        let ghost upto = tokens.take(j + 1);
        proof {
            assert(upto.drop_last() =~= tokens.take(j as int));
            assert(upto.last() == tokens[j as int]);
            assert(token.of(text@) == trim(tokens[j as int]));
        }
        let delta: usize = match parse_usize_span(text, token) {
            Some(delta) => delta,
            None => {
                proof {
                    lemma_leading_deltas_stop(tokens, j as int);
                }
                return cursor;
            },
        };
        let ghost before = deltas;
        let ghost calls_before = delta_calls(read, base, modification_type, first as nat, before);
        proof {
            deltas = before.push(delta);
            assert(deltas.drop_last() =~= before);
            assert(deltas == leading_deltas(upto));
        }
        if position < offsets.len() && delta < offsets.len() - position {
            let chosen: usize = position + delta;
            let offset: usize = offsets[chosen];
            let probability: u8 = if cursor < probabilities.len() {
                probabilities[cursor]
            } else {
                255
            };
            position = chosen + 1;
            proof {
                assert(selected_candidate(deltas, bound as nat) == chosen);
                assert(base_offsets(read.sequence, base)[chosen as int] == offset);
            }
            match table[offset] {
                Some(reference) => {
                    let call = BaseModification { modification_type, probability };
                    record_call(map, reference, call);
                    proof {
                        let made = prior + calls_before;
                        let all = prior + calls_before.push((reference, call));
                        assert(delta_call(read, base, modification_type, first as nat, deltas)
                            == Some((reference, call)));
                        assert(all =~= made.push((reference, call)));
                        assert(all.drop_last() =~= made);
                    }
                },
                None => {
                    proof {
                        assert(delta_call(read, base, modification_type, first as nat, deltas)
                            is None);
                    }
                },
            }
        } else {
            proof {
                assert(selected_candidate(deltas, bound as nat) >= bound);
            }
            position = offsets.len();
        }
        cursor += 1;
        j += 1;
    }
    proof {
        assert(tokens.take(j as int) =~= tokens);
    }
    cursor
}

/// Decodes the modification calls of a read.
///
/// `mm_str` is the call tag, `ml_bytes` the probability bytes that run beside
/// its deltas, `seq` the bases of the read, `cigar_ops` its CIGAR and
/// `alignment_start` the reference position, counted from 1, at which its
/// alignment starts. The result maps each reference position at which a call
/// was made to the calls made there, in the order of the tag. A section of
/// the tag that cannot be read is passed over; the calls made before it stay.
pub fn parse_modification_data(
    mm_str: &str,
    ml_bytes: &[u8],
    seq: &[u8],
    cigar_ops: &[CigarOp],
    alignment_start: u64,
) -> (result: Result<HashMap<u64, Vec<BaseModification>>, TGVError>)
    requires
        cigar_in_range(cigar_ops@, alignment_start),
    ensures
        result is Ok,
        modifications_view(result->Ok_0) == decoded_modifications(
            mm_str@,
            ReadData {
                probabilities: ml_bytes@,
                sequence: seq@,
                cigar: cigar_ops@,
                start: alignment_start,
            },
        ),
{
    let ghost read = ReadData {
        probabilities: ml_bytes@,
        sequence: seq@,
        cigar: cigar_ops@,
        start: alignment_start,
    };
    let text = chars_of(mm_str);
    let table = reference_positions(cigar_ops, alignment_start, seq.len());
    let whole = Span { start: 0, end: text.len() };
    let sections = split_spans(&text, whole, ';');
    let ghost parts = spans_text(sections@, text@);
    proof {
        assert(whole.of(text@) =~= text@);
    }
    let mut map: HashMap<u64, Vec<BaseModification>> = HashMap::new();
    let mut cursor: usize = 0;
    let mut s: usize = 0;
    proof {
        assert(parts.take(0) =~= Seq::<Seq<char>>::empty());
        assert(modifications_view(map) =~= modification_map(Seq::<Call>::empty()));
    }
    while s < sections.len()
        invariant
            s <= sections.len(),
            whole == (Span { start: 0, end: text.len() }),
            spans_chained(sections@, whole),
            parts == spans_text(sections@, text@),
            holds_read(read, table@, ml_bytes@),
            read.sequence == seq@,
            cursor == consumed(parts.take(s as int)),
            s < sections.len() ==> cursor <= sections[s as int].start,
            modifications_view(map) == modification_map(decoded_calls(read, parts.take(s as int))),
        decreases sections.len() - s,
    {
        let section = sections[s];
        let ghost done = parts.take(s as int);
        let ghost upto = parts.take(s + 1);
        let ghost prior = decoded_calls(read, done);
        proof {
            assert(section.inside(whole));
            assert(upto.drop_last() =~= done);
            assert(upto.last() == section.of(text@));
            if s + 1 < sections.len() {
                assert(sections[(s as int) + 1].start == sections[s as int].end + 1);
            }
        }
        let trimmed = trim_span(&text, section);
        let fields = split_spans(&text, trimmed, ',');
        let count: usize = if fields.len() == 2 && fields[1].start == fields[1].end {
            0
        } else {
            fields.len() - 1
        };
        proof {
            lemma_chained_start(fields@, trimmed, fields.len() - 1);
            assert(spans_text(fields@, text@) == section_fields(section.of(text@)));
            assert(field_tokens(spans_text(fields@, text@)).len() == count);
            assert(fields[0].of(text@) == section_header(section.of(text@)));
            assert(fields[0].inside(trimmed));
        }
        match classify_header(&text, fields[0]) {
            SectionKind::Malformed => {
                proof {
                    assert(prior + Seq::<Call>::empty() =~= prior);
                }
            },
            SectionKind::Skipped => {
                cursor = cursor + count;
                proof {
                    assert(prior + Seq::<Call>::empty() =~= prior);
                }
            },
            SectionKind::Calls { base, modification_type } => {
                let offsets = offsets_of_base(seq, base);
                cursor = decode_deltas(
                    &text,
                    &fields,
                    count,
                    &offsets,
                    &table,
                    ml_bytes,
                    modification_type,
                    cursor,
                    &mut map,
                    Ghost(read),
                    Ghost(base),
                    Ghost(prior),
                );
                proof {
                    lemma_leading_deltas_len(section_tokens(section.of(text@)));
                }
            },
        }
        s += 1;
    }
    proof {
        assert(parts.take(s as int) =~= parts);
    }
    Ok(map)
}

} // verus!
