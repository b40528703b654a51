//! CIGAR operations and the alignment of query offsets to reference
//! positions that they describe.

use noodles::sam::alignment::record::cigar::op::Kind;
use vstd::prelude::*;

verus! {

/// The kinds of CIGAR operation are those of `noodles`.
#[verifier::external_type_specification]
pub struct ExKind(noodles::sam::alignment::record::cigar::op::Kind);

/// An operation of this kind advances along the read.
pub open spec fn consumes_query(kind: Kind) -> bool {
    kind is Match || kind is Insertion || kind is SoftClip || kind is SequenceMatch
        || kind is SequenceMismatch
}

/// An operation of this kind advances along the reference.
pub open spec fn consumes_reference(kind: Kind) -> bool {
    kind is Match || kind is Deletion || kind is Skip || kind is SequenceMatch
        || kind is SequenceMismatch
}

/// An operation of this kind pairs read bases with reference positions one
/// to one.
pub open spec fn is_aligned(kind: Kind) -> bool {
    kind is Match || kind is SequenceMatch || kind is SequenceMismatch
}

/// One CIGAR operation: a kind and the number of bases it covers.
#[derive(Clone, Copy, Debug, PartialEq, Eq)]
pub struct CigarOp {
    pub kind: Kind,
    pub len: usize,
}

impl CigarOp {
    pub fn new(kind: Kind, len: usize) -> (op: CigarOp)
        ensures
            op == (CigarOp { kind, len }),
    {
        CigarOp { kind, len }
    }

    pub fn kind(&self) -> (kind: Kind)
        ensures
            kind == self.kind,
    {
        self.kind
    }

    pub fn len(&self) -> (len: usize)
        ensures
            len == self.len,
    {
        self.len
    }

    /// How far the operation advances along the read.
    pub open spec fn query_len(self) -> nat {
        if consumes_query(self.kind) {
            self.len as nat
        } else {
            0
        }
    }

    /// How far the operation advances along the reference.
    pub open spec fn reference_len(self) -> nat {
        if consumes_reference(self.kind) {
            self.len as nat
        } else {
            0
        }
    }
}

/// The number of read bases that `ops` cover.
pub open spec fn query_span(ops: Seq<CigarOp>) -> nat
    decreases ops.len(),
{
    if ops.len() == 0 {
        0
    } else {
        query_span(ops.drop_last()) + ops.last().query_len()
    }
}

/// The number of reference positions that `ops` cover.
pub open spec fn reference_span(ops: Seq<CigarOp>) -> nat
    decreases ops.len(),
{
    if ops.len() == 0 {
        0
    } else {
        reference_span(ops.drop_last()) + ops.last().reference_len()
    }
}

/// The reference position that the read base at `offset` (counted from 0) is
/// aligned to, for a read whose alignment starts at reference position
/// `start`. Bases that are clipped or inserted have none.
pub open spec fn reference_position(ops: Seq<CigarOp>, start: u64, offset: int) -> Option<int>
    decreases ops.len(),
{
    if ops.len() == 0 {
        None
    } else {
        let before = ops.drop_last();
        let op = ops.last();
        let first = query_span(before);
        if is_aligned(op.kind) && first <= offset < first + op.len {
            Some(start + reference_span(before) + (offset - first))
        } else {
            reference_position(before, start, offset)
        }
    }
}

/// The read and the reference positions that `ops` reach from `start` are
/// machine numbers.
pub open spec fn cigar_in_range(ops: Seq<CigarOp>, start: u64) -> bool {
    query_span(ops) <= usize::MAX && start + reference_span(ops) <= u64::MAX
}

/// A prefix of a CIGAR covers no more than the whole.
pub proof fn lemma_span_prefix(ops: Seq<CigarOp>, k: int)
    requires
        0 <= k <= ops.len(),
    ensures
        query_span(ops.take(k)) <= query_span(ops),
        reference_span(ops.take(k)) <= reference_span(ops),
    decreases ops.len() - k,
{
    if k == ops.len() {
        assert(ops.take(k) =~= ops);
    } else {
        lemma_span_prefix(ops.drop_last(), k);
        assert(ops.drop_last().take(k) =~= ops.take(k));
    }
}

/// An aligned offset lies within the read bases that the CIGAR covers, and
/// its reference position within the reference positions that it covers.
pub proof fn lemma_reference_position_bounds(ops: Seq<CigarOp>, start: u64, offset: int)
    requires
        reference_position(ops, start, offset) is Some,
    ensures
        0 <= offset < query_span(ops),
        start <= reference_position(ops, start, offset)->0 < start + reference_span(ops),
    decreases ops.len(),
{
    if ops.len() > 0 {
        let before = ops.drop_last();
        let op = ops.last();
        let first = query_span(before);
        if is_aligned(op.kind) && first <= offset < first + op.len {
        } else {
            lemma_reference_position_bounds(before, start, offset);
        }
    }
}

/// The base that an aligning operation reaches after `i` steps is aligned to
/// the reference position that the operation reaches after `i` steps: each
/// such base has exactly one position, and along the operation neighbouring
/// bases have neighbouring positions.
pub proof fn lemma_aligned_run(ops: Seq<CigarOp>, start: u64, k: int, i: int)
    requires
        0 <= k < ops.len(),
        is_aligned(ops[k].kind),
        0 <= i < ops[k].len,
    ensures
        reference_position(ops, start, query_span(ops.take(k)) + i) == Some(
            start + reference_span(ops.take(k)) + i,
        ),
    decreases ops.len(),
{
    let before = ops.drop_last();
    if k == ops.len() - 1 {
        assert(ops.take(k) =~= before);
    } else {
        lemma_aligned_run(before, start, k, i);
        assert(before.take(k) =~= ops.take(k));
        assert(before[k] == ops[k]);
        lemma_reference_position_bounds(before, start, query_span(ops.take(k)) + i);
    }
}

/// Aligned bases keep their order on the reference: a later base of the read
/// is aligned to a later position.
pub proof fn lemma_reference_position_increases(
    ops: Seq<CigarOp>,
    start: u64,
    early: int,
    late: int,
)
    requires
        early < late,
        reference_position(ops, start, early) is Some,
        reference_position(ops, start, late) is Some,
    ensures
        reference_position(ops, start, early)->0 < reference_position(ops, start, late)->0,
    decreases ops.len(),
{
    if ops.len() > 0 {
        let before = ops.drop_last();
        let op = ops.last();
        let first = query_span(before);
        if is_aligned(op.kind) && first <= late < first + op.len {
            if !(first <= early) {
                lemma_reference_position_bounds(before, start, early);
            }
        } else {
            lemma_reference_position_bounds(before, start, late);
            lemma_reference_position_increases(before, start, early, late);
        }
    }
}

/// Whether the spans of `ops` from `start` are machine numbers.
pub fn check_cigar_in_range(ops: &[CigarOp], start: u64) -> (fits: bool)
    ensures
        fits == cigar_in_range(ops@, start),
{
    let mut query: usize = 0;
    let mut reference: u64 = start;
    let mut k: usize = 0;
    while k < ops.len()
        invariant
            k <= ops.len(),
            query == query_span(ops@.take(k as int)),
            reference == start + reference_span(ops@.take(k as int)),
        decreases ops.len() - k,
    {
        let op = ops[k];
        proof {
            assert(ops@.take(k + 1).drop_last() =~= ops@.take(k as int));
            lemma_span_prefix(ops@, k + 1);
        }
        if is_query_kind(op.kind) {
            query = match query.checked_add(op.len) {
                Some(sum) => sum,
                None => {
                    return false;
                },
            };
        }
        if is_reference_kind(op.kind) {
            if op.len as u64 > u64::MAX - reference {
                return false;
            }
            reference = reference + op.len as u64;
        }
        k += 1;
    }
    proof {
        assert(ops@.take(k as int) =~= ops@);
    }
    true
}

/// Whether an operation of `kind` advances along the read.
pub fn is_query_kind(kind: Kind) -> (consumes: bool)
    ensures
        consumes == consumes_query(kind),
{
    match kind {
        Kind::Match
        | Kind::Insertion
        | Kind::SoftClip
        | Kind::SequenceMatch
        | Kind::SequenceMismatch => true,
        _ => false,
    }
}

/// Whether an operation of `kind` advances along the reference.
pub fn is_reference_kind(kind: Kind) -> (consumes: bool)
    ensures
        consumes == consumes_reference(kind),
{
    match kind {
        Kind::Match
        | Kind::Deletion
        | Kind::Skip
        | Kind::SequenceMatch
        | Kind::SequenceMismatch => true,
        _ => false,
    }
}

/// What the table of [`reference_positions`] holds at `offset`.
pub open spec fn reference_position_u64(ops: Seq<CigarOp>, start: u64, offset: int) -> Option<
    u64,
> {
    match reference_position(ops, start, offset) {
        Some(position) => Some(position as u64),
        None => None,
    }
}

/// The reference position of each of the first `query_len` bases of a read.
pub fn reference_positions(ops: &[CigarOp], start: u64, query_len: usize) -> (table: Vec<
    Option<u64>,
>)
    requires
        cigar_in_range(ops@, start),
    ensures
        table.len() == query_len,
        forall|offset: int|
            0 <= offset < query_len ==> #[trigger] table[offset] == reference_position_u64(
                ops@,
                start,
                offset,
            ),
{
    let mut table: Vec<Option<u64>> = Vec::new();
    while table.len() < query_len
        invariant
            table.len() <= query_len,
            forall|offset: int| 0 <= offset < table.len() ==> #[trigger] table[offset] is None,
        decreases query_len - table.len(),
    {
        table.push(None);
    }
    let mut query: usize = 0;
    let mut reference: u64 = start;
    let mut k: usize = 0;
    while k < ops.len()
        invariant
            k <= ops.len(),
            cigar_in_range(ops@, start),
            table.len() == query_len,
            query == query_span(ops@.take(k as int)),
            reference == start + reference_span(ops@.take(k as int)),
            forall|offset: int|
                0 <= offset < query_len ==> #[trigger] table[offset] == reference_position_u64(
                    ops@.take(k as int),
                    start,
                    offset,
                ),
        decreases ops.len() - k,
    {
        let op = ops[k];
        let ghost before = ops@.take(k as int);
        let ghost upto = ops@.take(k + 1);
        proof {
            assert(upto.drop_last() =~= before);
            assert(upto.last() == op);
            lemma_span_prefix(ops@, k + 1);
        }
        let aligned = is_query_kind(op.kind) && is_reference_kind(op.kind);
        if aligned && query < query_len {
            let room: usize = query_len - query;
            let count: usize = if op.len < room {
                op.len
            } else {
                room
            };
            let mut i: usize = 0;
            while i < count
                invariant
                    i <= count,
                    count <= op.len,
                    query + count <= query_len,
                    table.len() == query_len,
                    reference + op.len <= u64::MAX,
                    forall|offset: int|
                        0 <= offset < query_len ==> #[trigger] table[offset] == (if query <= offset
                            < query + i {
                            Some((reference + (offset - query)) as u64)
                        } else {
                            reference_position_u64(before, start, offset)
                        }),
                decreases count - i,
            {
                table.set(query + i, Some(reference + i as u64));
                i += 1;
            }
        }
        if is_query_kind(op.kind) {
            query = query + op.len;
        }
        if is_reference_kind(op.kind) {
            reference = reference + op.len as u64;
        }
        k += 1;
    }
    proof {
        assert(ops@.take(k as int) =~= ops@);
    }
    table
}

} // verus!
