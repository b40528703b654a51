use noodles::sam::alignment::record::cigar::op::Kind;
use tgv::cigar::{
    check_cigar_in_range, is_query_kind, is_reference_kind, reference_positions, CigarOp,
};

fn op(kind: Kind, len: usize) -> CigarOp {
    CigarOp::new(kind, len)
}

#[test]
fn test_cigar_op_holds_its_parts() {
    let made = op(Kind::Skip, 13);
    assert_eq!(made.kind(), Kind::Skip);
    assert_eq!(made.len(), 13);
    assert_eq!(made, CigarOp { kind: Kind::Skip, len: 13 });
}

#[test]
fn test_which_kinds_advance_where() {
    let all = [
        (Kind::Match, true, true),
        (Kind::Insertion, true, false),
        (Kind::Deletion, false, true),
        (Kind::Skip, false, true),
        (Kind::SoftClip, true, false),
        (Kind::HardClip, false, false),
        (Kind::Pad, false, false),
        (Kind::SequenceMatch, true, true),
        (Kind::SequenceMismatch, true, true),
    ];
    for (kind, query, reference) in all {
        assert_eq!(is_query_kind(kind), query, "{kind:?}");
        assert_eq!(is_reference_kind(kind), reference, "{kind:?}");
    }
}

#[test]
fn test_reference_positions_of_each_kind() {
    // 1H 2S 3M 1I 2D 1P 2= 3N 1X 1S, from position 100
    let ops = [
        op(Kind::HardClip, 1),
        op(Kind::SoftClip, 2),
        op(Kind::Match, 3),
        op(Kind::Insertion, 1),
        op(Kind::Deletion, 2),
        op(Kind::Pad, 1),
        op(Kind::SequenceMatch, 2),
        op(Kind::Skip, 3),
        op(Kind::SequenceMismatch, 1),
        op(Kind::SoftClip, 1),
    ];
    assert!(check_cigar_in_range(&ops, 100));
    assert_eq!(
        reference_positions(&ops, 100, 10),
        vec![
            None,
            None,
            Some(100),
            Some(101),
            Some(102),
            None,
            Some(105),
            Some(106),
            Some(110),
            None
        ]
    );
    // A table shorter or longer than the read that the CIGAR describes.
    assert_eq!(reference_positions(&ops, 100, 3), vec![None, None, Some(100)]);
    assert_eq!(reference_positions(&ops, 100, 12).len(), 12);
    assert_eq!(reference_positions(&ops, 100, 12)[10..], [None, None]);
    assert_eq!(reference_positions(&[], 1, 2), vec![None, None]);
}

#[test]
fn test_aligned_bases_rise_without_gaps_along_a_run() {
    let ops = [op(Kind::SoftClip, 4), op(Kind::Match, 50), op(Kind::Deletion, 7), op(Kind::Match, 20)];
    let table = reference_positions(&ops, 1000, 74);
    let aligned: Vec<(usize, u64)> =
        table.iter().enumerate().filter_map(|(q, r)| r.map(|r| (q, r))).collect();
    assert_eq!(aligned.len(), 70);
    for pair in aligned.windows(2) {
        assert!(pair[0].1 < pair[1].1);
        if pair[1].0 != 54 {
            assert_eq!(pair[0].1 + 1, pair[1].1);
        }
    }
    assert_eq!(table[4], Some(1000));
    assert_eq!(table[53], Some(1049));
    assert_eq!(table[54], Some(1057));
    assert_eq!(table[73], Some(1076));
}

#[test]
fn test_range_check_at_the_limits() {
    assert!(check_cigar_in_range(&[], u64::MAX));
    assert!(check_cigar_in_range(&[op(Kind::Deletion, 1)], u64::MAX - 1));
    assert!(!check_cigar_in_range(&[op(Kind::Deletion, 1)], u64::MAX));
    assert!(check_cigar_in_range(&[op(Kind::Insertion, usize::MAX)], u64::MAX));
    assert!(!check_cigar_in_range(
        &[op(Kind::Insertion, usize::MAX), op(Kind::SoftClip, 1)],
        1
    ));
    assert!(check_cigar_in_range(
        &[op(Kind::Pad, usize::MAX), op(Kind::HardClip, usize::MAX)],
        u64::MAX
    ));
}
