use std::collections::HashMap;
use noodles::sam::alignment::record::cigar::op::Kind;
use tgv::cigar::{check_cigar_in_range, CigarOp};
use tgv::modification::{parse_modification_data, BaseModification, ModificationType};

fn make_match(len: usize) -> CigarOp {
    CigarOp::new(Kind::Match, len)
}

fn make_softclip(len: usize) -> CigarOp {
    CigarOp::new(Kind::SoftClip, len)
}

fn make_deletion(len: usize) -> CigarOp {
    CigarOp::new(Kind::Deletion, len)
}

fn decode(
    mm: &str,
    ml: &[u8],
    seq: &[u8],
    cigars: &[CigarOp],
    start: u64,
) -> HashMap<u64, Vec<BaseModification>> {
    assert!(check_cigar_in_range(cigars, start));
    parse_modification_data(mm, ml, seq, cigars, start).unwrap()
}

fn call(modification_type: ModificationType, probability: u8) -> BaseModification {
    BaseModification { modification_type, probability }
}

#[test]
fn test_5mc_basic() {
    let seq = b"ACGCACGC";
    let cigars = vec![make_match(8)];
    let mm = "C+m?,0,1";
    let ml = vec![200u8, 50u8];

    let result = decode(mm, &ml, seq, &cigars, 1);

    assert!(result.contains_key(&2));
    assert_eq!(result[&2][0].modification_type, ModificationType::FiveMC);
    assert_eq!(result[&2][0].probability, 200);

    assert!(result.contains_key(&6));
    assert_eq!(result[&6][0].modification_type, ModificationType::FiveMC);
    assert_eq!(result[&6][0].probability, 50);

    assert_eq!(result.len(), 2);
}

#[test]
fn test_5mc_with_softclip() {
    let seq = b"GGACGCACGC";
    let cigars = vec![make_softclip(2), make_match(8)];
    let mm = "C+m?,0";
    let ml = vec![255u8];

    let result = decode(mm, &ml, seq, &cigars, 1);

    assert!(result.contains_key(&2));
    assert_eq!(result[&2][0].probability, 255);
    assert_eq!(result.len(), 1);
}

#[test]
fn test_5hmc() {
    let seq = b"ACGCACGC";
    let cigars = vec![make_match(8)];
    let mm = "C+h?,1";
    let ml = vec![180u8];

    let result = decode(mm, &ml, seq, &cigars, 1);

    assert!(result.contains_key(&4));
    assert_eq!(result[&4][0].modification_type, ModificationType::FiveHMC);
    assert_eq!(result[&4][0].probability, 180);
    assert_eq!(result.len(), 1);
}

#[test]
fn test_unknown_mod_code_is_skipped() {
    let seq = b"ACGCACGC";
    let cigars = vec![make_match(8)];
    let mm = "C+z?,0";
    let ml = vec![200u8];

    let result = decode(mm, &ml, seq, &cigars, 1);
    assert!(result.is_empty());
}

#[test]
fn test_reverse_strand_skipped() {
    let seq = b"ACGCACGC";
    let cigars = vec![make_match(8)];
    let mm = "C-m?,0";
    let ml = vec![200u8];

    let result = decode(mm, &ml, seq, &cigars, 1);
    assert!(result.is_empty());
}

#[test]
fn test_empty_mm() {
    let seq = b"ACGT";
    let cigars = vec![make_match(4)];
    let result = decode("", &[], seq, &cigars, 1);
    assert!(result.is_empty());
}

#[test]
fn test_with_deletion() {
    let seq = b"ACGCAC";
    let cigars = vec![make_match(3), make_deletion(2), make_match(3)];
    let mm = "C+m?,0,0";
    let ml = vec![200u8, 100u8];

    let result = decode(mm, &ml, seq, &cigars, 1);

    assert!(result.contains_key(&2), "expected ref pos 2 (1st C)");
    assert!(result.contains_key(&6), "expected ref pos 6 (2nd C, after deletion)");
    assert_eq!(result[&2][0].probability, 200);
    assert_eq!(result[&6][0].probability, 100);
    assert_eq!(result.len(), 2);
}

#[test]
fn test_is_high_and_is_low_thresholds() {
    assert!(call(ModificationType::FiveMC, 179).is_high());
    assert!(!call(ModificationType::FiveMC, 178).is_high());
    assert!(call(ModificationType::FiveMC, 255).is_high());
    assert!(call(ModificationType::SixMA, 76).is_low());
    assert!(!call(ModificationType::SixMA, 77).is_low());
    assert!(call(ModificationType::SixMA, 0).is_low());
    assert!(!call(ModificationType::FiveHMC, 100).is_high());
    assert!(!call(ModificationType::FiveHMC, 100).is_low());
}

#[test]
fn test_overshoot_still_uses_up_a_probability() {
    // Four C in the read. The first delta reaches past them; the third
    // probability still belongs to the third token.
    let seq = b"ACGCACGC";
    let cigars = vec![make_match(8)];
    let result = decode("C+m?,9,0;C+h?,0", &[10, 20, 30], seq, &cigars, 1);
    assert!(result.is_empty() || result.len() == 1);
    // After an overshoot the cursor into the candidates stays past them.
    assert_eq!(result.len(), 1);
    assert_eq!(result[&2], vec![call(ModificationType::FiveHMC, 30)]);
}

#[test]
fn test_skipped_sections_keep_the_probabilities_in_step() {
    let seq = b"ACGCACGC";
    let cigars = vec![make_match(8)];
    let result = decode("C-m?,0,1;C+z?,5;C+m?,1", &[1, 2, 3, 4], seq, &cigars, 1);
    assert_eq!(result.len(), 1);
    assert_eq!(result[&4], vec![call(ModificationType::FiveMC, 4)]);
}

#[test]
fn test_missing_base_uses_up_probabilities() {
    // No T in the read: each delta of the T section still has its byte.
    let seq = b"ACGCACGC";
    let cigars = vec![make_match(8)];
    let result = decode("T+m?,0,0;A+a?,1", &[7, 8, 9], seq, &cigars, 1);
    assert_eq!(result.len(), 1);
    assert_eq!(result[&5], vec![call(ModificationType::SixMA, 9)]);
}

#[test]
fn test_two_calls_at_one_position_keep_tag_order() {
    let seq = b"ACGCACGC";
    let cigars = vec![make_match(8)];
    let result = decode("C+h?,0;C+m?,0", &[11, 22], seq, &cigars, 1);
    assert_eq!(result.len(), 1);
    assert_eq!(
        result[&2],
        vec![call(ModificationType::FiveHMC, 11), call(ModificationType::FiveMC, 22)]
    );
}

#[test]
fn test_probabilities_run_out() {
    let seq = b"ACGCACGC";
    let cigars = vec![make_match(8)];
    let result = decode("C+m?,0,0,0", &[5], seq, &cigars, 1);
    assert_eq!(result[&2], vec![call(ModificationType::FiveMC, 5)]);
    assert_eq!(result[&4], vec![call(ModificationType::FiveMC, 255)]);
    assert_eq!(result[&6], vec![call(ModificationType::FiveMC, 255)]);
    assert_eq!(result.len(), 3);
}

#[test]
fn test_token_that_is_no_number_ends_its_section_only() {
    let seq = b"ACGCACGC";
    let cigars = vec![make_match(8)];
    let result = decode("C+m?,0,x,0;A+a?,0", &[1, 2, 3], seq, &cigars, 1);
    assert_eq!(result.len(), 2);
    assert_eq!(result[&2], vec![call(ModificationType::FiveMC, 1)]);
    // One probability was used up before the section ended.
    assert_eq!(result[&1], vec![call(ModificationType::SixMA, 2)]);
}

#[test]
fn test_whitespace_plus_sign_and_trailing_semicolons() {
    let seq = b"acgcacgc";
    let cigars = vec![make_match(8)];
    let result = decode("  c+m , +0 ,\t1 ;;; ", &[9, 8], seq, &cigars, 1);
    assert_eq!(result.len(), 2);
    assert_eq!(result[&2], vec![call(ModificationType::FiveMC, 9)]);
    assert_eq!(result[&6], vec![call(ModificationType::FiveMC, 8)]);
}

#[test]
fn test_short_header_is_passed_over_without_probabilities() {
    let seq = b"ACGCACGC";
    let cigars = vec![make_match(8)];
    let result = decode("C+,0,0;C+m,0", &[1, 2, 3], seq, &cigars, 1);
    assert_eq!(result.len(), 1);
    assert_eq!(result[&2], vec![call(ModificationType::FiveMC, 1)]);
}

#[test]
fn test_calls_on_clipped_and_inserted_bases_are_dropped() {
    // 2S 2M 2I 2M: offsets 0,1 clipped, 2,3 -> 10,11, 4,5 inserted, 6,7 -> 12,13
    let seq = b"CCCCCCCC";
    let cigars = vec![
        make_softclip(2),
        make_match(2),
        CigarOp::new(Kind::Insertion, 2),
        CigarOp::new(Kind::SequenceMatch, 1),
        CigarOp::new(Kind::SequenceMismatch, 1),
    ];
    let result = decode("C+m,0,0,0,0,0,0,0,0", &[1, 2, 3, 4, 5, 6, 7, 8], seq, &cigars, 10);
    assert_eq!(result.len(), 4);
    assert_eq!(result[&10], vec![call(ModificationType::FiveMC, 3)]);
    assert_eq!(result[&11], vec![call(ModificationType::FiveMC, 4)]);
    assert_eq!(result[&12], vec![call(ModificationType::FiveMC, 7)]);
    assert_eq!(result[&13], vec![call(ModificationType::FiveMC, 8)]);
}

#[test]
fn test_decoding_twice_gives_the_same_map() {
    let seq = b"ACGCACGC";
    let cigars = vec![make_match(3), make_deletion(2), make_match(5)];
    let first = decode("C+m?,0,1;A+a,0", &[200, 50, 90], seq, &cigars, 7);
    let second = decode("C+m?,0,1;A+a,0", &[200, 50, 90], seq, &cigars, 7);
    assert_eq!(first, second);
}

#[test]
fn test_cigar_range_check() {
    assert!(check_cigar_in_range(&[make_match(8)], 1));
    assert!(!check_cigar_in_range(&[make_match(8)], u64::MAX - 7));
    assert!(check_cigar_in_range(&[make_match(8)], u64::MAX - 8));
    assert!(!check_cigar_in_range(&[make_softclip(usize::MAX), make_match(1)], 1));
    assert!(check_cigar_in_range(&[CigarOp::new(Kind::HardClip, usize::MAX), make_match(1)], 1));
}
