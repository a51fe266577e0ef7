//! Tests of the trigram pattern classifier and its lookup table.

use trigram_stats::trigram_patterns::get_trigram_combinations;
use trigram_stats::trigram_patterns::Finger;
use trigram_stats::trigram_patterns::Trigram;
use trigram_stats::trigram_patterns::TrigramPattern;

fn classify(f1: Finger, f2: Finger, f3: Finger) -> TrigramPattern {
    Trigram::new(f1, f2, f3).get_trigram_pattern()
}

fn table_entry(a: usize, b: usize, c: usize) -> TrigramPattern {
    let table = get_trigram_combinations();
    table[(a << 6) | (b << 3) | c]
}

#[test]
fn table_has_512_entries() {
    assert_eq!(get_trigram_combinations().len(), 512);
}

#[test]
fn table_is_deterministic() {
    let first = get_trigram_combinations();
    let second = get_trigram_combinations();
    for i in 0..512 {
        assert_eq!(first[i], second[i]);
    }
}

#[test]
fn table_agrees_with_decision_procedure() {
    let table = get_trigram_combinations();
    for a in 0..8 {
        for b in 0..8 {
            for c in 0..8 {
                let direct = classify(
                    Finger::from_usize(a),
                    Finger::from_usize(b),
                    Finger::from_usize(c),
                );
                assert_eq!(table[(a << 6) | (b << 3) | c], direct);
            }
        }
    }
}

#[test]
fn same_finger_trigrams() {
    for f in 0..8 {
        assert_eq!(table_entry(f, f, f), TrigramPattern::Sft);
    }
}

#[test]
fn single_adjacent_repeat_is_bad_sfb() {
    // same hand, exactly one adjacent equal pair
    assert_eq!(table_entry(0, 0, 2), TrigramPattern::BadSfb);
    assert_eq!(table_entry(1, 3, 3), TrigramPattern::BadSfb);
    assert_eq!(table_entry(7, 5, 5), TrigramPattern::BadSfb);
}

#[test]
fn alternating_hands() {
    // left-right-left with distinct outer fingers
    assert_eq!(table_entry(3, 4, 2), TrigramPattern::Alternate);
    // right-left-right with the same outer finger
    assert_eq!(table_entry(4, 3, 4), TrigramPattern::AlternateSfs);
    // left-right-left with the same outer finger
    assert_eq!(table_entry(0, 7, 0), TrigramPattern::AlternateSfs);
}

#[test]
fn rolls() {
    // left-left-right moving rightwards: inward roll
    assert_eq!(table_entry(0, 2, 4), TrigramPattern::Inroll);
    // left-left-right moving leftwards: outward roll
    assert_eq!(table_entry(2, 0, 4), TrigramPattern::Outroll);
    // right-right-left moving leftwards: inward roll
    assert_eq!(table_entry(7, 5, 2), TrigramPattern::Inroll);
    // left-right-right moving rightwards towards the pinky: outward roll
    assert_eq!(table_entry(2, 5, 7), TrigramPattern::Outroll);
}

#[test]
fn one_hand_and_redirects() {
    // strictly increasing on the left hand: smooth one-hand run
    assert_eq!(table_entry(1, 2, 3), TrigramPattern::Onehand);
    // direction change with an index finger involved, distinct outer fingers
    assert_eq!(table_entry(3, 0, 2), TrigramPattern::Redirect);
    // direction change on weak fingers only, distinct outer fingers
    assert_eq!(table_entry(0, 2, 1), TrigramPattern::BadRedirect);
    // direction change with an index finger, same outer finger
    assert_eq!(table_entry(3, 2, 3), TrigramPattern::RedirectSfs);
    // direction change on weak fingers, same outer finger
    assert_eq!(table_entry(0, 2, 0), TrigramPattern::BadRedirectSfs);
}

#[test]
fn cross_hand_same_finger_bigram() {
    // left-left-right with an adjacent repeat across the triple
    assert_eq!(table_entry(3, 3, 4), TrigramPattern::Sfb);
    assert_eq!(table_entry(3, 6, 6), TrigramPattern::Sfb);
}

#[test]
fn every_entry_is_one_category() {
    // the thirteen categories are exhaustive, and a mixed-hand non-alternating
    // triple of non-thumb fingers always forms a roll or bigram, never Other
    let table = get_trigram_combinations();
    for i in 0..512 {
        assert_ne!(table[i], TrigramPattern::Other);
    }
}

#[test]
fn finger_comparisons() {
    assert!(Finger::LP.eq(Finger::LP));
    assert!(!Finger::LP.eq(Finger::LR));
    assert!(Finger::RP.gt(Finger::RI));
    assert!(Finger::LM.lt(Finger::LI));
    assert!(!Finger::LI.lt(Finger::LI));
}
