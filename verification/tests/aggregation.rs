//! Tests of data-set merging and the end-to-end aggregation pass.

use trigram_stats::data::PosTriple;
use trigram_stats::data::TrigramData;
use trigram_stats::mapping::Pos;

fn pos(row: usize, col: usize) -> Pos {
    Pos { row, col }
}

/// The trigram of the physical keys KeyA, KeyS, KeyD on the home row.
fn home_row_trigram() -> PosTriple {
    PosTriple { p1: pos(2, 1), p2: pos(2, 2), p3: pos(2, 3) }
}

#[test]
fn insert_appends_for_a_repeated_trigram() {
    let mut data = TrigramData::new();
    data.insert(home_row_trigram(), vec![1, 2]);
    data.insert(home_row_trigram(), vec![3]);
    assert_eq!(data.entries.len(), 1);
    assert_eq!(data.entries[0].samples, vec![1, 2, 3]);
}

#[test]
fn combine_concatenates_overlapping_trigrams() {
    let other_trigram = PosTriple { p1: pos(1, 1), p2: pos(1, 2), p3: pos(1, 3) };
    let third_trigram = PosTriple { p1: pos(3, 2), p2: pos(3, 3), p3: pos(3, 4) };

    let mut left = TrigramData::new();
    left.insert(home_row_trigram(), vec![100, 110]);
    left.insert(other_trigram, vec![50]);

    let mut right = TrigramData::new();
    right.insert(home_row_trigram(), vec![120]);
    right.insert(third_trigram, vec![70]);

    let merged = left.combine(right);
    assert_eq!(merged.entries.len(), 3);
    for entry in &merged.entries {
        if entry.trigram == home_row_trigram() {
            // concatenated, left side first: population sizes add
            assert_eq!(entry.samples, vec![100, 110, 120]);
        } else if entry.trigram == other_trigram {
            assert_eq!(entry.samples, vec![50]);
        } else {
            assert_eq!(entry.trigram, third_trigram);
            assert_eq!(entry.samples, vec![70]);
        }
    }
}

#[test]
fn combine_all_folds_left_to_right() {
    let mut first = TrigramData::new();
    first.insert(home_row_trigram(), vec![1]);
    let mut second = TrigramData::new();
    second.insert(home_row_trigram(), vec![2]);
    let mut third = TrigramData::new();
    third.insert(home_row_trigram(), vec![3]);

    let merged = TrigramData::combine_all(vec![first, second, third]);
    assert_eq!(merged.entries.len(), 1);
    assert_eq!(merged.entries[0].samples, vec![1, 2, 3]);

    let empty = TrigramData::combine_all(Vec::new());
    assert_eq!(empty.entries.len(), 0);
}

#[test]
fn home_row_trigram_is_one_hand() {
    // KeyA,KeyS,KeyD remap to indexes 10,11,12: fingers 0,1,2 strictly
    // increasing on the left hand, so the record lands in the one-hand
    // bucket, and in the overall bucket like every record
    let mut data = TrigramData::new();
    data.insert(home_row_trigram(), vec![100, 110, 120]);
    let stats = data.matrix_3x10().stats();

    assert_eq!(stats.onehand.pop, 3);
    assert_eq!(stats.onehand.mean, 110);
    assert_eq!(stats.overall.pop, 3);
    assert_eq!(stats.overall.mean, 110);

    assert_eq!(stats.sfr.pop, 0);
    assert_eq!(stats.sfs.pop, 0);
    assert_eq!(stats.sfb.pop, 0);
    assert_eq!(stats.bad_sfb.pop, 0);
    assert_eq!(stats.sft.pop, 0);
    assert_eq!(stats.alternate.pop, 0);
    assert_eq!(stats.alternate_sfs.pop, 0);
    assert_eq!(stats.inroll.pop, 0);
    assert_eq!(stats.outroll.pop, 0);
    assert_eq!(stats.redirect.pop, 0);
    assert_eq!(stats.redirect_sfs.pop, 0);
    assert_eq!(stats.bad_redirect.pop, 0);
    assert_eq!(stats.bad_redirect_sfs.pop, 0);
}

#[test]
fn same_key_repeat_skips_classification() {
    // KeyA,KeyA,KeyS strikes the same key twice in a row
    let mut data = TrigramData::new();
    data.insert(
        PosTriple { p1: pos(2, 1), p2: pos(2, 1), p3: pos(2, 2) },
        vec![200, 220],
    );
    let stats = data.matrix_3x10().stats();

    assert_eq!(stats.sfr.pop, 2);
    assert_eq!(stats.sfr.mean, 210);
    assert_eq!(stats.overall.pop, 2);
    assert_eq!(stats.onehand.pop, 0);
    assert_eq!(stats.sft.pop, 0);
    assert_eq!(stats.bad_sfb.pop, 0);
}

#[test]
fn skipgram_bucket_is_filled_alongside_the_category() {
    // KeyA,KeyS,KeyA: fingers 0,1,0 on one hand, a direction change on weak
    // fingers with equal outer fingers, and a same-finger skipgram
    let mut data = TrigramData::new();
    data.insert(
        PosTriple { p1: pos(2, 1), p2: pos(2, 2), p3: pos(2, 1) },
        vec![90, 110],
    );
    let stats = data.matrix_3x10().stats();

    assert_eq!(stats.bad_redirect_sfs.pop, 2);
    assert_eq!(stats.sfs.pop, 2);
    assert_eq!(stats.overall.pop, 2);
    assert_eq!(stats.sfr.pop, 0);
}

#[test]
fn folded_outer_keys_both_contribute() {
    // ShiftLeft (3,0) and IntlBackslash (3,1) fold onto the same canonical
    // column; records for both keys stay in the data set and their samples
    // all reach the statistics
    let mut data = TrigramData::new();
    data.insert(
        PosTriple { p1: pos(3, 0), p2: pos(2, 2), p3: pos(2, 3) },
        vec![100, 120],
    );
    data.insert(
        PosTriple { p1: pos(3, 1), p2: pos(2, 2), p3: pos(2, 3) },
        vec![110],
    );
    let matrix = data.matrix_3x10();
    assert_eq!(matrix.entries.len(), 2);
    assert_eq!(matrix.entries[0].indexes, [22, 11, 12]);
    assert_eq!(matrix.entries[1].indexes, [22, 11, 12]);
    let stats = matrix.stats();
    assert_eq!(stats.overall.pop, 3);
    assert_eq!(stats.overall.mean, 110);
    // fingers 2,1,2: a weak-finger direction change with equal outer fingers
    assert_eq!(stats.bad_redirect_sfs.pop, 3);
}

#[test]
fn merged_files_aggregate_together() {
    // two files with the same trigram: the merged statistics cover the
    // concatenation of both sample lists
    let mut first = TrigramData::new();
    first.insert(home_row_trigram(), vec![90, 100]);
    let mut second = TrigramData::new();
    second.insert(home_row_trigram(), vec![110]);

    let stats = TrigramData::combine_all(vec![first, second]).matrix_3x10().stats();
    assert_eq!(stats.onehand.pop, 3);
    assert_eq!(stats.onehand.mean, 100);
    assert_eq!(stats.onehand.sd, 10);
    assert_eq!(stats.overall.pop, 3);
}
