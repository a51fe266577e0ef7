//! Tests of the raw-position constraints and the canonical grid remapping.

use trigram_stats::data::PosTriple;
use trigram_stats::data::TrigramData;
use trigram_stats::mapping::pos_is_valid;
use trigram_stats::mapping::remap;
use trigram_stats::mapping::Pos;

fn pos(row: usize, col: usize) -> Pos {
    Pos { row, col }
}

#[test]
fn validity_constraints() {
    assert!(pos_is_valid(pos(1, 1)));
    assert!(pos_is_valid(pos(1, 10)));
    assert!(!pos_is_valid(pos(1, 0)));
    assert!(!pos_is_valid(pos(1, 11)));
    assert!(pos_is_valid(pos(2, 5)));
    assert!(pos_is_valid(pos(3, 0)));
    assert!(pos_is_valid(pos(3, 12)));
    assert!(!pos_is_valid(pos(3, 13)));
    assert!(!pos_is_valid(pos(0, 3)));
    assert!(!pos_is_valid(pos(4, 0)));
}

#[test]
fn remap_top_rows() {
    // (row=1, col=2) lands on canonical row 0, column 1
    assert_eq!(remap(pos(1, 2)), 1);
    assert_eq!(remap(pos(1, 1)), 0);
    assert_eq!(remap(pos(1, 10)), 9);
    assert_eq!(remap(pos(2, 1)), 10);
    assert_eq!(remap(pos(2, 10)), 19);
}

#[test]
fn remap_bottom_row_folds_outer_columns() {
    // raw columns 0 and 1 both fold onto canonical column 2 of row 2
    assert_eq!(remap(pos(3, 0)), 22);
    assert_eq!(remap(pos(3, 1)), 22);
    // raw columns 2..=11 shift left by two
    assert_eq!(remap(pos(3, 2)), 20);
    assert_eq!(remap(pos(3, 11)), 29);
    // raw column 12 folds onto canonical column 9
    assert_eq!(remap(pos(3, 12)), 29);
}

#[test]
fn out_of_range_trigrams_are_dropped() {
    let mut data = TrigramData::new();
    // a fully valid trigram
    data.insert(
        PosTriple { p1: pos(2, 1), p2: pos(2, 2), p3: pos(2, 3) },
        vec![10, 20],
    );
    // one position on the rejected row 4 drops the whole record
    data.insert(
        PosTriple { p1: pos(2, 1), p2: pos(4, 3), p3: pos(2, 3) },
        vec![30],
    );
    // one position with the rejected column 0 on row 1 drops the record
    data.insert(
        PosTriple { p1: pos(1, 0), p2: pos(2, 2), p3: pos(2, 3) },
        vec![40],
    );
    let matrix = data.matrix_3x10();
    assert_eq!(matrix.entries.len(), 1);
    assert_eq!(matrix.entries[0].indexes, [10, 11, 12]);
    assert_eq!(matrix.entries[0].samples, vec![10, 20]);
}
