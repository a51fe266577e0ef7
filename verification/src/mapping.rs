//! Raw physical key positions and their remapping onto the canonical
//! 3-row by 10-column analysis grid.

use vstd::prelude::*;

verus! {

/// A raw physical key position: a (row, column) pair on the extended
/// keyboard layout, as produced at the parsing boundary.
#[derive(Copy, Clone, Debug, Default, Hash, PartialEq, Eq, Structural)]
pub struct Pos {
    pub row: usize,
    pub col: usize,
}

/// Whether a raw position lies in the region that the analysis grid keeps:
/// rows 1 and 2 with column in (0, 10], or row 3 with column at most 12.
pub open spec fn valid_pos(p: Pos) -> bool {
    ||| ((p.row == 1 || p.row == 2) && 0 < p.col <= 10)
    ||| (p.row == 3 && p.col <= 12)
}

/// The canonical matrix index of a valid raw position, flattened as
/// `row * 10 + col` over the 3x10 grid. Rows 1 and 2 shift down and left by
/// one. Row 3 becomes row 2, folding raw columns 0 and 1 onto column 2 and
/// raw column 12 onto column 9.
pub open spec fn remap_spec(p: Pos) -> int {
    if p.row == 1 || p.row == 2 {
        (p.row - 1) * 10 + (p.col - 1)
    } else {
        if p.col == 0 || p.col == 1 {
            22
        } else if p.col <= 11 {
            20 + (p.col - 2)
        } else {
            29
        }
    }
}

/// Tests a raw position against the analysis-grid region.
pub fn pos_is_valid(p: Pos) -> (r: bool)
    ensures
        r == valid_pos(p),
{
    match p.row {
        1 | 2 => p.col > 0 && p.col <= 10,
        3 => p.col <= 12,
        _ => false,
    }
}

/// Remaps a valid raw position to its canonical matrix index.
pub fn remap(p: Pos) -> (r: usize)
    requires
        valid_pos(p),
    ensures
        r == remap_spec(p),
        r < 30,
{
    match p.row {
        1 | 2 => (p.row - 1) * 10 + (p.col - 1),
        _ => match p.col {
            0 | 1 => 22,
            n if n <= 11 => 20 + (n - 2),
            _ => 29,
        },
    }
}

} // verus!
