use vstd::prelude::*;

verus! {

/// Threshold weight of the 2x2 ordered-dither matrix
/// `[[1, 3], [4, 2]]`, indexed by the parities of the cell position
/// as `(row mod 2, col mod 2)`.  It depends on the position alone,
/// never on the image.
pub open spec fn dither_weight(row: int, col: int) -> int {
    if row % 2 == 0 {
        if col % 2 == 0 {
            1
        } else {
            3
        }
    } else {
        if col % 2 == 0 {
            4
        } else {
            2
        }
    }
}

/// Brightness threshold for an output cell: the weight's fifth of full
/// brightness, `weight / 5 * 255`, which is the exact integer
/// `51 * weight`.
pub open spec fn dither_threshold(row: int, col: int) -> int {
    51 * dither_weight(row, col)
}

/// The dither weight at `(row, col)`, from the position parities.
pub fn dither_weight_at(row: u16, col: u16) -> (w: u8)
    ensures
        w == dither_weight(row as int, col as int),
        1 <= w <= 4,
{
    if row % 2 == 0 {
        if col % 2 == 0 {
            1
        } else {
            3
        }
    } else {
        if col % 2 == 0 {
            4
        } else {
            2
        }
    }
}

/// Law: the dither weight depends only on the parities of the cell
/// position, and the four parity classes carry the documented weights
/// 1, 3, 4 and 2 read as a 2x2 grid.
pub proof fn lemma_dither_parity(row: int, col: int)
    requires
        row >= 0,
        col >= 0,
    ensures
        dither_weight(row, col) == dither_weight(row % 2, col % 2),
        dither_weight(0, 0) == 1,
        dither_weight(0, 1) == 3,
        dither_weight(1, 0) == 4,
        dither_weight(1, 1) == 2,
        1 <= dither_weight(row, col) <= 4,
{
}

} // verus!
