//! Grid index mapper: pure conversions between a linear cell index and
//! (row, column) coordinates on a grid of a fixed width.

use vstd::prelude::*;

verus! {

/// Row of a linear index on a grid of the given width.
pub open spec fn spec_row(index: int, width: u16) -> int {
    index / (width as int)
}

/// Column of a linear index on a grid of the given width.
pub open spec fn spec_col(index: int, width: u16) -> int {
    index % (width as int)
}

/// Linear index of a (row, column) pair on a grid of the given width.
pub fn get_index(row: u16, column: u16, width: u16) -> (r: u32)
    ensures
        r == row * width + column,
{
    proof {
        assert((row as int) * (width as int) <= 0xFFFF * 0xFFFF) by (nonlinear_arith)
            requires
                row <= 0xFFFF,
                width <= 0xFFFF,
        ;
    }
    (row as u32) * (width as u32) + (column as u32)
}

/// (row, column) of a linear index on a grid of the given width.
pub fn get_row_col(index: u32, width: u16) -> (r: (u16, u16))
    requires
        1 <= width,
        index < 0x10000 * (width as int),
    ensures
        r.0 == spec_row(index as int, width),
        r.1 == spec_col(index as int, width),
{
    let row = index / (width as u32);
    let col = index % (width as u32);
    proof {
        assert(index as int / (width as int) < 0x10000) by (nonlinear_arith)
            requires
                1 <= width,
                index < 0x10000 * (width as int),
        ;
        assert(index as int % (width as int) < width as int) by (nonlinear_arith)
            requires
                1 <= width,
                0 <= index,
        ;
    }
    (row as u16, col as u16)
}

} // verus!
