//! Key positions and the two cost models of a key: an analytic weight made
//! of three factors, and a calibrated table of per-cell costs.
//!
//! Costs and factors are kept as integers in tenths, so that they can be
//! compared and multiplied exactly.

use crate::cells::{in_grid, is_free_cell};
use vstd::prelude::*;

verus! {

/// The calibrated cost of each cell in tenths, by layer, row and column.
/// Cells that take no grapheme cost nothing.
pub const POSITION_COST_TENTHS: [[[u8; 10]; 3]; 5] = [
    [
        [37, 20, 20, 24, 35, 39, 24, 20, 20, 37],
        [15, 0, 0, 10, 24, 24, 10, 0, 0, 15],
        [37, 28, 24, 20, 39, 30, 20, 0, 0, 37],
    ],
    [
        [60, 32, 32, 39, 55, 62, 39, 0, 0, 0],
        [24, 16, 16, 16, 39, 39, 16, 29, 0, 0],
        [60, 45, 39, 32, 62, 48, 32, 0, 0, 0],
    ],
    [
        [0, 0, 0, 39, 55, 62, 39, 32, 32, 0],
        [0, 0, 29, 16, 39, 39, 16, 16, 16, 24],
        [0, 0, 0, 32, 62, 48, 32, 39, 45, 0],
    ],
    [
        [64, 34, 34, 42, 59, 66, 42, 34, 0, 0],
        [26, 17, 17, 17, 42, 42, 17, 17, 29, 0],
        [64, 48, 42, 34, 66, 51, 34, 42, 0, 0],
    ],
    [
        [0, 0, 34, 42, 59, 66, 42, 34, 34, 0],
        [0, 29, 17, 17, 42, 42, 17, 17, 17, 26],
        [0, 0, 42, 34, 66, 51, 34, 42, 48, 0],
    ],
];

/// The calibrated cost of a cell in tenths.
pub open spec fn position_cost(layer: int, row: int, col: int) -> int {
    POSITION_COST_TENTHS[layer][row][col] as int
}

/// Looks up the calibrated cost of a cell, in tenths.
pub fn position_cost_tenths(layer: usize, row: usize, col: usize) -> (r: u8)
    requires
        in_grid(layer as int, row as int, col as int),
    ensures
        r == position_cost(layer as int, row as int, col as int),
        r == 0 <==> !is_free_cell(layer as int, row as int, col as int),
{
    POSITION_COST_TENTHS[layer][row][col]
}

/// The finger that presses a column: 0 for the little finger, 1 for the
/// ring finger, 2 for the middle finger and 3 for the index finger. It is
/// the distance of the column from the nearer edge of the board, up to 3.
pub open spec fn finger_of(col: int) -> int {
    if 0 <= col < 10 {
        let from_edge = if col < 5 {
            col
        } else {
            9 - col
        };
        if from_edge < 3 {
            from_edge
        } else {
            3
        }
    } else {
        0
    }
}

/// The row's share of the weight in tenths: 1.0 on the home row, 1.3 above
/// it, 1.2 below it.
pub open spec fn row_factor(row: int) -> int {
    if row == 1 {
        10
    } else if row == 0 {
        13
    } else if row == 2 {
        12
    } else {
        20
    }
}

/// The column's share of the weight in tenths, by the finger that presses
/// it: index 1.0, middle 1.1, ring 1.2, little finger 1.4.
pub open spec fn col_factor(col: int) -> int {
    if 0 <= col < 10 {
        if finger_of(col) == 3 {
            10
        } else if finger_of(col) == 2 {
            11
        } else if finger_of(col) == 1 {
            12
        } else {
            14
        }
    } else {
        15
    }
}

/// The layer's share of the weight in tenths: 1.0 without shift, then 2.0,
/// 2.2, 2.2 and 2.3 for the four shifted layers.
pub open spec fn layer_factor(layer: int) -> int {
    if layer == 0 {
        10
    } else if layer == 1 {
        20
    } else if layer == 2 || layer == 3 {
        22
    } else if layer == 4 {
        23
    } else {
        30
    }
}

/// The place of a key: its layer, row and column.
#[derive(Clone, Copy, Debug, Default, PartialEq, Eq, Hash, Structural)]
pub struct KeyPos {
    /// The layer, 0 for the unshifted one.
    pub layer: usize,
    /// The row: 0 top, 1 home, 2 bottom.
    pub row: usize,
    /// The column, 0 to 9 from the left.
    pub col: usize,
}

impl KeyPos {
    /// The position with the given coordinates.
    pub fn new(layer: usize, row: usize, col: usize) -> (r: Self)
        ensures
            r == (KeyPos { layer, row, col }),
    {
        Self { layer, row, col }
    }

    /// Whether the key lies on the home row.
    pub fn is_home(&self) -> (b: bool)
        ensures
            b == (self.row == 1),
    {
        self.row == 1
    }

    /// Whether the left hand presses the key.
    pub fn is_left_hand(&self) -> (b: bool)
        ensures
            b == (self.col < 5),
    {
        self.col < 5
    }

    /// The finger that presses the key.
    pub fn finger(&self) -> (r: usize)
        ensures
            r == finger_of(self.col as int),
    {
        match self.col {
            0 | 9 => 0,
            1 | 8 => 1,
            2 | 7 => 2,
            3 | 4 | 5 | 6 => 3,
            _ => 0,
        }
    }

    /// The row's share of the weight, in tenths.
    pub fn row_tenths(&self) -> (r: u32)
        ensures
            r == row_factor(self.row as int),
    {
        match self.row {
            1 => 10,
            0 => 13,
            2 => 12,
            _ => 20,
        }
    }

    /// The column's share of the weight, in tenths.
    pub fn col_tenths(&self) -> (r: u32)
        ensures
            r == col_factor(self.col as int),
    {
        match self.col {
            3 | 4 | 5 | 6 => 10,
            2 | 7 => 11,
            1 | 8 => 12,
            0 | 9 => 14,
            _ => 15,
        }
    }

    /// The layer's share of the weight, in tenths.
    pub fn layer_tenths(&self) -> (r: u32)
        ensures
            r == layer_factor(self.layer as int),
    {
        match self.layer {
            0 => 10,
            1 => 20,
            2 => 22,
            3 => 22,
            4 => 23,
            _ => 30,
        }
    }

    /// The analytic weight of the key in thousandths: the product of the
    /// three shares.
    pub fn weight_thousandths(&self) -> (r: u32)
        ensures
            r == row_factor(self.row as int) * col_factor(self.col as int) * layer_factor(
                self.layer as int,
            ),
            1000 <= r <= 9000,
    {
        let row = self.row_tenths();
        let col = self.col_tenths();
        let layer = self.layer_tenths();
        assert(row * col <= 300 && row * col >= 100) by (nonlinear_arith)
            requires
                10 <= row <= 20,
                10 <= col <= 15,
        ;
        let both = row * col;
        assert(both * layer <= 9000 && both * layer >= 1000) by (nonlinear_arith)
            requires
                100 <= both <= 300,
                10 <= layer <= 30,
        ;
        both * layer
    }
}

} // verus!
