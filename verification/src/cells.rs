//! The geometry of the key grid and the three-way classification of its cells.
//!
//! Every cell of the grid is reserved (fixed), disabled (blank) or assignable
//! (free). The two predicates [`is_fixed_cell`] and [`is_blank_cell`] are the
//! only place where the rule table is written down; everything else in the
//! crate is stated in terms of them.

use vstd::prelude::*;

verus! {

/// Rows per layer.
pub const ROWS: usize = 3;

/// Columns per row.
pub const COLS: usize = 10;

/// Layers: the unshifted one and four shifted ones.
pub const NUM_LAYERS: usize = 5;

/// Keys on one layer.
pub const KEYS_PER_LAYER: usize = ROWS * COLS;

/// Cells of the whole grid.
pub const NUM_CELLS: usize = KEYS_PER_LAYER * NUM_LAYERS;

/// Cells that always hold a reserved symbol.
pub const FIXED_COUNT: usize = 9;

/// Cells that cannot be reached together with their layer's shift key.
pub const SHIFT_BLANK_COUNT: usize = 27;

/// Cells that can hold a grapheme.
pub const FREE_COUNT: usize = NUM_CELLS - FIXED_COUNT - SHIFT_BLANK_COUNT;

/// Whether `(layer, row, col)` names a cell of the grid.
pub open spec fn in_grid(layer: int, row: int, col: int) -> bool {
    0 <= layer < 5 && 0 <= row < 3 && 0 <= col < 10
}

/// The reserved cells: the four shift triggers and two punctuation marks of
/// the unshifted layer, two marks on layer 1 and one on layer 3.
pub open spec fn is_fixed_cell(layer: int, row: int, col: int) -> bool {
    ||| layer == 0 && row == 1 && (col == 1 || col == 2 || col == 7 || col == 8)
    ||| layer == 0 && row == 2 && (col == 7 || col == 8)
    ||| layer == 1 && row == 2 && (col == 7 || col == 8)
    ||| layer == 3 && row == 2 && col == 8
}

/// The disabled cells: those that the hand holding the layer's shift trigger
/// would have to press.
pub open spec fn is_blank_cell(layer: int, row: int, col: int) -> bool {
    if layer == 1 {
        row == 0 && col >= 7 || row == 1 && col >= 8 || row == 2 && col == 9
    } else if layer == 2 {
        (row == 0 || row == 2) && (col <= 2 || col == 9) || row == 1 && col <= 1
    } else if layer == 3 {
        row == 0 && col >= 8 || (row == 1 || row == 2) && col == 9
    } else if layer == 4 {
        (row == 0 || row == 2) && (col <= 1 || col == 9) || row == 1 && col == 0
    } else {
        false
    }
}

/// The assignable cells: those of the grid that are neither fixed nor blank.
pub open spec fn is_free_cell(layer: int, row: int, col: int) -> bool {
    in_grid(layer, row, col) && !is_fixed_cell(layer, row, col) && !is_blank_cell(layer, row, col)
}

/// The place of a cell in the scan order: layer by layer, row by row, column
/// by column.
pub open spec fn cell_index(layer: int, row: int, col: int) -> int {
    layer * 30 + row * 10 + col
}

/// The layer of the `k`-th cell in scan order.
pub open spec fn layer_of(k: int) -> int {
    k / 30
}

/// The row of the `k`-th cell in scan order.
pub open spec fn row_of(k: int) -> int {
    (k % 30) / 10
}

/// The column of the `k`-th cell in scan order.
pub open spec fn col_of(k: int) -> int {
    k % 10
}

/// Whether the `k`-th cell in scan order is fixed.
pub open spec fn fixed_at(k: int) -> bool {
    is_fixed_cell(layer_of(k), row_of(k), col_of(k))
}

/// Whether the `k`-th cell in scan order is blank.
pub open spec fn blank_at(k: int) -> bool {
    is_blank_cell(layer_of(k), row_of(k), col_of(k))
}

/// Whether the `k`-th cell in scan order is free.
pub open spec fn free_at(k: int) -> bool {
    is_free_cell(layer_of(k), row_of(k), col_of(k))
}

/// How many of the first `k` cells in scan order are fixed.
pub open spec fn fixed_before(k: nat) -> nat
    decreases k,
{
    if k == 0 {
        0
    } else {
        fixed_before((k - 1) as nat) + if fixed_at(k - 1) { 1nat } else { 0nat }
    }
}

/// How many of the first `k` cells in scan order are blank.
pub open spec fn blank_before(k: nat) -> nat
    decreases k,
{
    if k == 0 {
        0
    } else {
        blank_before((k - 1) as nat) + if blank_at(k - 1) { 1nat } else { 0nat }
    }
}

/// How many of the first `k` cells in scan order are free. For a free cell
/// this is its rank among the free cells.
pub open spec fn free_before(k: nat) -> nat
    decreases k,
{
    if k == 0 {
        0
    } else {
        free_before((k - 1) as nat) + if free_at(k - 1) { 1nat } else { 0nat }
    }
}

/// Every index below 150 names a cell of the grid.
pub proof fn lemma_index_in_grid(k: int)
    requires
        0 <= k < 150,
    ensures
        in_grid(layer_of(k), row_of(k), col_of(k)),
        cell_index(layer_of(k), row_of(k), col_of(k)) == k,
{
}

/// Each cell of the grid is exactly one of fixed, blank and free.
pub proof fn lemma_classification_exclusive(layer: int, row: int, col: int)
    requires
        in_grid(layer, row, col),
    ensures
        is_fixed_cell(layer, row, col) || is_blank_cell(layer, row, col) || is_free_cell(
            layer,
            row,
            col,
        ),
        !(is_fixed_cell(layer, row, col) && is_blank_cell(layer, row, col)),
        !(is_fixed_cell(layer, row, col) && is_free_cell(layer, row, col)),
        !(is_blank_cell(layer, row, col) && is_free_cell(layer, row, col)),
{
}

/// Of any prefix of the scan order, the three counts add up to its length.
pub proof fn lemma_counts_add_up(k: nat)
    requires
        k <= 150,
    ensures
        fixed_before(k) + blank_before(k) + free_before(k) == k,
    decreases k,
{
    if k > 0 {
        lemma_counts_add_up((k - 1) as nat);
        lemma_index_in_grid(k - 1);
    }
}

/// The counts never decrease along the scan order.
pub proof fn lemma_free_before_monotonic(i: nat, j: nat)
    requires
        i <= j,
    ensures
        free_before(i) <= free_before(j),
        free_before(j) - free_before(i) <= j - i,
    decreases j,
{
    if i < j {
        lemma_free_before_monotonic(i, (j - 1) as nat);
    }
}

proof fn lemma_fixed_rows()
    ensures
        fixed_before(10) == 0,
        fixed_before(20) == 4,
        fixed_before(30) == 6,
        fixed_before(40) == 6,
        fixed_before(50) == 6,
        fixed_before(60) == 8,
        fixed_before(70) == 8,
        fixed_before(80) == 8,
        fixed_before(90) == 8,
        fixed_before(100) == 8,
        fixed_before(110) == 8,
        fixed_before(120) == 9,
        fixed_before(130) == 9,
        fixed_before(140) == 9,
        fixed_before(150) == 9,
{
    reveal_with_fuel(fixed_before, 11);
    assert(fixed_before(10) == 0);
    assert(fixed_before(20) == 4);
    assert(fixed_before(30) == 6);
    assert(fixed_before(40) == 6);
    assert(fixed_before(50) == 6);
    assert(fixed_before(60) == 8);
    assert(fixed_before(70) == 8);
    assert(fixed_before(80) == 8);
    assert(fixed_before(90) == 8);
    assert(fixed_before(100) == 8);
    assert(fixed_before(110) == 8);
    assert(fixed_before(120) == 9);
    assert(fixed_before(130) == 9);
    assert(fixed_before(140) == 9);
}

proof fn lemma_blank_rows()
    ensures
        blank_before(10) == 0,
        blank_before(20) == 0,
        blank_before(30) == 0,
        blank_before(40) == 3,
        blank_before(50) == 5,
        blank_before(60) == 6,
        blank_before(70) == 10,
        blank_before(80) == 12,
        blank_before(90) == 16,
        blank_before(100) == 18,
        blank_before(110) == 19,
        blank_before(120) == 20,
        blank_before(130) == 23,
        blank_before(140) == 24,
        blank_before(150) == 27,
{
    reveal_with_fuel(blank_before, 11);
    assert(blank_before(10) == 0);
    assert(blank_before(20) == 0);
    assert(blank_before(30) == 0);
    assert(blank_before(40) == 3);
    assert(blank_before(50) == 5);
    assert(blank_before(60) == 6);
    assert(blank_before(70) == 10);
    assert(blank_before(80) == 12);
    assert(blank_before(90) == 16);
    assert(blank_before(100) == 18);
    assert(blank_before(110) == 19);
    assert(blank_before(120) == 20);
    assert(blank_before(130) == 23);
    assert(blank_before(140) == 24);
}

/// Over the whole grid there are 9 fixed, 27 blank and 114 free cells, as
/// the constants say.
pub proof fn lemma_cell_counts()
    ensures
        fixed_before(150) == 9,
        blank_before(150) == 27,
        free_before(150) == 114,
        NUM_CELLS == 150,
        fixed_before(NUM_CELLS as nat) == FIXED_COUNT,
        blank_before(NUM_CELLS as nat) == SHIFT_BLANK_COUNT,
        free_before(NUM_CELLS as nat) == FREE_COUNT,
{
    lemma_fixed_rows();
    lemma_blank_rows();
    lemma_counts_add_up(150);
}

/// Along the scan order the rank grows by one at each free cell, and a free
/// cell's rank is below 114.
pub proof fn lemma_free_rank_step(k: int)
    requires
        0 <= k < 150,
    ensures
        free_before((k + 1) as nat) == free_before(k as nat) + if free_at(k) {
            1nat
        } else {
            0nat
        },
        free_at(k) ==> free_before(k as nat) < 114,
        free_at(k) <==> !fixed_at(k) && !blank_at(k),
{
    reveal_with_fuel(free_before, 2);
    lemma_cell_counts();
    lemma_free_before_monotonic((k + 1) as nat, 150);
}

} // verus!
