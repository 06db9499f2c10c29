//! Writing a layout as text.

use crate::cells::{cell_index, col_of, layer_of, row_of, COLS, NUM_LAYERS, ROWS};
use crate::layout::Layout;
use vstd::prelude::*;
use vstd::string::StringExecFns;

verus! {

/// The layer's heading in the formatted text.
pub open spec fn layer_label(layer: int) -> Seq<char> {
    if layer == 0 {
        "Layer 0 (無シフト)"@
    } else if layer == 1 {
        "Layer 1 (Aシフト)"@
    } else if layer == 2 {
        "Layer 2 (Bシフト)"@
    } else if layer == 3 {
        "Layer 3 (Cシフト)"@
    } else if layer == 4 {
        "Layer 4 (Dシフト)"@
    } else {
        "Unknown"@
    }
}

/// The first `cols` tokens of a row, each followed by a space.
pub open spec fn cells_text(grid: Seq<Seq<char>>, layer: int, row: int, cols: int) -> Seq<char>
    decreases cols,
{
    if cols <= 0 {
        Seq::empty()
    } else {
        cells_text(grid, layer, row, cols - 1) + grid[cell_index(layer, row, cols - 1)] + " "@
    }
}

/// The first `rows` rows of a layer, each indented by two spaces and ended
/// by a line break.
pub open spec fn rows_text(grid: Seq<Seq<char>>, layer: int, rows: int) -> Seq<char>
    decreases rows,
{
    if rows <= 0 {
        Seq::empty()
    } else {
        rows_text(grid, layer, rows - 1) + "  "@ + cells_text(grid, layer, rows - 1, 10) + "\n"@
    }
}

/// The first `layers` layers: for each its heading with a colon, its rows,
/// and an empty line.
pub open spec fn layers_text(grid: Seq<Seq<char>>, layers: int) -> Seq<char>
    decreases layers,
{
    if layers <= 0 {
        Seq::empty()
    } else {
        layers_text(grid, layers - 1) + layer_label(layers - 1) + ":\n"@ + rows_text(
            grid,
            layers - 1,
            3,
        ) + "\n"@
    }
}

impl Layout {
    /// Writes the layout as text: for each layer a heading, its three rows
    /// and an empty line.
    pub fn format(&self) -> (r: String)
        requires
            self.wf(),
        ensures
            r@ == layers_text(self@, 5),
    {
        let mut out = String::new();
        assert(out@ =~= layers_text(self@, 0));
        for layer in 0..NUM_LAYERS
            invariant
                self.wf(),
                out@ == layers_text(self@, layer as int),
        {
            let label = match layer {
                0 => "Layer 0 (無シフト)",
                1 => "Layer 1 (Aシフト)",
                2 => "Layer 2 (Bシフト)",
                3 => "Layer 3 (Cシフト)",
                4 => "Layer 4 (Dシフト)",
                _ => "Unknown",
            };
            let ghost head = out@ + layer_label(layer as int) + ":\n"@;
            out.append(label);
            out.append(":\n");
            assert(out@ =~= head + rows_text(self@, layer as int, 0));
            for row in 0..ROWS
                invariant
                    self.wf(),
                    0 <= layer < 5,
                    out@ == head + rows_text(self@, layer as int, row as int),
            {
                let ghost start = out@ + "  "@;
                out.append("  ");
                assert(out@ =~= start + cells_text(self@, layer as int, row as int, 0));
                for col in 0..COLS
                    invariant
                        self.wf(),
                        0 <= layer < 5,
                        0 <= row < 3,
                        out@ == start + cells_text(self@, layer as int, row as int, col as int),
                {
                    let ghost n = cell_index(layer as int, row as int, col as int);
                    let ghost so_far = out@;
                    assert(layer_of(n) == layer && row_of(n) == row && col_of(n) == col);
                    out.append(self.layers[layer][row][col].as_str());
                    out.append(" ");
                    assert(out@ =~= start + cells_text(
                        self@,
                        layer as int,
                        row as int,
                        col + 1,
                    )) by {
                        assert(out@ =~= so_far + self@[n] + " "@);
                    }
                }
                out.append("\n");
                assert(out@ =~= head + rows_text(self@, layer as int, row + 1));
            }
            out.append("\n");
            assert(out@ =~= layers_text(self@, layer + 1));
        }
        out
    }
}

} // verus!
