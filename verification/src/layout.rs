//! The layout grid and its constructors.

use crate::cells::{
    blank_at, cell_index, col_of, fixed_at, free_at, free_before, in_grid, is_blank_cell,
    is_fixed_cell, layer_of, lemma_cell_counts, lemma_free_before_monotonic,
    lemma_free_rank_step, row_of, COLS, FREE_COUNT, NUM_LAYERS, ROWS,
};
use crate::inventory::{
    curated_grid, default_inventory, token_code, CURATED, HIRAGANA_FREQ_DEFAULT,
};
use crate::shuffle::{shuffle_tokens, shuffled};
use crate::tokens::{
    assignable, blank_string, blank_token, graphemes_once, is_grapheme, lemma_rearranged,
    str_views, token_views,
};
use rand_chacha::ChaCha8Rng;
use vstd::prelude::*;

verus! {

/// The symbol that a fixed cell holds. Only meaningful on fixed cells.
pub open spec fn fixed_symbol(layer: int, row: int, col: int) -> Seq<char> {
    if layer == 0 && row == 1 {
        if col == 1 {
            seq!['◆']
        } else if col == 2 {
            seq!['★']
        } else if col == 7 {
            seq!['☆']
        } else {
            seq!['◎']
        }
    } else if layer == 0 {
        if col == 7 {
            seq!['、']
        } else {
            seq!['。']
        }
    } else if layer == 1 {
        if col == 7 {
            seq!['ー']
        } else {
            seq!['・']
        }
    } else {
        seq![';']
    }
}

/// The first 114 candidates, filled up with blank markers where there are
/// fewer.
pub open spec fn padded_candidates(candidates: Seq<Seq<char>>) -> Seq<Seq<char>> {
    Seq::new(
        114,
        |i: int|
            if i < candidates.len() {
                candidates[i]
            } else {
                blank_token()
            },
    )
}

/// The grid that holds each fixed cell's symbol, the blank marker in each
/// blank cell, and in the free cells the given tokens in scan order.
pub open spec fn placed_grid(tokens: Seq<Seq<char>>) -> Seq<Seq<char>> {
    Seq::new(
        150,
        |k: int|
            if fixed_at(k) {
                fixed_symbol(layer_of(k), row_of(k), col_of(k))
            } else if blank_at(k) {
                blank_token()
            } else {
                tokens[free_before(k as nat) as int]
            },
    )
}

/// Whether a grid keeps the placement rules: every fixed cell holds its
/// reserved symbol, every blank cell the blank marker, and no grapheme
/// stands in two free cells. Free cells may be unassigned.
pub open spec fn well_placed(grid: Seq<Seq<char>>) -> bool {
    &&& grid.len() == 150
    &&& forall|k: int|
        0 <= k < 150 && fixed_at(k) ==> #[trigger] grid[k] == fixed_symbol(
            layer_of(k),
            row_of(k),
            col_of(k),
        )
    &&& forall|k: int| 0 <= k < 150 && blank_at(k) ==> #[trigger] grid[k] == blank_token()
    &&& forall|i: int, j: int|
        0 <= i < j < 150 && free_at(i) && free_at(j) && is_grapheme(#[trigger] grid[i])
            ==> grid[i] != #[trigger] grid[j]
}

/// Whether a grid is a complete assignment: it keeps the placement rules
/// and every free cell holds a grapheme.
pub open spec fn fully_assigned(grid: Seq<Seq<char>>) -> bool {
    &&& well_placed(grid)
    &&& forall|k: int| 0 <= k < 150 && free_at(k) ==> is_grapheme(#[trigger] grid[k])
}

/// A 5 x 3 x 10 grid of grapheme tokens.
#[derive(Clone, Debug)]
pub struct Layout {
    /// The tokens, by layer, row and column.
    pub layers: Vec<Vec<Vec<String>>>,
}

impl View for Layout {
    type V = Seq<Seq<char>>;

    /// The 150 tokens in scan order.
    open spec fn view(&self) -> Seq<Seq<char>> {
        Seq::new(150, |k: int| self.cell(layer_of(k), row_of(k), col_of(k)))
    }
}

impl Default for Layout {
    /// The grid in which every cell holds the blank marker.
    fn default() -> (r: Layout)
        ensures
            r.wf(),
            forall|k: int| 0 <= k < 150 ==> #[trigger] r@[k] == blank_token(),
    {
        let mut layers: Vec<Vec<Vec<String>>> = Vec::new();
        for l in 0..NUM_LAYERS
            invariant
                layers@.len() == l,
                forall|a: int| 0 <= a < l ==> (#[trigger] layers@[a])@.len() == 3,
                forall|a: int, b: int|
                    0 <= a < l && 0 <= b < 3 ==> (#[trigger] layers@[a]@[b])@.len() == 10,
                forall|a: int, b: int, c: int|
                    0 <= a < l && 0 <= b < 3 && 0 <= c < 10 ==> (#[trigger] layers@[a]@[b]@[c])@
                        == blank_token(),
        {
            let mut rows: Vec<Vec<String>> = Vec::new();
            for r in 0..ROWS
                invariant
                    rows@.len() == r,
                    forall|b: int| 0 <= b < r ==> (#[trigger] rows@[b])@.len() == 10,
                    forall|b: int, c: int|
                        0 <= b < r && 0 <= c < 10 ==> (#[trigger] rows@[b]@[c])@ == blank_token(),
            {
                let mut cells: Vec<String> = Vec::new();
                for c in 0..COLS
                    invariant
                        cells@.len() == c,
                        forall|j: int| 0 <= j < c ==> (#[trigger] cells@[j])@ == blank_token(),
                {
                    cells.push(blank_string());
                }
                rows.push(cells);
            }
            layers.push(rows);
        }
        Layout { layers }
    }
}

impl Layout {
    /// The grid has five layers of three rows of ten cells.
    pub open spec fn wf(&self) -> bool {
        &&& self.layers@.len() == 5
        &&& forall|l: int| 0 <= l < 5 ==> (#[trigger] self.layers@[l])@.len() == 3
        &&& forall|l: int, r: int|
            0 <= l < 5 && 0 <= r < 3 ==> (#[trigger] self.layers@[l]@[r])@.len() == 10
    }

    /// The token at a cell.
    pub open spec fn cell(&self, layer: int, row: int, col: int) -> Seq<char> {
        self.layers@[layer]@[row]@[col]@
    }

    /// Whether the grid has five layers of three rows of ten cells.
    pub fn has_grid_shape(&self) -> (b: bool)
        ensures
            b == self.wf(),
    {
        if self.layers.len() != NUM_LAYERS {
            return false;
        }
        for layer in 0..NUM_LAYERS
            invariant
                self.layers@.len() == 5,
                forall|l: int| 0 <= l < layer ==> (#[trigger] self.layers@[l])@.len() == 3,
                forall|l: int, r: int|
                    0 <= l < layer && 0 <= r < 3 ==> (#[trigger] self.layers@[l]@[r])@.len() == 10,
        {
            if self.layers[layer].len() != ROWS {
                return false;
            }
            for row in 0..ROWS
                invariant
                    self.layers@.len() == 5,
                    0 <= layer < 5,
                    self.layers@[layer as int]@.len() == 3,
                    forall|r: int|
                        0 <= r < row ==> (#[trigger] self.layers@[layer as int]@[r])@.len() == 10,
            {
                if self.layers[layer][row].len() != COLS {
                    return false;
                }
            }
        }
        true
    }

    /// Whether the cell is disabled because its layer's shift trigger
    /// occupies the hand that would have to press it.
    pub fn is_blank_position(layer: usize, row: usize, col: usize) -> (b: bool)
        ensures
            b == is_blank_cell(layer as int, row as int, col as int),
    {
        match layer {
            1 => row == 0 && col >= 7 || row == 1 && col >= 8 || row == 2 && col == 9,
            2 => (row == 0 || row == 2) && (col <= 2 || col == 9) || row == 1 && col <= 1,
            3 => row == 0 && col >= 8 || (row == 1 || row == 2) && col == 9,
            4 => (row == 0 || row == 2) && (col <= 1 || col == 9) || row == 1 && col == 0,
            _ => false,
        }
    }

    /// Whether the cell is reserved for a shift trigger or a punctuation
    /// mark.
    pub fn is_fixed_position(layer: usize, row: usize, col: usize) -> (b: bool)
        ensures
            b == is_fixed_cell(layer as int, row as int, col as int),
    {
        if layer == 0 && row == 1 && (col == 1 || col == 2 || col == 7 || col == 8) {
            return true;
        }
        if layer == 0 && row == 2 && (col == 7 || col == 8) {
            return true;
        }
        if layer == 1 && row == 2 && (col == 7 || col == 8) {
            return true;
        }
        layer == 3 && row == 2 && col == 8
    }

    /// The reserved symbol of a fixed cell, and `None` for any other cell.
    pub fn fixed_symbol(layer: usize, row: usize, col: usize) -> (r: Option<&'static str>)
        ensures
            r is Some <==> is_fixed_cell(layer as int, row as int, col as int),
            r is Some ==> r->0@ == fixed_symbol(layer as int, row as int, col as int),
    {
        proof {
            reveal_strlit("◆");
            reveal_strlit("★");
            reveal_strlit("☆");
            reveal_strlit("◎");
            reveal_strlit("、");
            reveal_strlit("。");
            reveal_strlit("ー");
            reveal_strlit("・");
            reveal_strlit(";");
        }
        let r = if layer == 0 && row == 1 {
            match col {
                1 => Some("◆"),
                2 => Some("★"),
                7 => Some("☆"),
                8 => Some("◎"),
                _ => None,
            }
        } else if layer == 0 && row == 2 {
            match col {
                7 => Some("、"),
                8 => Some("。"),
                _ => None,
            }
        } else if layer == 1 && row == 2 {
            match col {
                7 => Some("ー"),
                8 => Some("・"),
                _ => None,
            }
        } else if layer == 3 && row == 2 && col == 8 {
            Some(";")
        } else {
            None
        };
        assert(r is Some ==> r->0@ =~= fixed_symbol(layer as int, row as int, col as int));
        r
    }

    /// Writes `token` into one cell and leaves the others as they are.
    pub(crate) fn put(&mut self, layer: usize, row: usize, col: usize, token: String)
        requires
            old(self).wf(),
            in_grid(layer as int, row as int, col as int),
        ensures
            final(self).wf(),
            final(self)@ == old(self)@.update(
                cell_index(layer as int, row as int, col as int),
                token@,
            ),
    {
        self.layers[layer][row][col] = token;
        assert(final(self)@ =~= old(self)@.update(
            cell_index(layer as int, row as int, col as int),
            token@,
        ));
    }

    /// Fills the grid from a list of exactly 114 tokens.
    fn fill(tokens: &Vec<String>) -> (r: Layout)
        requires
            tokens@.len() == 114,
        ensures
            r.wf(),
            r@ == placed_grid(token_views(tokens@)),
    {
        let mut layout = Layout::default();
        let mut used: usize = 0;
        let ghost target = placed_grid(token_views(tokens@));
        for layer in 0..NUM_LAYERS
            invariant
                layout.wf(),
                tokens@.len() == 114,
                target == placed_grid(token_views(tokens@)),
                used == free_before((layer * 30) as nat),
                forall|k: int| 0 <= k < layer * 30 ==> #[trigger] layout@[k] == target[k],
                forall|k: int| layer * 30 <= k < 150 ==> #[trigger] layout@[k] == blank_token(),
        {
            for row in 0..ROWS
                invariant
                    layout.wf(),
                    tokens@.len() == 114,
                    target == placed_grid(token_views(tokens@)),
                    0 <= layer < 5,
                    used == free_before((layer * 30 + row * 10) as nat),
                    forall|k: int|
                        0 <= k < layer * 30 + row * 10 ==> #[trigger] layout@[k] == target[k],
                    forall|k: int|
                        layer * 30 + row * 10 <= k < 150 ==> #[trigger] layout@[k]
                            == blank_token(),
            {
                for col in 0..COLS
                    invariant
                        layout.wf(),
                        tokens@.len() == 114,
                        target == placed_grid(token_views(tokens@)),
                        0 <= layer < 5,
                        0 <= row < 3,
                        used == free_before((layer * 30 + row * 10 + col) as nat),
                        forall|k: int|
                            0 <= k < layer * 30 + row * 10 + col ==> #[trigger] layout@[k]
                                == target[k],
                        forall|k: int|
                            layer * 30 + row * 10 + col <= k < 150 ==> #[trigger] layout@[k]
                                == blank_token(),
                {
                    let ghost k = cell_index(layer as int, row as int, col as int);
                    let ghost before = layout@;
                    proof {
                        lemma_free_rank_step(k);
                        assert(layer_of(k) == layer && row_of(k) == row && col_of(k) == col);
                    }
                    match Self::fixed_symbol(layer, row, col) {
                        Some(symbol) => {
                            layout.put(layer, row, col, symbol.to_string());
                            assert(layout@ == before.update(k, target[k]));
                        },
                        None => {
                            if !Self::is_blank_position(layer, row, col) {
                                let token = tokens[used].clone();
                                assert(token@ == token_views(tokens@)[used as int]);
                                layout.put(layer, row, col, token);
                                used += 1;
                                assert(layout@ == before.update(k, target[k]));
                            } else {
                                assert(layout@ == before.update(k, target[k])) by {
                                    assert(before =~= before.update(k, target[k]));
                                }
                            }
                        },
                    }
                }
            }
        }
        assert(layout@ =~= target);
        layout
    }

    /// Fills the grid from a list of tokens, one per free cell in scan
    /// order. The list has to hold exactly as many tokens as there are free
    /// cells; with any other length nothing is built.
    pub fn place_tokens(tokens: &Vec<String>) -> (r: Option<Layout>)
        ensures
            r is Some <==> tokens@.len() == 114,
            r is Some ==> r->0.wf() && r->0@ == placed_grid(token_views(tokens@)),
    {
        if tokens.len() == FREE_COUNT {
            Some(Self::fill(tokens))
        } else {
            None
        }
    }

    /// The candidate list cut or padded to one token per free cell.
    fn prepare(candidates: &[&str]) -> (r: Vec<String>)
        ensures
            r@.len() == 114,
            token_views(r@) == padded_candidates(str_views(candidates@)),
    {
        let mut tokens: Vec<String> = Vec::new();
        for i in 0..FREE_COUNT
            invariant
                tokens@.len() == i,
                forall|j: int|
                    0 <= j < i ==> (#[trigger] tokens@[j])@ == padded_candidates(
                        str_views(candidates@),
                    )[j],
        {
            if i < candidates.len() {
                tokens.push(candidates[i].to_string());
            } else {
                tokens.push(blank_string());
            }
        }
        assert(token_views(tokens@) =~= padded_candidates(str_views(candidates@)));
        tokens
    }

    /// Builds a layout by shuffling the candidates over the free cells.
    ///
    /// The candidates are cut to the first 114, or padded with blank markers
    /// up to 114, then shuffled with `rng` and written into the free cells
    /// in scan order. The grid is a function of the generator's state and of
    /// those 114 tokens alone.
    pub fn random_with_chars(rng: &mut ChaCha8Rng, hiragana_chars: &[&str]) -> (r: Layout)
        ensures
            r.wf(),
            r@ == placed_grid(
                shuffled(*old(rng), padded_candidates(str_views(hiragana_chars@))),
            ),
            free_tokens(r@).len() == 114,
            free_tokens(r@) == shuffled(
                *old(rng),
                padded_candidates(str_views(hiragana_chars@)),
            ),
            free_tokens(r@).to_multiset() == padded_candidates(
                str_views(hiragana_chars@),
            ).to_multiset(),
            graphemes_once(padded_candidates(str_views(hiragana_chars@))) ==> well_placed(r@),
            assignable(padded_candidates(str_views(hiragana_chars@))) ==> fully_assigned(r@),
    {
        let mut tokens = Self::prepare(hiragana_chars);
        let ghost padded = token_views(tokens@);
        shuffle_tokens(rng, &mut tokens);
        proof {
            lemma_placed_grid_cells(token_views(tokens@));
            lemma_rearranged(padded, token_views(tokens@));
            lemma_placed_well(token_views(tokens@));
        }
        Self::fill(&tokens)
    }

    /// Builds a layout by shuffling the default inventory over the free
    /// cells.
    pub fn random(rng: &mut ChaCha8Rng) -> (r: Layout)
        ensures
            r.wf(),
            r@ == placed_grid(shuffled(*old(rng), default_inventory())),
            free_tokens(r@).to_multiset() == default_inventory().to_multiset(),
            fully_assigned(r@),
    {
        proof {
            lemma_default_inventory();
        }
        let chars = &HIRAGANA_FREQ_DEFAULT;
        assert(padded_candidates(str_views(chars@)) =~= default_inventory());
        Self::random_with_chars(rng, chars)
    }

    /// The curated seed layout: every fixed cell holds its symbol and every
    /// free cell a grapheme chosen by hand, each grapheme once.
    pub fn improved_custom() -> (r: Layout)
        ensures
            r.wf(),
            r@ == curated_grid(),
            fully_assigned(r@),
    {
        proof {
            lemma_curated_grid();
        }
        let mut layout = Layout::default();
        for layer in 0..NUM_LAYERS
            invariant
                layout.wf(),
                forall|k: int| 0 <= k < layer * 30 ==> #[trigger] layout@[k] == curated_grid()[k],
        {
            for row in 0..ROWS
                invariant
                    layout.wf(),
                    0 <= layer < 5,
                    forall|k: int|
                        0 <= k < layer * 30 + row * 10 ==> #[trigger] layout@[k]
                            == curated_grid()[k],
            {
                for col in 0..COLS
                    invariant
                        layout.wf(),
                        0 <= layer < 5,
                        0 <= row < 3,
                        forall|k: int|
                            0 <= k < layer * 30 + row * 10 + col ==> #[trigger] layout@[k]
                                == curated_grid()[k],
                {
                    let ghost k = cell_index(layer as int, row as int, col as int);
                    assert(layer_of(k) == layer && row_of(k) == row && col_of(k) == col);
                    layout.put(layer, row, col, CURATED[layer][row][col].to_string());
                }
            }
        }
        assert(layout@ =~= curated_grid());
        layout
    }
}

/// The tokens of the free cells among the first `k` cells, in scan order.
pub open spec fn free_tokens_before(grid: Seq<Seq<char>>, k: nat) -> Seq<Seq<char>>
    decreases k,
{
    if k == 0 {
        Seq::empty()
    } else if free_at(k - 1) {
        free_tokens_before(grid, (k - 1) as nat).push(grid[k - 1])
    } else {
        free_tokens_before(grid, (k - 1) as nat)
    }
}

/// The tokens of the free cells of a grid, in scan order.
pub open spec fn free_tokens(grid: Seq<Seq<char>>) -> Seq<Seq<char>> {
    free_tokens_before(grid, 150)
}

/// Up to any cell, the free cells of a filled grid hold the tokens that
/// were handed in, in their order.
pub proof fn lemma_free_tokens_of_prefix(tokens: Seq<Seq<char>>, k: nat)
    requires
        tokens.len() == 114,
        k <= 150,
    ensures
        free_before(k) <= 114,
        free_tokens_before(placed_grid(tokens), k) == tokens.take(free_before(k) as int),
    decreases k,
{
    if k == 0 {
        assert(tokens.take(0) =~= Seq::<Seq<char>>::empty());
    } else {
        lemma_free_tokens_of_prefix(tokens, (k - 1) as nat);
        lemma_free_rank_step(k - 1);
        let rank = free_before((k - 1) as nat) as int;
        if free_at(k - 1) {
            assert(tokens.take(rank).push(tokens[rank]) =~= tokens.take(rank + 1));
        }
    }
}

/// Filling a grid writes each of the 114 tokens into a free cell, one per
/// cell and in scan order, puts the reserved symbol into each fixed cell and
/// leaves each blank cell blank.
pub proof fn lemma_placed_grid_cells(tokens: Seq<Seq<char>>)
    requires
        tokens.len() == 114,
    ensures
        placed_grid(tokens).len() == 150,
        free_tokens(placed_grid(tokens)) == tokens,
        forall|k: int|
            0 <= k < 150 && fixed_at(k) ==> #[trigger] placed_grid(tokens)[k] == fixed_symbol(
                layer_of(k),
                row_of(k),
                col_of(k),
            ),
        forall|k: int|
            0 <= k < 150 && blank_at(k) ==> #[trigger] placed_grid(tokens)[k] == blank_token(),
{
    lemma_free_tokens_of_prefix(tokens, 150);
    lemma_cell_counts();
    assert(tokens.take(114) =~= tokens);
    assert forall|k: int| 0 <= k < 150 && blank_at(k) implies #[trigger] placed_grid(tokens)[k]
        == blank_token() by {
        lemma_free_rank_step(k);
    }
}

/// Padding always gives one token per free cell: the candidates as far as
/// they reach, then blank markers.
pub proof fn lemma_padding(candidates: Seq<Seq<char>>)
    ensures
        padded_candidates(candidates).len() == 114,
        forall|i: int|
            0 <= i < 114 && i < candidates.len() ==> #[trigger] padded_candidates(candidates)[i]
                == candidates[i],
        forall|i: int|
            candidates.len() <= i < 114 ==> #[trigger] padded_candidates(candidates)[i]
                == blank_token(),
{
}

/// Of a list of more than 114 candidates only the first 114 count: two
/// lists that agree on those give the same padded list, and so the same
/// layout.
pub proof fn lemma_only_first_candidates_count(a: Seq<Seq<char>>, b: Seq<Seq<char>>)
    requires
        a.len() >= 114,
        b.len() >= 114,
        a.take(114) == b.take(114),
    ensures
        padded_candidates(a) == padded_candidates(b),
        padded_candidates(a) == a.take(114),
{
    assert forall|i: int| 0 <= i < 114 implies a[i] == b[i] by {
        assert(a.take(114)[i] == b.take(114)[i]);
    }
    assert(padded_candidates(a) =~= padded_candidates(b));
    assert(padded_candidates(a) =~= a.take(114));
}

/// Construction is repeatable: from the same generator state and the same
/// candidates the same grid is built.
pub proof fn lemma_same_state_same_grid(
    rng_a: ChaCha8Rng,
    rng_b: ChaCha8Rng,
    candidates_a: Seq<Seq<char>>,
    candidates_b: Seq<Seq<char>>,
)
    requires
        rng_a == rng_b,
        candidates_a == candidates_b,
    ensures
        placed_grid(shuffled(rng_a, padded_candidates(candidates_a))) == placed_grid(
            shuffled(rng_b, padded_candidates(candidates_b)),
        ),
{
}

/// A grid filled from 114 tokens among which no grapheme occurs twice
/// keeps the placement rules, and is fully assigned if all of them are
/// graphemes.
pub proof fn lemma_placed_well(tokens: Seq<Seq<char>>)
    requires
        tokens.len() == 114,
    ensures
        graphemes_once(tokens) ==> well_placed(placed_grid(tokens)),
        assignable(tokens) ==> fully_assigned(placed_grid(tokens)),
{
    let grid = placed_grid(tokens);
    lemma_placed_grid_cells(tokens);
    assert forall|k: int| 0 <= k < 150 && free_at(k) implies #[trigger] grid[k] == tokens[free_before(
        k as nat,
    ) as int] && free_before(k as nat) < 114 by {
        lemma_free_rank_step(k);
    }
    if graphemes_once(tokens) {
        assert forall|i: int, j: int|
            0 <= i < j < 150 && free_at(i) && free_at(j) && is_grapheme(
                #[trigger] grid[i],
            ) implies grid[i] != #[trigger] grid[j] by {
            lemma_free_rank_step(i);
            lemma_free_rank_step(j);
            lemma_free_before_monotonic((i + 1) as nat, j as nat);
            let a = free_before(i as nat) as int;
            let b = free_before(j as nat) as int;
            assert(a < b);
            assert(grid[i] == tokens[a] && grid[j] == tokens[b]);
        }
    }
}

/// The curated grid is fully assigned.
#[verifier::rlimit(100)]
#[verifier::spinoff_prover]
pub proof fn lemma_curated_grid()
    ensures
        fully_assigned(curated_grid()),
{
    reveal_strlit("ぐ");
    reveal_strlit("も");
    reveal_strlit("ら");
    reveal_strlit("れ");
    reveal_strlit("ちょ");
    reveal_strlit("ゆ");
    reveal_strlit("だ");
    reveal_strlit("り");
    reveal_strlit("を");
    reveal_strlit("ぜ");
    reveal_strlit("し");
    reveal_strlit("◆");
    reveal_strlit("★");
    reveal_strlit("う");
    reveal_strlit("ち");
    reveal_strlit("け");
    reveal_strlit("い");
    reveal_strlit("☆");
    reveal_strlit("◎");
    reveal_strlit("ん");
    reveal_strlit("ざ");
    reveal_strlit("そ");
    reveal_strlit("せ");
    reveal_strlit("お");
    reveal_strlit("べ");
    reveal_strlit("ひ");
    reveal_strlit("つ");
    reveal_strlit("、");
    reveal_strlit("。");
    reveal_strlit("へ");
    reveal_strlit("ぎゅ");
    reveal_strlit("ろ");
    reveal_strlit("ぶ");
    reveal_strlit("ぼ");
    reveal_strlit("びゅ");
    reveal_strlit("にゃ");
    reveal_strlit("ぷ");
    reveal_strlit("　");
    reveal_strlit("あ");
    reveal_strlit("な");
    reveal_strlit("の");
    reveal_strlit("と");
    reveal_strlit("ぱ");
    reveal_strlit("ぎょ");
    reveal_strlit("く");
    reveal_strlit("え");
    reveal_strlit("みゅ");
    reveal_strlit("きゃ");
    reveal_strlit("きゅ");
    reveal_strlit("や");
    reveal_strlit("にょ");
    reveal_strlit("りゃ");
    reveal_strlit("しょ");
    reveal_strlit("ー");
    reveal_strlit("・");
    reveal_strlit("じゅ");
    reveal_strlit("ぢ");
    reveal_strlit("みゃ");
    reveal_strlit("りょ");
    reveal_strlit("ば");
    reveal_strlit("ね");
    reveal_strlit("わ");
    reveal_strlit("た");
    reveal_strlit("ぞ");
    reveal_strlit("ぃ");
    reveal_strlit("て");
    reveal_strlit("か");
    reveal_strlit("に");
    reveal_strlit("さ");
    reveal_strlit("ほ");
    reveal_strlit("ぅ");
    reveal_strlit("ぉ");
    reveal_strlit("ふ");
    reveal_strlit("ちゅ");
    reveal_strlit("びょ");
    reveal_strlit("びゃ");
    reveal_strlit("じょ");
    reveal_strlit("び");
    reveal_strlit("にゅ");
    reveal_strlit("みょ");
    reveal_strlit("ゃ");
    reveal_strlit("ひょ");
    reveal_strlit("ぎ");
    reveal_strlit("ど");
    reveal_strlit("ま");
    reveal_strlit("る");
    reveal_strlit("っ");
    reveal_strlit("づ");
    reveal_strlit("りゅ");
    reveal_strlit("す");
    reveal_strlit("き");
    reveal_strlit("め");
    reveal_strlit("ひゅ");
    reveal_strlit("ぎゃ");
    reveal_strlit("ちゃ");
    reveal_strlit("しゅ");
    reveal_strlit("ぴゃ");
    reveal_strlit("ヴ");
    reveal_strlit("きょ");
    reveal_strlit("ぬ");
    reveal_strlit(";");
    reveal_strlit("ず");
    reveal_strlit("ぽ");
    reveal_strlit("ひゃ");
    reveal_strlit("ょ");
    reveal_strlit("ぇ");
    reveal_strlit("ご");
    reveal_strlit("しゃ");
    reveal_strlit("み");
    reveal_strlit("こ");
    reveal_strlit("が");
    reveal_strlit("じゃ");
    reveal_strlit("ぺ");
    reveal_strlit("で");
    reveal_strlit("は");
    reveal_strlit("じ");
    reveal_strlit("よ");
    reveal_strlit("ぴ");
    reveal_strlit("げ");
    reveal_strlit("ぢゃ");
    reveal_strlit("ぴゅ");
    reveal_strlit("む");
    reveal_strlit("ぁ");
    reveal_strlit("ぴょ");
    let grid = curated_grid();
    assert forall|k: int| 0 <= k < 150 && fixed_at(k) implies #[trigger] grid[k] == fixed_symbol(
        layer_of(k),
        row_of(k),
        col_of(k),
    ) by {
        assert(grid[k] =~= fixed_symbol(layer_of(k), row_of(k), col_of(k)));
    }
    assert forall|k: int| 0 <= k < 150 && blank_at(k) implies #[trigger] grid[k]
        == blank_token() by {
        assert(grid[k] =~= blank_token());
    }
    assert forall|k: int| 0 <= k < 150 && free_at(k) implies is_grapheme(#[trigger] grid[k]) by {
        assert(grid[k][0] != '　');
    }
    assert forall|i: int, j: int|
        0 <= i < j < 150 && free_at(i) && free_at(j) && is_grapheme(
            #[trigger] grid[i],
        ) implies grid[i] != #[trigger] grid[j] by {
        assert(token_code(grid[i]) != token_code(grid[j]));
    }
}

/// The default inventory holds 114 different graphemes, none of them empty
/// or blank.
#[verifier::rlimit(100)]
#[verifier::spinoff_prover]
pub proof fn lemma_default_inventory()
    ensures
        default_inventory().len() == 114,
        assignable(default_inventory()),
{
    reveal_strlit("い");
    reveal_strlit("う");
    reveal_strlit("ん");
    reveal_strlit("し");
    reveal_strlit("か");
    reveal_strlit("の");
    reveal_strlit("と");
    reveal_strlit("た");
    reveal_strlit("て");
    reveal_strlit("く");
    reveal_strlit("な");
    reveal_strlit("に");
    reveal_strlit("き");
    reveal_strlit("は");
    reveal_strlit("こ");
    reveal_strlit("る");
    reveal_strlit("が");
    reveal_strlit("で");
    reveal_strlit("っ");
    reveal_strlit("す");
    reveal_strlit("ま");
    reveal_strlit("じ");
    reveal_strlit("り");
    reveal_strlit("も");
    reveal_strlit("つ");
    reveal_strlit("お");
    reveal_strlit("ら");
    reveal_strlit("を");
    reveal_strlit("さ");
    reveal_strlit("あ");
    reveal_strlit("れ");
    reveal_strlit("だ");
    reveal_strlit("ち");
    reveal_strlit("せ");
    reveal_strlit("け");
    reveal_strlit("よ");
    reveal_strlit("ど");
    reveal_strlit("そ");
    reveal_strlit("え");
    reveal_strlit("わ");
    reveal_strlit("み");
    reveal_strlit("め");
    reveal_strlit("ひ");
    reveal_strlit("ば");
    reveal_strlit("や");
    reveal_strlit("ろ");
    reveal_strlit("ほ");
    reveal_strlit("ふ");
    reveal_strlit("ぶ");
    reveal_strlit("ね");
    reveal_strlit("ご");
    reveal_strlit("ぎ");
    reveal_strlit("げ");
    reveal_strlit("む");
    reveal_strlit("ず");
    reveal_strlit("び");
    reveal_strlit("ざ");
    reveal_strlit("ぐ");
    reveal_strlit("ぜ");
    reveal_strlit("へ");
    reveal_strlit("べ");
    reveal_strlit("ゆ");
    reveal_strlit("ぼ");
    reveal_strlit("ぷ");
    reveal_strlit("ぞ");
    reveal_strlit("ぱ");
    reveal_strlit("ぽ");
    reveal_strlit("づ");
    reveal_strlit("ぴ");
    reveal_strlit("ぬ");
    reveal_strlit("ぺ");
    reveal_strlit("ヴ");
    reveal_strlit("ぢ");
    reveal_strlit("ぁ");
    reveal_strlit("ぃ");
    reveal_strlit("ぅ");
    reveal_strlit("ぇ");
    reveal_strlit("ぉ");
    reveal_strlit("ゃ");
    reveal_strlit("ょ");
    reveal_strlit("しょ");
    reveal_strlit("じょ");
    reveal_strlit("しゅ");
    reveal_strlit("きょ");
    reveal_strlit("しゃ");
    reveal_strlit("ちょ");
    reveal_strlit("じゅ");
    reveal_strlit("りょ");
    reveal_strlit("きゅ");
    reveal_strlit("ちゅ");
    reveal_strlit("ぎょ");
    reveal_strlit("にゅ");
    reveal_strlit("ひょ");
    reveal_strlit("じゃ");
    reveal_strlit("ちゃ");
    reveal_strlit("りゅ");
    reveal_strlit("きゃ");
    reveal_strlit("びょ");
    reveal_strlit("りゃ");
    reveal_strlit("ぎゃ");
    reveal_strlit("ぴょ");
    reveal_strlit("ぴゅ");
    reveal_strlit("びゅ");
    reveal_strlit("みょ");
    reveal_strlit("ひゃ");
    reveal_strlit("みゅ");
    reveal_strlit("にょ");
    reveal_strlit("みゃ");
    reveal_strlit("にゃ");
    reveal_strlit("ひゅ");
    reveal_strlit("びゃ");
    reveal_strlit("ぴゃ");
    reveal_strlit("ぎゅ");
    reveal_strlit("ぢゃ");
    let list = default_inventory();
    assert forall|i: int| 0 <= i < list.len() implies is_grapheme(#[trigger] list[i]) by {
        assert(list[i][0] != '　');
    }
    assert forall|i: int, j: int|
        0 <= i < j < list.len() && is_grapheme(#[trigger] list[i]) implies list[i]
        != #[trigger] list[j] by {
        assert(token_code(list[i]) != token_code(list[j]));
    }
}

} // verus!
