//! Checking a layout for graphemes that are placed twice, left out or
//! unexpected.

use crate::cells::{cell_index, col_of, free_at, in_grid, layer_of, row_of, COLS, NUM_LAYERS, ROWS};
use crate::inventory::curated_grid;
use crate::layout::{lemma_curated_grid, well_placed, Layout};
use crate::tokens::{
    difference, distinct, is_blank_marker, is_grapheme, position_of, str_views, token_views,
};
use crate::text::{decimal, decimal_string};
use vstd::prelude::*;
use vstd::string::StringExecFns;

verus! {

/// Whether the `k`-th cell of the grid is a free cell that holds a grapheme:
/// neither the blank marker nor an empty token.
pub open spec fn placed_at(grid: Seq<Seq<char>>, k: int) -> bool {
    0 <= k < 150 && free_at(k) && is_grapheme(grid[k])
}

/// Whether `token` is placed at the `k`-th cell of the grid.
pub open spec fn holds(grid: Seq<Seq<char>>, token: Seq<char>, k: int) -> bool {
    placed_at(grid, k) && grid[k] == token
}

/// The graphemes that are placed somewhere in the grid.
pub open spec fn found_tokens(grid: Seq<Seq<char>>) -> Set<Seq<char>> {
    Set::new(|t: Seq<char>| exists|k: int| holds(grid, t, k))
}

/// Whether `token` is placed at two different cells.
pub open spec fn placed_twice(grid: Seq<Seq<char>>, token: Seq<char>) -> bool {
    exists|i: int, j: int| i != j && holds(grid, token, i) && holds(grid, token, j)
}

/// The place of a coordinate triple in the scan order.
pub open spec fn coord_index(p: (usize, usize, usize)) -> int {
    cell_index(p.0 as int, p.1 as int, p.2 as int)
}

/// `cells` lists, in scan order and each once, exactly the cells among the
/// first `n` at which `token` is placed.
pub open spec fn lists_cells_before(
    grid: Seq<Seq<char>>,
    token: Seq<char>,
    cells: Seq<(usize, usize, usize)>,
    n: int,
) -> bool {
    &&& forall|i: int|
        0 <= i < cells.len() ==> in_grid(
            (#[trigger] cells[i]).0 as int,
            cells[i].1 as int,
            cells[i].2 as int,
        ) && coord_index(cells[i]) < n && holds(grid, token, coord_index(cells[i]))
    &&& forall|i: int, j: int|
        0 <= i < j < cells.len() ==> coord_index(#[trigger] cells[i]) < coord_index(
            #[trigger] cells[j],
        )
    &&& forall|k: int|
        0 <= k < n && #[trigger] holds(grid, token, k) ==> exists|i: int|
            0 <= i < cells.len() && coord_index(#[trigger] cells[i]) == k
}

/// `cells` lists, in scan order and each once, exactly the cells at which
/// `token` is placed.
pub open spec fn lists_cells_of(
    grid: Seq<Seq<char>>,
    token: Seq<char>,
    cells: Seq<(usize, usize, usize)>,
) -> bool {
    lists_cells_before(grid, token, cells, 150)
}

/// The graphemes of a list of duplicate entries.
pub open spec fn duplicate_tokens(
    entries: Seq<(String, Vec<(usize, usize, usize)>)>,
) -> Seq<Seq<char>> {
    entries.map_values(|e: (String, Vec<(usize, usize, usize)>)| e.0@)
}

/// What a validation found.
#[derive(Debug)]
pub struct ValidationResult {
    /// Each grapheme that is placed more than once, with all its cells.
    pub duplicates: Vec<(String, Vec<(usize, usize, usize)>)>,
    /// Expected graphemes that are placed nowhere.
    pub missing: Vec<String>,
    /// Placed graphemes that were not expected.
    pub extra: Vec<String>,
    /// How many different graphemes are placed.
    pub total_found: usize,
    /// How many different graphemes were expected.
    pub total_expected: usize,
}

impl ValidationResult {
    /// A layout is valid when no grapheme is placed twice. Missing and
    /// unexpected graphemes do not count against it.
    pub fn is_valid(&self) -> (b: bool)
        ensures
            b == (self.duplicates@.len() == 0),
    {
        self.duplicates.len() == 0
    }
}

/// The state of a scan after the first `n` cells: every grapheme placed so
/// far stands once in `found`, beside the list of its cells.
pub open spec fn scanned(
    grid: Seq<Seq<char>>,
    found: Seq<String>,
    places: Seq<Vec<(usize, usize, usize)>>,
    n: int,
) -> bool {
    &&& found.len() == places.len()
    &&& token_views(found).no_duplicates()
    &&& forall|j: int|
        0 <= j < found.len() ==> (#[trigger] places[j])@.len() > 0 && lists_cells_before(
            grid,
            found[j]@,
            places[j]@,
            n,
        )
    &&& forall|k: int|
        0 <= k < n && #[trigger] placed_at(grid, k) ==> exists|j: int|
            0 <= j < found.len() && (#[trigger] found[j])@ == grid[k]
}

proof fn lemma_list_skips(
    grid: Seq<Seq<char>>,
    token: Seq<char>,
    cells: Seq<(usize, usize, usize)>,
    n: int,
)
    requires
        lists_cells_before(grid, token, cells, n),
        !holds(grid, token, n),
    ensures
        lists_cells_before(grid, token, cells, n + 1),
{
}

proof fn lemma_list_grows(
    grid: Seq<Seq<char>>,
    token: Seq<char>,
    cells: Seq<(usize, usize, usize)>,
    n: int,
    p: (usize, usize, usize),
)
    requires
        lists_cells_before(grid, token, cells, n),
        holds(grid, token, n),
        in_grid(p.0 as int, p.1 as int, p.2 as int),
        coord_index(p) == n,
    ensures
        lists_cells_before(grid, token, cells.push(p), n + 1),
{
    let grown = cells.push(p);
    assert forall|k: int| 0 <= k < n + 1 && #[trigger] holds(grid, token, k) implies exists|
        i: int,
    |
        0 <= i < grown.len() && coord_index(#[trigger] grown[i]) == k by {
        if k < n {
            let i = choose|i: int| 0 <= i < cells.len() && coord_index(#[trigger] cells[i]) == k;
            assert(coord_index(grown[i]) == k);
        } else {
            assert(coord_index(grown[cells.len() as int]) == k);
        }
    }
}

proof fn lemma_list_starts(
    grid: Seq<Seq<char>>,
    token: Seq<char>,
    n: int,
    p: (usize, usize, usize),
)
    requires
        holds(grid, token, n),
        in_grid(p.0 as int, p.1 as int, p.2 as int),
        coord_index(p) == n,
        forall|k: int| 0 <= k < n ==> !#[trigger] holds(grid, token, k),
    ensures
        lists_cells_before(grid, token, seq![p], n + 1),
{
    let one = seq![p];
    assert forall|k: int| 0 <= k < n + 1 && #[trigger] holds(grid, token, k) implies exists|
        i: int,
    |
        0 <= i < one.len() && coord_index(#[trigger] one[i]) == k by {
        assert(coord_index(one[0]) == k);
    }
}

/// Takes one more cell into the scan.
fn record(
    found: &mut Vec<String>,
    places: &mut Vec<Vec<(usize, usize, usize)>>,
    token: &String,
    p: (usize, usize, usize),
    Ghost(grid): Ghost<Seq<Seq<char>>>,
)
    requires
        in_grid(p.0 as int, p.1 as int, p.2 as int),
        scanned(grid, old(found)@, old(places)@, coord_index(p)),
        grid.len() == 150,
        token@ == grid[coord_index(p)],
        free_at(coord_index(p)),
    ensures
        scanned(grid, final(found)@, final(places)@, coord_index(p) + 1),
{
    let ghost n = coord_index(p);
    let ghost found0 = found@;
    let ghost places0 = places@;
    if is_blank_marker(token) || token.as_str().is_empty() {
        proof {
            assert(!placed_at(grid, n));
            assert forall|j: int| 0 <= j < found0.len() implies lists_cells_before(
                grid,
                found0[j]@,
                (#[trigger] places0[j])@,
                n + 1,
            ) by {
                lemma_list_skips(grid, found0[j]@, places0[j]@, n);
            }
        }
        return ;
    }
    assert(placed_at(grid, n));
    match position_of(found, token) {
        Some(at) => {
            let ghost cells0 = places0[at as int]@;
            places[at].push(p);
            proof {
                assert(places@[at as int]@ == cells0.push(p));
                assert forall|j: int| 0 <= j < found@.len() implies (#[trigger] places@[j])@.len()
                    > 0 && lists_cells_before(grid, found@[j]@, places@[j]@, n + 1) by {
                    if j == at {
                        lemma_list_grows(grid, token@, cells0, n, p);
                    } else {
                        assert(places@[j] == places0[j]);
                        assert(token_views(found0)[j] != token_views(found0)[at as int]);
                        lemma_list_skips(grid, found0[j]@, places0[j]@, n);
                    }
                }
                assert forall|k: int| 0 <= k < n + 1 && #[trigger] placed_at(grid, k) implies exists|
                    j: int,
                |
                    0 <= j < found@.len() && (#[trigger] found@[j])@ == grid[k] by {
                    if k == n {
                        assert(found@[at as int]@ == grid[k]);
                    }
                }
            }
        },
        None => {
            let mut cells: Vec<(usize, usize, usize)> = Vec::new();
            cells.push(p);
            found.push(token.clone());
            places.push(cells);
            proof {
                assert(cells@ =~= seq![p]);
                assert(token_views(found@) =~= token_views(found0).push(token@));
                assert forall|j: int| 0 <= j < found0.len() implies token_views(found0)[j]
                    != token@ by {
                    assert(found0[j]@ != token@);
                }
                assert forall|k: int| 0 <= k < n implies !#[trigger] holds(grid, token@, k) by {
                    if holds(grid, token@, k) {
                        let j = choose|j: int|
                            0 <= j < found0.len() && (#[trigger] found0[j])@ == grid[k];
                        assert(found0[j]@ == token@);
                    }
                }
                assert forall|j: int| 0 <= j < found@.len() implies (#[trigger] places@[j])@.len()
                    > 0 && lists_cells_before(grid, found@[j]@, places@[j]@, n + 1) by {
                    if j < found0.len() {
                        assert(places@[j] == places0[j]);
                        assert(found@[j] == found0[j]);
                        assert(found0[j]@ != token@);
                        lemma_list_skips(grid, found0[j]@, places0[j]@, n);
                    } else {
                        lemma_list_starts(grid, token@, n, p);
                    }
                }
                assert forall|k: int| 0 <= k < n + 1 && #[trigger] placed_at(grid, k) implies exists|
                    j: int,
                |
                    0 <= j < found@.len() && (#[trigger] found@[j])@ == grid[k] by {
                    if k == n {
                        assert(found@[found0.len() as int]@ == grid[k]);
                    } else {
                        let j = choose|j: int|
                            0 <= j < found0.len() && (#[trigger] found0[j])@ == grid[k];
                        assert(found@[j]@ == grid[k]);
                    }
                }
            }
        },
    }
}

/// A copy of a list of coordinates.
fn copy_cells(cells: &Vec<(usize, usize, usize)>) -> (r: Vec<(usize, usize, usize)>)
    ensures
        r@ == cells@,
{
    let mut out: Vec<(usize, usize, usize)> = Vec::new();
    for i in 0..cells.len()
        invariant
            out@ == cells@.take(i as int),
    {
        out.push(cells[i]);
        assert(out@ =~= cells@.take(i + 1));
    }
    assert(out@ =~= cells@);
    out
}

/// A list with at least two cells in scan order names two different cells.
proof fn lemma_two_cells_placed_twice(
    grid: Seq<Seq<char>>,
    token: Seq<char>,
    cells: Seq<(usize, usize, usize)>,
)
    requires
        lists_cells_of(grid, token, cells),
    ensures
        cells.len() > 1 <==> placed_twice(grid, token),
        cells.len() > 0 <==> found_tokens(grid).contains(token),
{
    if cells.len() > 1 {
        assert(holds(grid, token, coord_index(cells[0])));
        assert(holds(grid, token, coord_index(cells[1])));
        assert(coord_index(cells[0]) < coord_index(cells[1]));
    }
    if placed_twice(grid, token) {
        let (i, j) = choose|i: int, j: int|
            i != j && holds(grid, token, i) && holds(grid, token, j);
        let a = choose|a: int| 0 <= a < cells.len() && coord_index(#[trigger] cells[a]) == i;
        let b = choose|b: int| 0 <= b < cells.len() && coord_index(#[trigger] cells[b]) == j;
        assert(a != b);
    }
    if cells.len() > 0 {
        assert(holds(grid, token, coord_index(cells[0])));
    }
    if found_tokens(grid).contains(token) {
        let k = choose|k: int| holds(grid, token, k);
        let a = choose|a: int| 0 <= a < cells.len() && coord_index(#[trigger] cells[a]) == k;
    }
}

impl Layout {
    /// Scans the free cells and gathers each placed grapheme with its cells.
    fn scan(&self) -> (r: (Vec<String>, Vec<Vec<(usize, usize, usize)>>))
        requires
            self.wf(),
        ensures
            scanned(self@, r.0@, r.1@, 150),
    {
        let mut found: Vec<String> = Vec::new();
        let mut places: Vec<Vec<(usize, usize, usize)>> = Vec::new();
        for layer in 0..NUM_LAYERS
            invariant
                self.wf(),
                scanned(self@, found@, places@, layer * 30),
        {
            for row in 0..ROWS
                invariant
                    self.wf(),
                    0 <= layer < 5,
                    scanned(self@, found@, places@, layer * 30 + row * 10),
            {
                for col in 0..COLS
                    invariant
                        self.wf(),
                        0 <= layer < 5,
                        0 <= row < 3,
                        scanned(self@, found@, places@, layer * 30 + row * 10 + col),
                {
                    let ghost n = cell_index(layer as int, row as int, col as int);
                    proof {
                        assert(layer_of(n) == layer && row_of(n) == row && col_of(n) == col);
                    }
                    if Self::is_fixed_position(layer, row, col) || Self::is_blank_position(
                        layer,
                        row,
                        col,
                    ) {
                        proof {
                            assert(!free_at(n));
                            assert forall|j: int| 0 <= j < found@.len() implies lists_cells_before(
                                self@,
                                found@[j]@,
                                (#[trigger] places@[j])@,
                                n + 1,
                            ) by {
                                lemma_list_skips(self@, found@[j]@, places@[j]@, n);
                            }
                        }
                    } else {
                        let token = &self.layers[layer][row][col];
                        assert(token@ == self@[n]);
                        record(&mut found, &mut places, token, (layer, row, col), Ghost(self@));
                    }
                }
            }
        }
        (found, places)
    }

    /// Checks the layout against the graphemes it is expected to hold.
    ///
    /// Fixed and blank cells are left out. Every grapheme that stands in
    /// more than one free cell is reported once, with all its cells in scan
    /// order. `missing` and `extra` compare the placed graphemes with the
    /// expected ones as sets; they are for information and hold each
    /// grapheme once.
    pub fn validate(&self, expected_chars: &[&str]) -> (r: ValidationResult)
        requires
            self.wf(),
        ensures
            duplicate_tokens(r.duplicates@).no_duplicates(),
            forall|t: Seq<char>|
                duplicate_tokens(r.duplicates@).contains(t) <==> placed_twice(self@, t),
            forall|i: int|
                0 <= i < r.duplicates@.len() ==> lists_cells_of(
                    self@,
                    (#[trigger] r.duplicates@[i]).0@,
                    r.duplicates@[i].1@,
                ),
            token_views(r.missing@).no_duplicates(),
            token_views(r.missing@).to_set() == str_views(expected_chars@).to_set().difference(
                found_tokens(self@),
            ),
            token_views(r.extra@).no_duplicates(),
            token_views(r.extra@).to_set() == found_tokens(self@).difference(
                str_views(expected_chars@).to_set(),
            ),
            r.total_found == found_tokens(self@).len(),
            r.total_expected == str_views(expected_chars@).to_set().len(),
            (r.duplicates@.len() == 0) <==> forall|i: int, j: int|
                placed_at(self@, i) && placed_at(self@, j) && i != j ==> self@[i] != self@[j],
    {
        let (found, places) = self.scan();
        let ghost grid = self@;
        proof {
            assert forall|t: Seq<char>| token_views(found@).to_set().contains(t)
                <==> found_tokens(grid).contains(t) by {
                if token_views(found@).contains(t) {
                    let j = choose|j: int| 0 <= j < found@.len() && token_views(found@)[j] == t;
                    lemma_two_cells_placed_twice(grid, found@[j]@, places@[j]@);
                }
                if found_tokens(grid).contains(t) {
                    let k = choose|k: int| holds(grid, t, k);
                    assert(placed_at(grid, k));
                    let j = choose|j: int| 0 <= j < found@.len() && (#[trigger] found@[j])@ == grid[k];
                    assert(token_views(found@)[j] == t);
                }
            }
            assert(token_views(found@).to_set() =~= found_tokens(grid));
        }
        let mut duplicates: Vec<(String, Vec<(usize, usize, usize)>)> = Vec::new();
        let ghost mut origin: Seq<int> = Seq::empty();
        for j in 0..found.len()
            invariant
                scanned(grid, found@, places@, 150),
                origin.len() == duplicates@.len(),
                forall|i: int|
                    0 <= i < origin.len() ==> 0 <= #[trigger] origin[i] < j && places@[origin[i]]@.len()
                        > 1 && duplicates@[i].0@ == found@[origin[i]]@ && duplicates@[i].1@
                        == places@[origin[i]]@,
                forall|a: int, b: int| 0 <= a < b < origin.len() ==> origin[a] < origin[b],
                forall|i: int|
                    0 <= i < j && (#[trigger] places@[i])@.len() > 1 ==> origin.contains(i),
        {
            if places[j].len() > 1 {
                let ghost before = origin;
                duplicates.push((found[j].clone(), copy_cells(&places[j])));
                proof {
                    origin = origin.push(j as int);
                    assert forall|i: int|
                        0 <= i < j + 1 && (#[trigger] places@[i])@.len() > 1 implies origin.contains(
                        i,
                    ) by {
                        if i < j {
                            let w = choose|w: int| 0 <= w < before.len() && before[w] == i;
                            assert(origin[w] == i);
                        } else {
                            assert(origin[before.len() as int] == i);
                        }
                    }
                }
            }
        }
        let expected = distinct(expected_chars);
        let missing = difference(&expected, &found);
        let extra = difference(&found, &expected);
        proof {
            let dups = duplicate_tokens(duplicates@);
            let fv = token_views(found@);
            assert forall|a: int, b: int| 0 <= a < dups.len() && 0 <= b < dups.len() && a
                != b implies dups[a] != dups[b] by {
                assert(origin[a] != origin[b]);
                assert(fv[origin[a]] == dups[a]);
                assert(fv[origin[b]] == dups[b]);
            }
            assert forall|t: Seq<char>| dups.contains(t) <==> placed_twice(grid, t) by {
                if dups.contains(t) {
                    let i = choose|i: int| 0 <= i < dups.len() && dups[i] == t;
                    lemma_two_cells_placed_twice(grid, found@[origin[i]]@, places@[origin[i]]@);
                }
                if placed_twice(grid, t) {
                    let (a, b) = choose|a: int, b: int|
                        a != b && holds(grid, t, a) && holds(grid, t, b);
                    assert(placed_at(grid, a));
                    let j = choose|j: int| 0 <= j < found@.len() && (#[trigger] found@[j])@ == grid[a];
                    lemma_two_cells_placed_twice(grid, found@[j]@, places@[j]@);
                    let w = choose|w: int| 0 <= w < origin.len() && origin[w] == j;
                    assert(dups[w] == t);
                }
            }
            assert forall|i: int| 0 <= i < duplicates@.len() implies lists_cells_of(
                grid,
                (#[trigger] duplicates@[i]).0@,
                duplicates@[i].1@,
            ) by {
                assert(lists_cells_before(grid, found@[origin[i]]@, places@[origin[i]]@, 150));
            }
            token_views(found@).unique_seq_to_set();
            token_views(expected@).unique_seq_to_set();
            if duplicates@.len() == 0 {
                assert forall|i: int, j: int|
                    placed_at(grid, i) && placed_at(grid, j) && i != j implies grid[i]
                    != grid[j] by {
                    if grid[i] == grid[j] {
                        assert(holds(grid, grid[i], i) && holds(grid, grid[i], j));
                        assert(placed_twice(grid, grid[i]));
                        assert(dups.contains(grid[i]));
                    }
                }
            } else {
                assert(dups[0] == dups[0]);
                assert(dups.contains(dups[0]));
                assert(placed_twice(grid, dups[0]));
            }
        }
        ValidationResult {
            duplicates,
            missing,
            extra,
            total_found: found.len(),
            total_expected: expected.len(),
        }
    }
}

/// A cell as the report writes it: `L`, the layer, and row and column in
/// square brackets.
pub open spec fn cell_text(p: (usize, usize, usize)) -> Seq<char> {
    "L"@ + decimal(p.0 as nat) + "["@ + decimal(p.1 as nat) + "]["@ + decimal(p.2 as nat) + "]"@
}

/// The first `n` cells of a list, separated by a comma and a space.
pub open spec fn cell_list_text(cells: Seq<(usize, usize, usize)>, n: int) -> Seq<char>
    decreases n,
{
    if n <= 0 {
        Seq::empty()
    } else if n == 1 {
        cell_text(cells[0])
    } else {
        cell_list_text(cells, n - 1) + ", "@ + cell_text(cells[n - 1])
    }
}

/// The lines of the first `n` duplicate entries: the grapheme in corner
/// brackets, a colon and its cells.
pub open spec fn duplicate_lines(
    entries: Seq<(String, Vec<(usize, usize, usize)>)>,
    n: int,
) -> Seq<char>
    decreases n,
{
    if n <= 0 {
        Seq::empty()
    } else {
        duplicate_lines(entries, n - 1) + "  「"@ + entries[n - 1].0@ + "」: "@ + cell_list_text(
            entries[n - 1].1@,
            entries[n - 1].1@.len() as int,
        ) + "\n"@
    }
}

/// The first `n` tokens of a list, each in corner brackets.
pub open spec fn bracketed(tokens: Seq<String>, n: int) -> Seq<char>
    decreases n,
{
    if n <= 0 {
        Seq::empty()
    } else {
        bracketed(tokens, n - 1) + "「"@ + tokens[n - 1]@ + "」"@
    }
}

/// The part of the report on duplicates.
pub open spec fn duplicates_part(entries: Seq<(String, Vec<(usize, usize, usize)>)>) -> Seq<
    char,
> {
    if entries.len() == 0 {
        "✓ 重複なし\n"@
    } else {
        "✗ 重複あり ("@ + decimal(entries.len()) + " 件):\n"@ + duplicate_lines(
            entries,
            entries.len() as int,
        )
    }
}

/// The part of the report on expected graphemes that are not placed.
pub open spec fn missing_part(missing: Seq<String>) -> Seq<char> {
    if missing.len() == 0 {
        Seq::empty()
    } else {
        "※ 未配置文字 ("@ + decimal(missing.len()) + " 件): 配置枠より文字数が多いため正常\n"@
    }
}

/// The part of the report on placed graphemes that were not expected.
pub open spec fn extra_part(extra: Seq<String>) -> Seq<char> {
    if extra.len() == 0 {
        Seq::empty()
    } else {
        "※ 期待リスト外の文字 ("@ + decimal(extra.len()) + " 件):\n"@ + bracketed(
            extra,
            extra.len() as int,
        ) + "\n"@
    }
}

/// The closing line of the report.
pub open spec fn verdict_part(valid: bool) -> Seq<char> {
    if valid {
        "\n✓ 検証成功: 重複なし、配列は正常です\n"@
    } else {
        "\n✗ 検証失敗: 重複があります\n"@
    }
}

/// The whole report.
pub open spec fn report_text(r: ValidationResult) -> Seq<char> {
    "\n=== 配列検証結果 ===\n配置文字数: "@ + decimal(r.total_found as nat) + " (配置可能: 114)\n"@
        + duplicates_part(r.duplicates@) + missing_part(r.missing@) + extra_part(r.extra@)
        + verdict_part(r.duplicates@.len() == 0)
}

/// Writes a cell as the report shows it.
fn write_cell(out: &mut String, p: (usize, usize, usize))
    ensures
        final(out)@ == old(out)@ + cell_text(p),
{
    let ghost start = out@;
    out.append("L");
    out.append(decimal_string(p.0).as_str());
    out.append("[");
    out.append(decimal_string(p.1).as_str());
    out.append("][");
    out.append(decimal_string(p.2).as_str());
    out.append("]");
    assert(out@ =~= start + cell_text(p));
}

/// Writes the cells of one duplicate entry.
fn write_cell_list(out: &mut String, cells: &Vec<(usize, usize, usize)>)
    ensures
        final(out)@ == old(out)@ + cell_list_text(cells@, cells@.len() as int),
{
    let ghost start = out@;
    assert(out@ =~= start + cell_list_text(cells@, 0));
    for j in 0..cells.len()
        invariant
            out@ == start + cell_list_text(cells@, j as int),
    {
        let ghost so_far = cell_list_text(cells@, j as int);
        if j > 0 {
            out.append(", ");
            assert(out@ =~= start + (so_far + ", "@));
        }
        let ghost lead = out@;
        write_cell(out, cells[j]);
        assert(out@ == lead + cell_text(cells@[j as int]));
        assert(out@ =~= start + cell_list_text(cells@, j + 1));
    }
}

/// Writes the part of the report on duplicates.
fn write_duplicates(out: &mut String, entries: &Vec<(String, Vec<(usize, usize, usize)>)>)
    ensures
        final(out)@ == old(out)@ + duplicates_part(entries@),
{
    let ghost start = out@;
    if entries.len() == 0 {
        out.append("✓ 重複なし\n");
        return ;
    }
    out.append("✗ 重複あり (");
    out.append(decimal_string(entries.len()).as_str());
    out.append(" 件):\n");
    let ghost lead = "✗ 重複あり ("@ + decimal(entries@.len()) + " 件):\n"@;
    assert(out@ =~= start + (lead + duplicate_lines(entries@, 0)));
    for i in 0..entries.len()
        invariant
            out@ == start + (lead + duplicate_lines(entries@, i as int)),
    {
        let ghost so_far = duplicate_lines(entries@, i as int);
        let ghost opening = "  「"@ + entries@[i as int].0@ + "」: "@;
        let ghost before = out@;
        out.append("  「");
        out.append(entries[i].0.as_str());
        out.append("」: ");
        assert(out@ =~= before + opening);
        write_cell_list(out, &entries[i].1);
        out.append("\n");
        let ghost cells = cell_list_text(entries@[i as int].1@, entries@[i as int].1@.len() as int);
        assert(out@ =~= before + (opening + cells + "\n"@));
        assert(duplicate_lines(entries@, i + 1) =~= so_far + (opening + cells + "\n"@));
        assert(out@ =~= start + (lead + duplicate_lines(entries@, i + 1)));
    }
}

/// Writes the part of the report on missing graphemes.
fn write_missing(out: &mut String, missing: &Vec<String>)
    ensures
        final(out)@ == old(out)@ + missing_part(missing@),
{
    let ghost start = out@;
    if missing.len() > 0 {
        out.append("※ 未配置文字 (");
        out.append(decimal_string(missing.len()).as_str());
        out.append(" 件): 配置枠より文字数が多いため正常\n");
    }
    assert(out@ =~= start + missing_part(missing@));
}

/// Writes the part of the report on unexpected graphemes.
fn write_extra(out: &mut String, extra: &Vec<String>)
    ensures
        final(out)@ == old(out)@ + extra_part(extra@),
{
    let ghost start = out@;
    if extra.len() == 0 {
        assert(out@ =~= start + extra_part(extra@));
        return ;
    }
    out.append("※ 期待リスト外の文字 (");
    out.append(decimal_string(extra.len()).as_str());
    out.append(" 件):\n");
    let ghost lead = "※ 期待リスト外の文字 ("@ + decimal(extra@.len()) + " 件):\n"@;
    assert(out@ =~= start + (lead + bracketed(extra@, 0)));
    for i in 0..extra.len()
        invariant
            out@ == start + (lead + bracketed(extra@, i as int)),
    {
        let ghost before = out@;
        out.append("「");
        out.append(extra[i].as_str());
        out.append("」");
        assert(out@ =~= before + ("「"@ + extra@[i as int]@ + "」"@));
        assert(bracketed(extra@, i + 1) =~= bracketed(extra@, i as int) + ("「"@
            + extra@[i as int]@ + "」"@));
        assert(out@ =~= start + (lead + bracketed(extra@, i + 1)));
    }
    out.append("\n");
    assert(out@ =~= start + extra_part(extra@));
}

impl ValidationResult {
    /// The report as text: the number of placed graphemes, the duplicates
    /// with their cells, a note on missing graphemes, the unexpected ones,
    /// and the verdict.
    pub fn report(&self) -> (r: String)
        ensures
            r@ == report_text(*self),
    {
        let mut out = String::from_str("\n=== 配列検証結果 ===\n配置文字数: ");
        out.append(decimal_string(self.total_found).as_str());
        out.append(" (配置可能: 114)\n");
        write_duplicates(&mut out, &self.duplicates);
        write_missing(&mut out, &self.missing);
        write_extra(&mut out, &self.extra);
        if self.is_valid() {
            out.append("\n✓ 検証成功: 重複なし、配列は正常です\n");
        } else {
            out.append("\n✗ 検証失敗: 重複があります\n");
        }
        out
    }
}

/// A grid that keeps the placement rules has no duplicates, so its
/// validation finds it valid.
pub proof fn lemma_well_placed_is_valid(grid: Seq<Seq<char>>)
    requires
        well_placed(grid),
    ensures
        forall|t: Seq<char>| !placed_twice(grid, t),
        forall|i: int, j: int|
            placed_at(grid, i) && placed_at(grid, j) && i != j ==> grid[i] != grid[j],
{
    assert forall|i: int, j: int| placed_at(grid, i) && placed_at(grid, j) && i != j implies grid[i]
        != grid[j] by {
        if i < j {
            assert(grid[i] != grid[j]);
        } else {
            assert(grid[j] != grid[i]);
        }
    }
}

/// The curated layout has no duplicates.
pub proof fn lemma_curated_is_valid()
    ensures
        forall|t: Seq<char>| !placed_twice(curated_grid(), t),
{
    lemma_curated_grid();
    lemma_well_placed_is_valid(curated_grid());
}

} // verus!
