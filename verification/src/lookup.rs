//! Finding tokens and characters in a layout.

use crate::cells::{cell_index, col_of, in_grid, layer_of, row_of, COLS, NUM_LAYERS, ROWS};
use crate::keypos::KeyPos;
use crate::layout::Layout;
use std::collections::HashMap;
use vstd::prelude::*;

verus! {

broadcast use vstd::std_specs::hash::group_hash_axioms;

/// The code point of a character, the key under which a character map
/// holds it.
pub open spec fn char_code(c: char) -> u32 {
    c as u32
}

/// Whether the token of the `k`-th cell begins with the character `c`, and
/// `c` is neither the blank marker nor the null character.
pub open spec fn leads(grid: Seq<Seq<char>>, c: char, k: int) -> bool {
    0 <= k < 150 && grid[k].len() > 0 && grid[k][0] == c && c != '　' && c != '\0'
}

/// The map sends each character that leads a token among the first `n`
/// cells to the first cell whose token it leads, and holds nothing else.
pub open spec fn maps_leading_chars(grid: Seq<Seq<char>>, map: Map<u32, KeyPos>, n: int) -> bool {
    &&& forall|c: char, k: int|
        0 <= k < n && #[trigger] leads(grid, c, k) ==> map.contains_key(c as u32)
    &&& forall|c: char| #[trigger]
        map.contains_key(c as u32) ==> {
            let p = map[c as u32];
            let at = cell_index(p.layer as int, p.row as int, p.col as int);
            &&& in_grid(p.layer as int, p.row as int, p.col as int)
            &&& at < n
            &&& leads(grid, c, at)
            &&& forall|k: int| 0 <= k < at ==> !leads(grid, c, k)
        }
    &&& forall|code: u32| #[trigger]
        map.contains_key(code) ==> exists|c: char| #[trigger] char_code(c) == code
}

impl Layout {
    /// The first cell in scan order that holds the token `c`.
    pub fn find_char(&self, c: &str) -> (r: Option<KeyPos>)
        requires
            self.wf(),
        ensures
            match r {
                Some(p) => {
                    &&& in_grid(p.layer as int, p.row as int, p.col as int)
                    &&& self.cell(p.layer as int, p.row as int, p.col as int) == c@
                    &&& forall|k: int|
                        0 <= k < cell_index(p.layer as int, p.row as int, p.col as int)
                            ==> #[trigger] self@[k] != c@
                },
                None => forall|k: int| 0 <= k < 150 ==> #[trigger] self@[k] != c@,
            },
    {
        let token = c.to_string();
        for layer in 0..NUM_LAYERS
            invariant
                self.wf(),
                token@ == c@,
                forall|k: int| 0 <= k < layer * 30 ==> #[trigger] self@[k] != c@,
        {
            for row in 0..ROWS
                invariant
                    self.wf(),
                    token@ == c@,
                    0 <= layer < 5,
                    forall|k: int| 0 <= k < layer * 30 + row * 10 ==> #[trigger] self@[k] != c@,
            {
                for col in 0..COLS
                    invariant
                        self.wf(),
                        token@ == c@,
                        0 <= layer < 5,
                        0 <= row < 3,
                        forall|k: int|
                            0 <= k < layer * 30 + row * 10 + col ==> #[trigger] self@[k] != c@,
                {
                    let ghost k = cell_index(layer as int, row as int, col as int);
                    assert(layer_of(k) == layer && row_of(k) == row && col_of(k) == col);
                    assert(self@[k] == self.cell(layer as int, row as int, col as int));
                    if self.layers[layer][row][col] == token {
                        return Some(KeyPos::new(layer, row, col));
                    }
                }
            }
        }
        None
    }

    /// Maps each character to the first cell in scan order whose token
    /// begins with it. A digraph is found under its first character. The
    /// blank marker and the null character are left out. The keys are code
    /// points.
    pub fn build_char_map(&self) -> (map: HashMap<u32, KeyPos>)
        requires
            self.wf(),
        ensures
            maps_leading_chars(self@, map@, 150),
    {
        let mut map: HashMap<u32, KeyPos> = HashMap::new();
        for layer in 0..NUM_LAYERS
            invariant
                self.wf(),
                maps_leading_chars(self@, map@, layer * 30),
        {
            for row in 0..ROWS
                invariant
                    self.wf(),
                    0 <= layer < 5,
                    maps_leading_chars(self@, map@, layer * 30 + row * 10),
            {
                for col in 0..COLS
                    invariant
                        self.wf(),
                        0 <= layer < 5,
                        0 <= row < 3,
                        maps_leading_chars(self@, map@, layer * 30 + row * 10 + col),
                {
                    let ghost n = cell_index(layer as int, row as int, col as int);
                    let ghost before = map@;
                    assert(layer_of(n) == layer && row_of(n) == row && col_of(n) == col);
                    let token = self.layers[layer][row][col].as_str();
                    assert(token@ == self@[n]);
                    if !token.is_empty() {
                        let c = token.get_char(0);
                        if c != '　' && c != '\0' && !map.contains_key(&(c as u32)) {
                            map.insert(c as u32, KeyPos::new(layer, row, col));
                            proof {
                                assert(leads(self@, c, n));
                                assert forall|d: char| #[trigger]
                                    map@.contains_key(d as u32) implies ({
                                    let p = map@[d as u32];
                                    let at = cell_index(p.layer as int, p.row as int, p.col as int);
                                    &&& in_grid(p.layer as int, p.row as int, p.col as int)
                                    &&& at < n + 1
                                    &&& leads(self@, d, at)
                                    &&& forall|k: int| 0 <= k < at ==> !leads(self@, d, k)
                                }) by {
                                    if d == c {
                                        assert forall|k: int| 0 <= k < n implies !leads(
                                            self@,
                                            c,
                                            k,
                                        ) by {
                                            if leads(self@, c, k) {
                                                assert(before.contains_key(c as u32));
                                            }
                                        }
                                    } else {
                                        assert(d as u32 != c as u32);
                                        assert(before.contains_key(d as u32));
                                    }
                                }
                                assert forall|code: u32| #[trigger]
                                    map@.contains_key(code) implies exists|d: char| #[trigger]
                                    char_code(d) == code by {
                                    if code == c as u32 {
                                        assert(char_code(c) == code);
                                    } else {
                                        assert(before.contains_key(code));
                                    }
                                }
                            }
                        }
                    }
                }
            }
        }
        map
    }
}

} // verus!
