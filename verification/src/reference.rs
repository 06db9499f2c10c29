//! Reference data for scoring: the phonemes of the kana, the key positions
//! of the letters on a Latin reference layout, and the positions of the kana
//! on the Tsuki layout.

use crate::keypos::KeyPos;
use std::collections::HashMap;
use vstd::prelude::*;

verus! {

broadcast use vstd::std_specs::hash::group_hash_axioms;

/// Row and column of each letter on the Colemak layout.
pub const COLEMAK_POSITIONS: [(&'static str, usize, usize); 26] = [
    ("a", 1, 0),
    ("e", 1, 7),
    ("i", 1, 8),
    ("o", 1, 9),
    ("u", 0, 7),
    ("k", 2, 6),
    ("s", 1, 2),
    ("t", 1, 3),
    ("n", 1, 6),
    ("h", 1, 5),
    ("m", 2, 7),
    ("y", 0, 8),
    ("r", 1, 1),
    ("w", 0, 1),
    ("g", 0, 4),
    ("z", 2, 0),
    ("d", 1, 4),
    ("b", 2, 4),
    ("p", 0, 3),
    ("f", 0, 2),
    ("j", 0, 5),
    ("l", 0, 6),
    ("v", 2, 3),
    ("q", 0, 0),
    ("x", 2, 1),
    ("c", 2, 2),
];

/// The vowel of a kana, if it has one: the kana of one column of the
/// syllabary share their vowel.
pub open spec fn vowel_of(c: char) -> Option<Seq<char>> {
    if c == 'あ' || c == 'か' || c == 'さ' || c == 'た' || c == 'な' || c == 'は' || c == 'ま' || c
        == 'や' || c == 'ら' || c == 'わ' || c == 'が' || c == 'ざ' || c == 'だ' || c == 'ば' || c
        == 'ぱ' {
        Some(seq!['a'])
    } else if c == 'い' || c == 'き' || c == 'し' || c == 'ち' || c == 'に' || c == 'ひ' || c == 'み'
        || c == 'り' || c == 'ぎ' || c == 'じ' || c == 'ぢ' || c == 'び' || c == 'ぴ' {
        Some(seq!['i'])
    } else if c == 'う' || c == 'く' || c == 'す' || c == 'つ' || c == 'ぬ' || c == 'ふ' || c == 'む'
        || c == 'ゆ' || c == 'る' || c == 'ぐ' || c == 'ず' || c == 'づ' || c == 'ぶ' || c == 'ぷ' {
        Some(seq!['u'])
    } else if c == 'え' || c == 'け' || c == 'せ' || c == 'て' || c == 'ね' || c == 'へ' || c == 'め'
        || c == 'れ' || c == 'げ' || c == 'ぜ' || c == 'で' || c == 'べ' || c == 'ぺ' {
        Some(seq!['e'])
    } else if c == 'お' || c == 'こ' || c == 'そ' || c == 'と' || c == 'の' || c == 'ほ' || c == 'も'
        || c == 'よ' || c == 'ろ' || c == 'を' || c == 'ご' || c == 'ぞ' || c == 'ど' || c == 'ぼ' || c
        == 'ぽ' {
        Some(seq!['o'])
    } else {
        None
    }
}

/// The consonant of a kana, if it has one: the kana of one row of the
/// syllabary share their consonant, and the syllabic nasal is a bare `n`.
pub open spec fn consonant_of(c: char) -> Option<Seq<char>> {
    if c == 'か' || c == 'き' || c == 'く' || c == 'け' || c == 'こ' {
        Some(seq!['k'])
    } else if c == 'さ' || c == 'し' || c == 'す' || c == 'せ' || c == 'そ' {
        Some(seq!['s'])
    } else if c == 'た' || c == 'ち' || c == 'つ' || c == 'て' || c == 'と' {
        Some(seq!['t'])
    } else if c == 'な' || c == 'に' || c == 'ぬ' || c == 'ね' || c == 'の' || c == 'ん' {
        Some(seq!['n'])
    } else if c == 'は' || c == 'ひ' || c == 'ふ' || c == 'へ' || c == 'ほ' {
        Some(seq!['h'])
    } else if c == 'ま' || c == 'み' || c == 'む' || c == 'め' || c == 'も' {
        Some(seq!['m'])
    } else if c == 'や' || c == 'ゆ' || c == 'よ' {
        Some(seq!['y'])
    } else if c == 'ら' || c == 'り' || c == 'る' || c == 'れ' || c == 'ろ' {
        Some(seq!['r'])
    } else if c == 'わ' || c == 'を' {
        Some(seq!['w'])
    } else if c == 'が' || c == 'ぎ' || c == 'ぐ' || c == 'げ' || c == 'ご' {
        Some(seq!['g'])
    } else if c == 'ざ' || c == 'じ' || c == 'ず' || c == 'ぜ' || c == 'ぞ' {
        Some(seq!['z'])
    } else if c == 'だ' || c == 'ぢ' || c == 'づ' || c == 'で' || c == 'ど' {
        Some(seq!['d'])
    } else if c == 'ば' || c == 'び' || c == 'ぶ' || c == 'べ' || c == 'ぼ' {
        Some(seq!['b'])
    } else if c == 'ぱ' || c == 'ぴ' || c == 'ぷ' || c == 'ぺ' || c == 'ぽ' {
        Some(seq!['p'])
    } else {
        None
    }
}

/// The characters of an optional string slice.
pub open spec fn option_view(s: Option<&'static str>) -> Option<Seq<char>> {
    match s {
        Some(t) => Some(t@),
        None => None,
    }
}

/// Splits a kana into the consonant and the vowel of its romanisation.
/// Small kana, marks and anything that is no kana have neither.
pub fn romaji_phonemes(c: char) -> (r: (Option<&'static str>, Option<&'static str>))
    ensures
        option_view(r.0) == consonant_of(c),
        option_view(r.1) == vowel_of(c),
{
    proof {
        reveal_strlit("a");
        reveal_strlit("i");
        reveal_strlit("u");
        reveal_strlit("e");
        reveal_strlit("o");
        reveal_strlit("k");
        reveal_strlit("s");
        reveal_strlit("t");
        reveal_strlit("n");
        reveal_strlit("h");
        reveal_strlit("m");
        reveal_strlit("y");
        reveal_strlit("r");
        reveal_strlit("w");
        reveal_strlit("g");
        reveal_strlit("z");
        reveal_strlit("d");
        reveal_strlit("b");
        reveal_strlit("p");
    }
    let r = match c {
        'あ' => (None, Some("a")),
        'い' => (None, Some("i")),
        'う' => (None, Some("u")),
        'え' => (None, Some("e")),
        'お' => (None, Some("o")),
        'か' => (Some("k"), Some("a")),
        'き' => (Some("k"), Some("i")),
        'く' => (Some("k"), Some("u")),
        'け' => (Some("k"), Some("e")),
        'こ' => (Some("k"), Some("o")),
        'さ' => (Some("s"), Some("a")),
        'し' => (Some("s"), Some("i")),
        'す' => (Some("s"), Some("u")),
        'せ' => (Some("s"), Some("e")),
        'そ' => (Some("s"), Some("o")),
        'た' => (Some("t"), Some("a")),
        'ち' => (Some("t"), Some("i")),
        'つ' => (Some("t"), Some("u")),
        'て' => (Some("t"), Some("e")),
        'と' => (Some("t"), Some("o")),
        'な' => (Some("n"), Some("a")),
        'に' => (Some("n"), Some("i")),
        'ぬ' => (Some("n"), Some("u")),
        'ね' => (Some("n"), Some("e")),
        'の' => (Some("n"), Some("o")),
        'は' => (Some("h"), Some("a")),
        'ひ' => (Some("h"), Some("i")),
        'ふ' => (Some("h"), Some("u")),
        'へ' => (Some("h"), Some("e")),
        'ほ' => (Some("h"), Some("o")),
        'ま' => (Some("m"), Some("a")),
        'み' => (Some("m"), Some("i")),
        'む' => (Some("m"), Some("u")),
        'め' => (Some("m"), Some("e")),
        'も' => (Some("m"), Some("o")),
        'や' => (Some("y"), Some("a")),
        'ゆ' => (Some("y"), Some("u")),
        'よ' => (Some("y"), Some("o")),
        'ら' => (Some("r"), Some("a")),
        'り' => (Some("r"), Some("i")),
        'る' => (Some("r"), Some("u")),
        'れ' => (Some("r"), Some("e")),
        'ろ' => (Some("r"), Some("o")),
        'わ' => (Some("w"), Some("a")),
        'を' => (Some("w"), Some("o")),
        'ん' => (Some("n"), None),
        'が' => (Some("g"), Some("a")),
        'ぎ' => (Some("g"), Some("i")),
        'ぐ' => (Some("g"), Some("u")),
        'げ' => (Some("g"), Some("e")),
        'ご' => (Some("g"), Some("o")),
        'ざ' => (Some("z"), Some("a")),
        'じ' => (Some("z"), Some("i")),
        'ず' => (Some("z"), Some("u")),
        'ぜ' => (Some("z"), Some("e")),
        'ぞ' => (Some("z"), Some("o")),
        'だ' => (Some("d"), Some("a")),
        'ぢ' => (Some("d"), Some("i")),
        'づ' => (Some("d"), Some("u")),
        'で' => (Some("d"), Some("e")),
        'ど' => (Some("d"), Some("o")),
        'ば' => (Some("b"), Some("a")),
        'び' => (Some("b"), Some("i")),
        'ぶ' => (Some("b"), Some("u")),
        'べ' => (Some("b"), Some("e")),
        'ぼ' => (Some("b"), Some("o")),
        'ぱ' => (Some("p"), Some("a")),
        'ぴ' => (Some("p"), Some("i")),
        'ぷ' => (Some("p"), Some("u")),
        'ぺ' => (Some("p"), Some("e")),
        'ぽ' => (Some("p"), Some("o")),
        _ => (None, None),
    };
    assert(option_view(r.0) =~= consonant_of(c));
    assert(option_view(r.1) =~= vowel_of(c));
    r
}

/// The front side of the Tsuki layout, by row and column.
pub const TSUKI_FRONT: [[char; 10]; 3] = [
    ['そ', 'こ', 'し', 'て', 'ょ', 'つ', 'ん', 'い', 'の', 'り'],
    ['は', 'か', '☆', 'と', 'た', 'く', 'う', '★', '゛', 'き'],
    ['す', 'け', 'に', 'な', 'さ', 'っ', 'る', '、', '。', '゜'],
];

/// The back side of the Tsuki layout, by row and column.
pub const TSUKI_BACK: [[char; 10]; 3] = [
    ['ぁ', 'ひ', 'ほ', 'ふ', 'め', 'ぬ', 'え', 'み', 'や', 'ぇ'],
    ['ぃ', 'を', 'ら', 'あ', 'よ', 'ま', 'お', 'も', 'わ', 'ゆ'],
    ['ぅ', 'へ', 'せ', 'ゅ', 'ゃ', 'む', 'ろ', 'ね', 'ー', 'ぉ'],
];

/// The shift keys and the voicing marks of the front side, which stand for
/// no character of their own.
pub open spec fn is_tsuki_mark(c: char) -> bool {
    c == '☆' || c == '★' || c == '゛' || c == '゜'
}

/// The character of the `k`-th key of the Tsuki layout, counting through
/// the front side and then the back side, row by row.
pub open spec fn tsuki_char(k: int) -> char {
    if k < 30 {
        TSUKI_FRONT[k / 10][k % 10]
    } else {
        TSUKI_BACK[(k - 30) / 10][k % 10]
    }
}

/// The position of the `k`-th key of the Tsuki layout.
pub open spec fn tsuki_pos(k: int) -> KeyPos {
    KeyPos { layer: (k / 30) as usize, row: ((k % 30) / 10) as usize, col: (k % 10) as usize }
}

/// Whether the `k`-th key of the Tsuki layout holds a character.
pub open spec fn tsuki_key(k: int) -> bool {
    0 <= k < 60 && !(k < 30 && is_tsuki_mark(tsuki_char(k)))
}

/// The table holds exactly the characters of the first `n` keys, each at
/// its key.
pub open spec fn holds_tsuki_keys(table: Map<u32, KeyPos>, n: int) -> bool {
    &&& forall|k: int|
        0 <= k < n && tsuki_key(k) ==> table.contains_key(#[trigger] tsuki_char(k) as u32)
            && table[tsuki_char(k) as u32] == tsuki_pos(k)
    &&& forall|code: u32| #[trigger]
        table.contains_key(code) ==> exists|k: int|
            0 <= k < n && tsuki_key(k) && #[trigger] tsuki_char(k) as u32 == code
}

/// No character stands on two keys of the Tsuki layout.
pub proof fn lemma_tsuki_chars_differ(i: int, j: int)
    requires
        0 <= i < 60,
        0 <= j < 60,
        i != j,
    ensures
        tsuki_char(i) as u32 != tsuki_char(j) as u32,
{
}

/// Where each kana lies on the Tsuki layout.
pub struct TsukiLayout {
    /// The position of each character, under its code point.
    pub char_positions: HashMap<u32, KeyPos>,
}

impl TsukiLayout {
    /// The positions of the characters of the Tsuki layout: both sides,
    /// without the shift keys and voicing marks of the front side.
    pub fn new() -> (r: Self)
        ensures
            holds_tsuki_keys(r.char_positions@, 60),
    {
        let mut positions: HashMap<u32, KeyPos> = HashMap::new();
        for row in 0..3usize
            invariant
                holds_tsuki_keys(positions@, row * 10),
        {
            for col in 0..10usize
                invariant
                    0 <= row < 3,
                    holds_tsuki_keys(positions@, row * 10 + col),
            {
                let c = TSUKI_FRONT[row][col];
                if c != '☆' && c != '★' && c != '゛' && c != '゜' {
                    Self::place(&mut positions, c, 0, row, col);
                }
            }
        }
        for row in 0..3usize
            invariant
                holds_tsuki_keys(positions@, 30 + row * 10),
        {
            for col in 0..10usize
                invariant
                    0 <= row < 3,
                    holds_tsuki_keys(positions@, 30 + row * 10 + col),
            {
                Self::place(&mut positions, TSUKI_BACK[row][col], 1, row, col);
            }
        }
        TsukiLayout { char_positions: positions }
    }

    /// Records the character of one key.
    fn place(positions: &mut HashMap<u32, KeyPos>, c: char, layer: usize, row: usize, col: usize)
        requires
            layer < 2,
            row < 3,
            col < 10,
            tsuki_key(layer * 30 + row * 10 + col),
            c == tsuki_char(layer * 30 + row * 10 + col),
            holds_tsuki_keys(old(positions)@, layer * 30 + row * 10 + col),
        ensures
            holds_tsuki_keys(final(positions)@, layer * 30 + row * 10 + col + 1),
    {
        let ghost n = layer * 30 + row * 10 + col;
        let ghost before = positions@;
        positions.insert(c as u32, KeyPos::new(layer, row, col));
        proof {
            assert(tsuki_pos(n) == KeyPos { layer, row, col });
            assert forall|k: int| 0 <= k < n + 1 && tsuki_key(k) implies positions@.contains_key(
                #[trigger] tsuki_char(k) as u32,
            ) && positions@[tsuki_char(k) as u32] == tsuki_pos(k) by {
                if k < n {
                    lemma_tsuki_chars_differ(k, n);
                }
            }
            assert forall|code: u32| #[trigger] positions@.contains_key(code) implies exists|
                k: int,
            |
                0 <= k < n + 1 && tsuki_key(k) && #[trigger] tsuki_char(k) as u32 == code by {
                if code == c as u32 {
                    assert(tsuki_char(n) as u32 == code);
                } else {
                    assert(before.contains_key(code));
                }
            }
        }
    }
}

impl Default for TsukiLayout {
    /// The positions of the characters of the Tsuki layout.
    fn default() -> (r: Self)
        ensures
            holds_tsuki_keys(r.char_positions@, 60),
    {
        Self::new()
    }
}

} // verus!
