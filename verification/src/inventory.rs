//! The grapheme inventory and the curated seed layout, as constant tables.

use crate::cells::{col_of, layer_of, row_of};
use vstd::prelude::*;

verus! {

/// The graphemes that a layout is expected to place, most frequent first:
/// 73 single kana, 7 small kana and 34 digraphs, one for each free cell.
pub const HIRAGANA_FREQ_DEFAULT: [&'static str; 114] = [
    "い", "う", "ん", "し", "か", "の", "と", "た", "て", "く",
    "な", "に", "き", "は", "こ", "る", "が", "で", "っ", "す",
    "ま", "じ", "り", "も", "つ", "お", "ら", "を", "さ", "あ",
    "れ", "だ", "ち", "せ", "け", "よ", "ど", "そ", "え", "わ",
    "み", "め", "ひ", "ば", "や", "ろ", "ほ", "ふ", "ぶ", "ね",
    "ご", "ぎ", "げ", "む", "ず", "び", "ざ", "ぐ", "ぜ", "へ",
    "べ", "ゆ", "ぼ", "ぷ", "ぞ", "ぱ", "ぽ", "づ", "ぴ", "ぬ",
    "ぺ", "ヴ", "ぢ",
    "ぁ", "ぃ", "ぅ", "ぇ", "ぉ", "ゃ", "ょ",
    "しょ", "じょ", "しゅ", "きょ", "しゃ", "ちょ", "じゅ", "りょ",
    "きゅ", "ちゅ", "ぎょ", "にゅ", "ひょ", "じゃ", "ちゃ", "りゅ",
    "きゃ", "びょ", "りゃ", "ぎゃ", "ぴょ", "ぴゅ", "びゅ", "みょ",
    "ひゃ", "みゅ", "にょ", "みゃ", "にゃ", "ひゅ", "びゃ", "ぴゃ",
    "ぎゅ", "ぢゃ",
];

/// The curated seed layout, by layer, row and column.
pub const CURATED: [[[&'static str; 10]; 3]; 5] = [
    [
        ["ぐ", "も", "ら", "れ", "ちょ", "ゆ", "だ", "り", "を", "ぜ"],
        ["し", "◆", "★", "う", "ち", "け", "い", "☆", "◎", "ん"],
        ["ざ", "そ", "せ", "お", "べ", "ひ", "つ", "、", "。", "へ"],
    ],
    [
        ["ぎゅ", "ろ", "ぶ", "ぼ", "びゅ", "にゃ", "ぷ", "　", "　", "　"],
        ["あ", "な", "の", "と", "ぱ", "ぎょ", "く", "え", "　", "　"],
        ["みゅ", "きゃ", "きゅ", "や", "にょ", "りゃ", "しょ", "ー", "・", "　"],
    ],
    [
        ["　", "　", "　", "じゅ", "ぢ", "みゃ", "りょ", "ば", "ね", "　"],
        ["　", "　", "わ", "た", "ぞ", "ぃ", "て", "か", "に", "さ"],
        ["　", "　", "　", "ほ", "ぅ", "ぉ", "ふ", "ちゅ", "びょ", "　"],
    ],
    [
        ["びゃ", "じょ", "び", "にゅ", "みょ", "ゃ", "ひょ", "ぎ", "　", "　"],
        ["ど", "ま", "る", "っ", "づ", "りゅ", "す", "き", "め", "　"],
        ["ひゅ", "ぎゃ", "ちゃ", "しゅ", "ぴゃ", "ヴ", "きょ", "ぬ", ";", "　"],
    ],
    [
        ["　", "　", "ず", "ぽ", "ひゃ", "ょ", "ぇ", "ご", "しゃ", "　"],
        ["　", "み", "こ", "が", "じゃ", "ぺ", "で", "は", "じ", "よ"],
        ["　", "　", "ぴ", "げ", "ぢゃ", "ぴゅ", "む", "ぁ", "ぴょ", "　"],
    ],
];

/// The default inventory, each grapheme as its sequence of characters.
pub open spec fn default_inventory() -> Seq<Seq<char>> {
    Seq::new(114, |i: int| HIRAGANA_FREQ_DEFAULT[i]@)
}

/// A number that tells tokens of one or two characters apart.
pub open spec fn token_code(token: Seq<char>) -> int {
    if token.len() == 1 {
        token[0] as int
    } else if token.len() == 2 {
        token[0] as int * 0x20_0000 + token[1] as int
    } else {
        -1
    }
}

/// The curated seed grid: the 150 tokens of the table in scan order.
pub open spec fn curated_grid() -> Seq<Seq<char>> {
    Seq::new(150, |k: int| CURATED[layer_of(k)][row_of(k)][col_of(k)]@)
}

} // verus!
