use kana_layout::cells::{FREE_COUNT, NUM_CELLS, NUM_LAYERS, ROWS, COLS};
use kana_layout::inventory::{CURATED, HIRAGANA_FREQ_DEFAULT};
use kana_layout::keypos::{position_cost_tenths, KeyPos, POSITION_COST_TENTHS};
use kana_layout::layout::Layout;
use kana_layout::reference::{romaji_phonemes, TsukiLayout, COLEMAK_POSITIONS};
use kana_layout::tokens::{blank_string, difference, distinct, is_blank_marker, position_of, BLANK};
use rand::seq::SliceRandom;
use rand::SeedableRng;
use rand_chacha::ChaCha8Rng;

fn is_free(layer: usize, row: usize, col: usize) -> bool {
    !Layout::is_fixed_position(layer, row, col) && !Layout::is_blank_position(layer, row, col)
}

fn free_tokens(layout: &Layout) -> Vec<String> {
    let mut out = Vec::new();
    for layer in 0..NUM_LAYERS {
        for row in 0..ROWS {
            for col in 0..COLS {
                if is_free(layer, row, col) {
                    out.push(layout.layers[layer][row][col].clone());
                }
            }
        }
    }
    out
}

fn strings(items: &[&str]) -> Vec<String> {
    items.iter().map(|s| s.to_string()).collect()
}

#[test]
fn classification_counts() {
    let mut fixed = 0;
    let mut blank = 0;
    let mut free = 0;
    for layer in 0..NUM_LAYERS {
        for row in 0..ROWS {
            for col in 0..COLS {
                let f = Layout::is_fixed_position(layer, row, col);
                let b = Layout::is_blank_position(layer, row, col);
                assert!(!(f && b));
                if f {
                    fixed += 1;
                } else if b {
                    blank += 1;
                } else {
                    free += 1;
                }
            }
        }
    }
    assert_eq!(fixed, 9);
    assert_eq!(blank, 27);
    assert_eq!(free, 114);
    assert_eq!(FREE_COUNT, 114);
    assert_eq!(NUM_CELLS, 150);
}

#[test]
fn blank_cells_by_layer() {
    let mut per_layer = [0usize; 5];
    for layer in 0..NUM_LAYERS {
        for row in 0..ROWS {
            for col in 0..COLS {
                if Layout::is_blank_position(layer, row, col) {
                    per_layer[layer] += 1;
                }
            }
        }
    }
    assert_eq!(per_layer, [0, 6, 10, 4, 7]);
    assert!(Layout::is_blank_position(1, 0, 7));
    assert!(!Layout::is_blank_position(1, 0, 6));
    assert!(!Layout::is_blank_position(1, 2, 7));
    assert!(Layout::is_blank_position(2, 1, 1));
    assert!(!Layout::is_blank_position(2, 1, 2));
    assert!(Layout::is_blank_position(3, 1, 9));
    assert!(!Layout::is_blank_position(3, 2, 8));
    assert!(Layout::is_blank_position(4, 2, 9));
    assert!(!Layout::is_blank_position(4, 1, 9));
    assert!(!Layout::is_blank_position(5, 0, 0));
}

#[test]
fn fixed_cells_and_their_symbols() {
    let expected = [
        ((0, 1, 1), "◆"),
        ((0, 1, 2), "★"),
        ((0, 1, 7), "☆"),
        ((0, 1, 8), "◎"),
        ((0, 2, 7), "、"),
        ((0, 2, 8), "。"),
        ((1, 2, 7), "ー"),
        ((1, 2, 8), "・"),
        ((3, 2, 8), ";"),
    ];
    for ((l, r, c), symbol) in expected {
        assert!(Layout::is_fixed_position(l, r, c));
        assert_eq!(Layout::fixed_symbol(l, r, c), Some(symbol));
    }
    assert!(!Layout::is_fixed_position(0, 1, 3));
    assert!(!Layout::is_fixed_position(2, 2, 8));
    assert_eq!(Layout::fixed_symbol(0, 0, 0), None);
    assert_eq!(Layout::fixed_symbol(0, 1, 9), None);
    assert_eq!(Layout::fixed_symbol(0, 2, 6), None);
    assert_eq!(Layout::fixed_symbol(1, 2, 9), None);
    assert_eq!(Layout::fixed_symbol(3, 2, 7), None);
    assert_eq!(Layout::fixed_symbol(4, 2, 8), None);
}

#[test]
fn default_layout_is_blank() {
    let layout = Layout::default();
    assert_eq!(layout.layers.len(), 5);
    for layer in &layout.layers {
        assert_eq!(layer.len(), 3);
        for row in layer {
            assert_eq!(row.len(), 10);
            for cell in row {
                assert_eq!(cell, "　");
            }
        }
    }
    assert_eq!(BLANK, "　");
    assert_eq!(blank_string(), "　");
    assert!(is_blank_marker(&"　".to_string()));
    assert!(!is_blank_marker(&" ".to_string()));
    assert!(!is_blank_marker(&"".to_string()));
}

#[test]
fn curated_layout_matches_table() {
    let layout = Layout::improved_custom();
    for layer in 0..NUM_LAYERS {
        for row in 0..ROWS {
            for col in 0..COLS {
                assert_eq!(layout.layers[layer][row][col], CURATED[layer][row][col]);
                if Layout::is_blank_position(layer, row, col) {
                    assert_eq!(layout.layers[layer][row][col], "　");
                } else if let Some(symbol) = Layout::fixed_symbol(layer, row, col) {
                    assert_eq!(layout.layers[layer][row][col], symbol);
                } else {
                    assert_ne!(layout.layers[layer][row][col], "　");
                }
            }
        }
    }
    assert_eq!(layout.layers[0][0][4], "ちょ");
    assert_eq!(layout.layers[4][2][8], "ぴょ");
}

#[test]
fn curated_layout_has_no_duplicates() {
    let layout = Layout::improved_custom();
    let result = layout.validate(&HIRAGANA_FREQ_DEFAULT);
    assert!(result.duplicates.is_empty());
    assert!(result.is_valid());
    assert!(result.missing.is_empty());
    assert!(result.extra.is_empty());
    assert_eq!(result.total_found, 114);
    assert_eq!(result.total_expected, 114);
}

#[test]
fn random_is_repeatable() {
    let mut a = ChaCha8Rng::seed_from_u64(42);
    let mut b = ChaCha8Rng::seed_from_u64(42);
    let first = Layout::random(&mut a);
    let second = Layout::random(&mut b);
    assert_eq!(first.layers, second.layers);
}

#[test]
fn random_differs_between_seeds() {
    let mut a = ChaCha8Rng::seed_from_u64(1);
    let mut b = ChaCha8Rng::seed_from_u64(2);
    let first = Layout::random(&mut a);
    let second = Layout::random(&mut b);
    assert_ne!(first.layers, second.layers);
}

#[test]
fn random_places_the_whole_inventory() {
    let mut rng = ChaCha8Rng::seed_from_u64(7);
    let layout = Layout::random(&mut rng);
    let mut placed = free_tokens(&layout);
    assert_eq!(placed.len(), 114);
    let mut inventory = strings(&HIRAGANA_FREQ_DEFAULT);
    assert_ne!(placed, inventory);
    placed.sort();
    inventory.sort();
    assert_eq!(placed, inventory);
    let result = layout.validate(&HIRAGANA_FREQ_DEFAULT);
    assert!(result.is_valid());
    assert_eq!(result.total_found, 114);
    for layer in 0..NUM_LAYERS {
        for row in 0..ROWS {
            for col in 0..COLS {
                if let Some(symbol) = Layout::fixed_symbol(layer, row, col) {
                    assert_eq!(layout.layers[layer][row][col], symbol);
                } else if Layout::is_blank_position(layer, row, col) {
                    assert_eq!(layout.layers[layer][row][col], "　");
                }
            }
        }
    }
}

#[test]
fn random_follows_the_generator() {
    let mut rng = ChaCha8Rng::seed_from_u64(2024);
    let layout = Layout::random(&mut rng);
    let mut reference = ChaCha8Rng::seed_from_u64(2024);
    let mut tokens = strings(&HIRAGANA_FREQ_DEFAULT);
    tokens.shuffle(&mut reference);
    assert_eq!(free_tokens(&layout), tokens);
    let placed = Layout::place_tokens(&tokens).unwrap();
    assert_eq!(placed.layers, layout.layers);
}

#[test]
fn successive_draws_differ() {
    let mut rng = ChaCha8Rng::seed_from_u64(5);
    let first = Layout::random(&mut rng);
    let second = Layout::random(&mut rng);
    assert_ne!(first.layers, second.layers);
}

#[test]
fn short_candidate_list_is_padded() {
    let candidates = ["あ", "い", "う", "しょ"];
    let mut rng = ChaCha8Rng::seed_from_u64(3);
    let layout = Layout::random_with_chars(&mut rng, &candidates);
    let placed = free_tokens(&layout);
    assert_eq!(placed.len(), 114);
    assert_eq!(placed.iter().filter(|t| t.as_str() == "　").count(), 110);
    for c in candidates {
        assert_eq!(placed.iter().filter(|t| t.as_str() == c).count(), 1);
    }
    let empty: [&str; 0] = [];
    let mut rng = ChaCha8Rng::seed_from_u64(3);
    let bare = Layout::random_with_chars(&mut rng, &empty);
    assert!(free_tokens(&bare).iter().all(|t| t == "　"));
    assert_eq!(bare.layers[0][1][1], "◆");
}

#[test]
fn long_candidate_list_is_cut() {
    let mut long_a: Vec<&str> = HIRAGANA_FREQ_DEFAULT.to_vec();
    long_a.push("てぃ");
    long_a.push("ふぁ");
    let mut long_b: Vec<&str> = HIRAGANA_FREQ_DEFAULT.to_vec();
    long_b.push("うぃ");
    let mut rng_a = ChaCha8Rng::seed_from_u64(11);
    let mut rng_b = ChaCha8Rng::seed_from_u64(11);
    let mut rng_c = ChaCha8Rng::seed_from_u64(11);
    let a = Layout::random_with_chars(&mut rng_a, &long_a);
    let b = Layout::random_with_chars(&mut rng_b, &long_b);
    let c = Layout::random(&mut rng_c);
    assert_eq!(a.layers, b.layers);
    assert_eq!(a.layers, c.layers);
    assert!(a.find_char("てぃ").is_none());
}

#[test]
fn place_tokens_wants_one_token_per_free_cell() {
    assert!(Layout::place_tokens(&Vec::new()).is_none());
    assert!(Layout::place_tokens(&vec!["あ".to_string(); 113]).is_none());
    assert!(Layout::place_tokens(&vec!["あ".to_string(); 115]).is_none());
    let tokens: Vec<String> = (0..114).map(|i| format!("t{}", i)).collect();
    let layout = Layout::place_tokens(&tokens).unwrap();
    assert_eq!(free_tokens(&layout), tokens);
    assert_eq!(layout.layers[0][0][0], "t0");
    assert_eq!(layout.layers[0][1][0], "t10");
    assert_eq!(layout.layers[0][1][1], "◆");
    assert_eq!(layout.layers[0][1][3], "t11");
    assert_eq!(layout.layers[1][0][7], "　");
    assert_eq!(layout.layers[3][2][8], ";");
    assert_eq!(layout.layers[4][2][8], "t113");
    assert_eq!(layout.layers[4][2][9], "　");
}

#[test]
fn find_char_gives_first_cell() {
    let layout = Layout::improved_custom();
    assert_eq!(layout.find_char("ぐ"), Some(KeyPos::new(0, 0, 0)));
    assert_eq!(layout.find_char("ちょ"), Some(KeyPos::new(0, 0, 4)));
    assert_eq!(layout.find_char("ち"), Some(KeyPos::new(0, 1, 4)));
    assert_eq!(layout.find_char(";"), Some(KeyPos::new(3, 2, 8)));
    assert_eq!(layout.find_char("　"), Some(KeyPos::new(1, 0, 7)));
    assert_eq!(layout.find_char("ぴょ"), Some(KeyPos::new(4, 2, 8)));
    assert_eq!(layout.find_char("x"), None);
    assert_eq!(layout.find_char(""), None);
    let mut twice = Layout::default();
    twice.layers[2][1][5] = "あ".to_string();
    twice.layers[1][1][5] = "あ".to_string();
    assert_eq!(twice.find_char("あ"), Some(KeyPos::new(1, 1, 5)));
}

#[test]
fn char_map_keeps_first_cell_of_each_leading_char() {
    let layout = Layout::improved_custom();
    let map = layout.build_char_map();
    assert_eq!(map.get(&('ぐ' as u32)), Some(&KeyPos::new(0, 0, 0)));
    assert_eq!(map.get(&('ち' as u32)), Some(&KeyPos::new(0, 0, 4)));
    assert_eq!(map.get(&('◆' as u32)), Some(&KeyPos::new(0, 1, 1)));
    assert_eq!(map.get(&(';' as u32)), Some(&KeyPos::new(3, 2, 8)));
    assert_eq!(map.get(&('　' as u32)), None);
    assert_eq!(map.get(&('ゅ' as u32)), None);
    let mut small = Layout::default();
    small.layers[0][0][0] = String::new();
    small.layers[0][0][1] = "\0x".to_string();
    small.layers[0][0][2] = "しょ".to_string();
    small.layers[4][2][9] = "し".to_string();
    let map = small.build_char_map();
    assert_eq!(map.len(), 1);
    assert_eq!(map.get(&('し' as u32)), Some(&KeyPos::new(0, 0, 2)));
    assert!(Layout::default().build_char_map().is_empty());
}

#[test]
fn format_writes_layers_and_rows() {
    let text = Layout::default().format();
    let row = format!("  {}\n", "　 ".repeat(10));
    let mut expected = String::new();
    for label in [
        "Layer 0 (無シフト)",
        "Layer 1 (Aシフト)",
        "Layer 2 (Bシフト)",
        "Layer 3 (Cシフト)",
        "Layer 4 (Dシフト)",
    ] {
        expected.push_str(label);
        expected.push_str(":\n");
        for _ in 0..3 {
            expected.push_str(&row);
        }
        expected.push('\n');
    }
    assert_eq!(text, expected);
    let curated = Layout::improved_custom().format();
    assert!(curated.starts_with("Layer 0 (無シフト):\n  ぐ も ら れ ちょ ゆ だ り を ぜ \n  し ◆ ★ う ち け い ☆ ◎ ん \n"));
    assert!(curated.ends_with("  　 　 ぴ げ ぢゃ ぴゅ む ぁ ぴょ 　 \n\n"));
}

#[test]
fn key_position_properties() {
    let p = KeyPos::new(2, 1, 4);
    assert_eq!((p.layer, p.row, p.col), (2, 1, 4));
    assert!(p.is_home());
    assert!(p.is_left_hand());
    assert!(!KeyPos::new(0, 0, 5).is_home());
    assert!(!KeyPos::new(0, 2, 5).is_left_hand());
    let fingers: Vec<usize> = (0..10).map(|c| KeyPos::new(0, 0, c).finger()).collect();
    assert_eq!(fingers, vec![0, 1, 2, 3, 3, 3, 3, 2, 1, 0]);
    assert_eq!(KeyPos::new(0, 0, 10).finger(), 0);
    assert_eq!(KeyPos::default(), KeyPos::new(0, 0, 0));
}

#[test]
fn weight_factors() {
    assert_eq!(KeyPos::new(0, 1, 3).weight_thousandths(), 1000);
    assert_eq!(KeyPos::new(0, 0, 0).weight_thousandths(), 1820);
    assert_eq!(KeyPos::new(1, 2, 2).weight_thousandths(), 2640);
    assert_eq!(KeyPos::new(2, 1, 8).weight_thousandths(), 2640);
    assert_eq!(KeyPos::new(3, 0, 7).weight_thousandths(), 3146);
    assert_eq!(KeyPos::new(4, 0, 9).weight_thousandths(), 4186);
    assert_eq!(KeyPos::new(9, 9, 99).weight_thousandths(), 9000);
    let rows: Vec<u32> = (0..4).map(|r| KeyPos::new(0, r, 0).row_tenths()).collect();
    assert_eq!(rows, vec![13, 10, 12, 20]);
    let cols: Vec<u32> = (0..11).map(|c| KeyPos::new(0, 0, c).col_tenths()).collect();
    assert_eq!(cols, vec![14, 12, 11, 10, 10, 10, 10, 11, 12, 14, 15]);
    let layers: Vec<u32> = (0..6).map(|l| KeyPos::new(l, 0, 0).layer_tenths()).collect();
    assert_eq!(layers, vec![10, 20, 22, 22, 23, 30]);
}

#[test]
fn position_costs_vanish_off_the_free_cells() {
    for layer in 0..NUM_LAYERS {
        for row in 0..ROWS {
            for col in 0..COLS {
                let cost = position_cost_tenths(layer, row, col);
                assert_eq!(cost, POSITION_COST_TENTHS[layer][row][col]);
                assert_eq!(cost == 0, !is_free(layer, row, col));
            }
        }
    }
    assert_eq!(position_cost_tenths(0, 0, 0), 37);
    assert_eq!(position_cost_tenths(0, 1, 3), 10);
    assert_eq!(position_cost_tenths(1, 1, 7), 29);
    assert_eq!(position_cost_tenths(3, 0, 5), 66);
    assert_eq!(position_cost_tenths(4, 2, 8), 48);
}

#[test]
fn tsuki_layout_positions() {
    let tsuki = TsukiLayout::new();
    assert_eq!(tsuki.char_positions.len(), 56);
    assert_eq!(tsuki.char_positions.get(&('そ' as u32)), Some(&KeyPos::new(0, 0, 0)));
    assert_eq!(tsuki.char_positions.get(&('き' as u32)), Some(&KeyPos::new(0, 1, 9)));
    assert_eq!(tsuki.char_positions.get(&('。' as u32)), Some(&KeyPos::new(0, 2, 8)));
    assert_eq!(tsuki.char_positions.get(&('ぁ' as u32)), Some(&KeyPos::new(1, 0, 0)));
    assert_eq!(tsuki.char_positions.get(&('ー' as u32)), Some(&KeyPos::new(1, 2, 8)));
    assert_eq!(tsuki.char_positions.get(&('ぉ' as u32)), Some(&KeyPos::new(1, 2, 9)));
    for mark in ['☆', '★', '゛', '゜'] {
        assert_eq!(tsuki.char_positions.get(&(mark as u32)), None);
    }
    assert_eq!(TsukiLayout::default().char_positions, tsuki.char_positions);
}

#[test]
fn phonemes_of_kana() {
    assert_eq!(romaji_phonemes('あ'), (None, Some("a")));
    assert_eq!(romaji_phonemes('き'), (Some("k"), Some("i")));
    assert_eq!(romaji_phonemes('し'), (Some("s"), Some("i")));
    assert_eq!(romaji_phonemes('つ'), (Some("t"), Some("u")));
    assert_eq!(romaji_phonemes('ん'), (Some("n"), None));
    assert_eq!(romaji_phonemes('を'), (Some("w"), Some("o")));
    assert_eq!(romaji_phonemes('ぢ'), (Some("d"), Some("i")));
    assert_eq!(romaji_phonemes('ぽ'), (Some("p"), Some("o")));
    assert_eq!(romaji_phonemes('ゃ'), (None, None));
    assert_eq!(romaji_phonemes('ー'), (None, None));
    assert_eq!(romaji_phonemes('a'), (None, None));
    let mut with_vowel = 0;
    let mut with_consonant = 0;
    for code in 0x3041u32..=0x3096 {
        let (c, v) = romaji_phonemes(char::from_u32(code).unwrap());
        with_vowel += v.is_some() as usize;
        with_consonant += c.is_some() as usize;
    }
    assert_eq!(with_vowel, 70);
    assert_eq!(with_consonant, 66);
}

#[test]
fn colemak_positions_table() {
    assert_eq!(COLEMAK_POSITIONS.len(), 26);
    assert_eq!(COLEMAK_POSITIONS[0], ("a", 1, 0));
    assert_eq!(COLEMAK_POSITIONS[25], ("c", 2, 2));
    let mut letters: Vec<&str> = COLEMAK_POSITIONS.iter().map(|e| e.0).collect();
    letters.sort();
    letters.dedup();
    assert_eq!(letters.len(), 26);
}

#[test]
fn inventory_has_one_grapheme_per_free_cell() {
    assert_eq!(HIRAGANA_FREQ_DEFAULT.len(), 114);
    let unique = distinct(&HIRAGANA_FREQ_DEFAULT);
    assert_eq!(unique.len(), 114);
    assert_eq!(HIRAGANA_FREQ_DEFAULT[0], "い");
    assert_eq!(HIRAGANA_FREQ_DEFAULT[113], "ぢゃ");
}

#[test]
fn token_list_helpers() {
    let list = strings(&["あ", "い", "あ", "う"]);
    assert_eq!(position_of(&list, &"あ".to_string()), Some(0));
    assert_eq!(position_of(&list, &"う".to_string()), Some(3));
    assert_eq!(position_of(&list, &"え".to_string()), None);
    assert_eq!(distinct(&["あ", "い", "あ", "う", "い"]), strings(&["あ", "い", "う"]));
    assert_eq!(
        difference(&strings(&["あ", "い", "う"]), &strings(&["い", "え"])),
        strings(&["あ", "う"])
    );
    assert!(difference(&strings(&["あ"]), &strings(&["あ"])).is_empty());
}

#[test]
fn padded_layout_is_valid() {
    let candidates = ["あ", "い", "う", "しょ"];
    let mut rng = ChaCha8Rng::seed_from_u64(9);
    let layout = Layout::random_with_chars(&mut rng, &candidates);
    let result = layout.validate(&candidates);
    assert!(result.is_valid());
    assert_eq!(result.total_found, 4);
    assert!(result.missing.is_empty());
    assert!(result.extra.is_empty());
}

#[test]
fn repeated_candidates_show_up_as_duplicates() {
    let candidates = ["あ", "い", "あ"];
    let mut rng = ChaCha8Rng::seed_from_u64(9);
    let layout = Layout::random_with_chars(&mut rng, &candidates);
    let result = layout.validate(&candidates);
    assert!(!result.is_valid());
    assert_eq!(result.duplicates.len(), 1);
    assert_eq!(result.duplicates[0].0, "あ");
    assert_eq!(result.duplicates[0].1.len(), 2);
    assert_eq!(result.total_found, 2);
}

#[test]
fn grid_shape_is_checked() {
    assert!(Layout::default().has_grid_shape());
    assert!(Layout::improved_custom().has_grid_shape());
    assert!(!Layout { layers: Vec::new() }.has_grid_shape());
    let mut short_row = Layout::default();
    short_row.layers[4][2].pop();
    assert!(!short_row.has_grid_shape());
    let mut extra_row = Layout::default();
    extra_row.layers[1].push(vec!["　".to_string(); 10]);
    assert!(!extra_row.has_grid_shape());
    let mut extra_layer = Layout::default();
    extra_layer.layers.push(Vec::new());
    assert!(!extra_layer.has_grid_shape());
}
