use kana_layout::inventory::HIRAGANA_FREQ_DEFAULT;
use kana_layout::layout::Layout;
use kana_layout::validation::ValidationResult;

#[test]
fn two_cells_with_one_grapheme_are_a_duplicate() {
    let mut layout = Layout::default();
    layout.layers[0][0][0] = "あ".to_string();
    layout.layers[2][1][5] = "あ".to_string();
    layout.layers[0][0][1] = "い".to_string();
    let result = layout.validate(&["あ", "い"]);
    assert_eq!(result.duplicates.len(), 1);
    assert_eq!(result.duplicates[0].0, "あ");
    assert_eq!(result.duplicates[0].1, vec![(0, 0, 0), (2, 1, 5)]);
    assert!(!result.is_valid());
    assert_eq!(result.total_found, 2);
    assert_eq!(result.total_expected, 2);
    assert!(result.missing.is_empty());
    assert!(result.extra.is_empty());
}

#[test]
fn cells_of_a_duplicate_come_in_scan_order() {
    let mut layout = Layout::default();
    layout.layers[4][1][9] = "か".to_string();
    layout.layers[0][2][0] = "か".to_string();
    layout.layers[1][0][0] = "か".to_string();
    layout.layers[3][0][0] = "き".to_string();
    layout.layers[0][0][9] = "き".to_string();
    layout.layers[0][0][5] = "く".to_string();
    let result = layout.validate(&[]);
    let mut duplicates = result.duplicates.clone();
    duplicates.sort();
    assert_eq!(
        duplicates,
        vec![
            ("か".to_string(), vec![(0, 2, 0), (1, 0, 0), (4, 1, 9)]),
            ("き".to_string(), vec![(0, 0, 9), (3, 0, 0)]),
        ]
    );
    assert!(!result.is_valid());
    assert_eq!(result.total_found, 3);
    assert_eq!(result.total_expected, 0);
    let mut extra = result.extra.clone();
    extra.sort();
    assert_eq!(extra, vec!["か".to_string(), "き".to_string(), "く".to_string()]);
}

#[test]
fn fixed_and_blank_cells_are_not_scanned() {
    let mut layout = Layout::default();
    layout.layers[0][1][1] = "あ".to_string();
    layout.layers[0][2][7] = "あ".to_string();
    layout.layers[1][0][9] = "あ".to_string();
    layout.layers[2][0][0] = "あ".to_string();
    layout.layers[0][0][0] = "あ".to_string();
    let result = layout.validate(&["あ"]);
    assert!(result.is_valid());
    assert!(result.duplicates.is_empty());
    assert_eq!(result.total_found, 1);
    let fixed_only = Layout::place_tokens(&vec!["　".to_string(); 114]).unwrap();
    let result = fixed_only.validate(&["◆", "あ"]);
    assert_eq!(result.total_found, 0);
    let mut missing = result.missing.clone();
    missing.sort();
    assert_eq!(missing, vec!["◆".to_string(), "あ".to_string()]);
    assert!(result.extra.is_empty());
}

#[test]
fn empty_and_blank_tokens_are_not_placed() {
    let mut layout = Layout::default();
    layout.layers[0][0][0] = String::new();
    layout.layers[0][0][1] = String::new();
    let result = layout.validate(&["あ"]);
    assert!(result.is_valid());
    assert_eq!(result.total_found, 0);
    assert_eq!(result.total_expected, 1);
    assert_eq!(result.missing, vec!["あ".to_string()]);
    assert!(result.extra.is_empty());
}

#[test]
fn missing_and_extra_do_not_affect_validity() {
    let mut layout = Layout::default();
    layout.layers[0][0][0] = "あ".to_string();
    layout.layers[0][0][1] = "x".to_string();
    let result = layout.validate(&["あ", "い", "う", "い"]);
    assert!(result.is_valid());
    assert_eq!(result.total_found, 2);
    assert_eq!(result.total_expected, 3);
    let mut missing = result.missing.clone();
    missing.sort();
    assert_eq!(missing, vec!["い".to_string(), "う".to_string()]);
    assert_eq!(result.extra, vec!["x".to_string()]);
}

#[test]
fn expected_set_may_exceed_the_free_cells() {
    let mut expected: Vec<&str> = HIRAGANA_FREQ_DEFAULT.to_vec();
    expected.push("てぃ");
    expected.push("ふぁ");
    let result = Layout::improved_custom().validate(&expected);
    assert!(result.is_valid());
    assert_eq!(result.total_found, 114);
    assert_eq!(result.total_expected, 116);
    let mut missing = result.missing.clone();
    missing.sort();
    assert_eq!(missing, vec!["てぃ".to_string(), "ふぁ".to_string()]);
}

#[test]
fn report_of_a_valid_layout() {
    let result = Layout::improved_custom().validate(&HIRAGANA_FREQ_DEFAULT);
    assert_eq!(
        result.report(),
        "\n=== 配列検証結果 ===\n配置文字数: 114 (配置可能: 114)\n✓ 重複なし\n\n✓ 検証成功: 重複なし、配列は正常です\n"
    );
}

#[test]
fn report_lists_duplicates_missing_and_extra() {
    let result = ValidationResult {
        duplicates: vec![
            ("あ".to_string(), vec![(0, 0, 0), (2, 1, 5)]),
            ("しょ".to_string(), vec![(1, 2, 3), (3, 0, 7), (4, 1, 9)]),
        ],
        missing: vec!["い".to_string()],
        extra: vec!["x".to_string(), "y".to_string()],
        total_found: 12,
        total_expected: 11,
    };
    assert!(!result.is_valid());
    assert_eq!(
        result.report(),
        "\n=== 配列検証結果 ===\n配置文字数: 12 (配置可能: 114)\n✗ 重複あり (2 件):\n  「あ」: L0[0][0], L2[1][5]\n  「しょ」: L1[2][3], L3[0][7], L4[1][9]\n※ 未配置文字 (1 件): 配置枠より文字数が多いため正常\n※ 期待リスト外の文字 (2 件):\n「x」「y」\n\n✗ 検証失敗: 重複があります\n"
    );
}
