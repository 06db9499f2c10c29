use kana_layout::corpus::CorpusStats;
use kana_layout::ngram::{checked_total_of, count_windows, key_of, total_of, window_has_noise};
use kana_layout::text::{chars_of, decimal_string, parse_usize};

fn gram(s: &str) -> Vec<char> {
    s.chars().collect()
}

fn lines(items: &[&str]) -> Vec<String> {
    items.iter().map(|s| s.to_string()).collect()
}

#[test]
fn test_from_text() {
    let text = "あいうえお";
    let stats = CorpusStats::from_text(text);

    assert_eq!(stats.char_freq.len(), 5);
    assert_eq!(stats.bigram_freq.len(), 4);
    assert_eq!(stats.trigram_freq.len(), 3);
}

#[test]
fn test_parse_ngram_line() {
    let line = "1234\tあい\t2";
    let result = CorpusStats::parse_ngram_line(line);
    assert_eq!(result, Some((1234, "あい".to_string())));
}

#[test]
fn from_text_counts_each_window_once() {
    let stats = CorpusStats::from_text("あいうえお");
    assert_eq!(stats.fourgram_freq.len(), 2);
    assert!(stats.char_freq.values().all(|&n| n == 1));
    assert!(stats.bigram_freq.values().all(|&n| n == 1));
    assert!(stats.trigram_freq.values().all(|&n| n == 1));
    assert!(stats.fourgram_freq.values().all(|&n| n == 1));
    for c in ["あ", "い", "う", "え", "お"] {
        assert_eq!(stats.count(&gram(c)), 1);
    }
    for g in ["あい", "いう", "うえ", "えお", "あいう", "いうえ", "うえお", "あいうえ", "いうえお"] {
        assert_eq!(stats.count(&gram(g)), 1);
    }
    assert_eq!(stats.count(&gram("おあ")), 0);
    assert_eq!(stats.count(&gram("")), 0);
    assert_eq!(stats.count(&gram("あいうえお")), 0);
}

#[test]
fn from_text_accumulates_repeats() {
    let stats = CorpusStats::from_text("ああああ");
    assert_eq!(stats.char_freq.len(), 1);
    assert_eq!(stats.count(&gram("あ")), 4);
    assert_eq!(stats.count(&gram("ああ")), 3);
    assert_eq!(stats.count(&gram("あああ")), 2);
    assert_eq!(stats.count(&gram("ああああ")), 1);
    assert_eq!(stats.total_chars(), 4);
    assert_eq!(stats.total_bigrams(), 3);
    assert_eq!(stats.total_trigrams(), 2);
}

#[test]
fn from_text_of_short_and_empty_text() {
    let empty = CorpusStats::from_text("");
    assert_eq!(empty.char_freq.len(), 0);
    assert_eq!(empty.bigram_freq.len(), 0);
    assert_eq!(empty.total_chars(), 0);
    let two = CorpusStats::from_text("かな");
    assert_eq!(two.char_freq.len(), 2);
    assert_eq!(two.bigram_freq.len(), 1);
    assert_eq!(two.trigram_freq.len(), 0);
    assert_eq!(two.fourgram_freq.len(), 0);
}

#[test]
fn from_text_leaves_out_noise() {
    let stats = CorpusStats::from_text("あ〓いう");
    assert_eq!(stats.count(&gram("〓")), 0);
    assert_eq!(stats.count(&gram("あ")), 1);
    assert_eq!(stats.count(&gram("あ〓")), 0);
    assert_eq!(stats.count(&gram("〓い")), 0);
    assert_eq!(stats.count(&gram("いう")), 1);
    assert_eq!(stats.char_freq.len(), 3);
    assert_eq!(stats.bigram_freq.len(), 1);
    assert_eq!(stats.trigram_freq.len(), 0);
    assert_eq!(stats.fourgram_freq.len(), 0);
}

#[test]
fn new_and_default_are_empty() {
    let a = CorpusStats::new();
    let b = CorpusStats::default();
    for s in [&a, &b] {
        assert!(s.char_freq.is_empty());
        assert!(s.bigram_freq.is_empty());
        assert!(s.trigram_freq.is_empty());
        assert!(s.fourgram_freq.is_empty());
        assert_eq!(s.total_chars(), 0);
        assert_eq!(s.total_bigrams(), 0);
        assert_eq!(s.total_trigrams(), 0);
    }
}

#[test]
fn parse_line_rejects_what_is_no_count() {
    assert_eq!(CorpusStats::parse_ngram_line("abc\tあい\t2"), None);
    assert_eq!(CorpusStats::parse_ngram_line("\tあい\t2"), None);
    assert_eq!(CorpusStats::parse_ngram_line("12 \tあい"), None);
    assert_eq!(CorpusStats::parse_ngram_line(" 12\tあい"), None);
    assert_eq!(CorpusStats::parse_ngram_line("-1\tあい"), None);
    assert_eq!(CorpusStats::parse_ngram_line("+\tあい"), None);
    assert_eq!(CorpusStats::parse_ngram_line("１２\tあい"), None);
    assert_eq!(CorpusStats::parse_ngram_line("1.5\tあい"), None);
    assert_eq!(CorpusStats::parse_ngram_line("99999999999999999999999999\tあ"), None);
}

#[test]
fn parse_line_needs_two_fields() {
    assert_eq!(CorpusStats::parse_ngram_line("1234"), None);
    assert_eq!(CorpusStats::parse_ngram_line(""), None);
    assert_eq!(CorpusStats::parse_ngram_line("1234\t"), Some((1234, String::new())));
    assert_eq!(CorpusStats::parse_ngram_line("1234\t\t2"), Some((1234, String::new())));
    assert_eq!(CorpusStats::parse_ngram_line("7\tあ"), Some((7, "あ".to_string())));
    assert_eq!(CorpusStats::parse_ngram_line("7\tあ\t1\textra"), Some((7, "あ".to_string())));
}

#[test]
fn parse_line_reads_counts_as_the_standard_parser_does() {
    let fields = [
        "0", "007", "+5", "+0", "++5", "+", "", "-", "-0", "18446744073709551615",
        "18446744073709551616", "4294967295", "4294967296", "12a", "a12", "1_000", "0x10", " 1",
        "1 ", "９",
    ];
    for f in fields {
        let line = format!("{}\tあ", f);
        let expected = f.parse::<usize>().ok().map(|n| (n, "あ".to_string()));
        assert_eq!(CorpusStats::parse_ngram_line(&line), expected);
    }
}

#[test]
fn parse_usize_reads_part_of_a_line() {
    let chars = gram("ab+120\tz");
    assert_eq!(parse_usize(&chars, 2, 6), Some(120));
    assert_eq!(parse_usize(&chars, 3, 6), Some(120));
    assert_eq!(parse_usize(&chars, 3, 5), Some(12));
    assert_eq!(parse_usize(&chars, 3, 3), None);
    assert_eq!(parse_usize(&chars, 2, 3), None);
    assert_eq!(parse_usize(&chars, 0, 6), None);
    assert_eq!(parse_usize(&chars, 3, 7), None);
}

#[test]
fn ngram_lines_fill_the_table_of_their_order() {
    let g1 = lines(&["10\tあ\t1", "20\tい\t1", "oops", "5\tあい\t2", "3\t〓\t1"]);
    let g2 = lines(&["7\tあい\t2", "9\tあ\t1", "4\tい〓\t2"]);
    let stats = CorpusStats::from_ngram_lines(Some(&g1), Some(&g2), None, None);
    assert_eq!(stats.char_freq.len(), 2);
    assert_eq!(stats.count(&gram("あ")), 10);
    assert_eq!(stats.count(&gram("い")), 20);
    assert_eq!(stats.count(&gram("〓")), 0);
    assert_eq!(stats.bigram_freq.len(), 1);
    assert_eq!(stats.count(&gram("あい")), 7);
    assert!(stats.trigram_freq.is_empty());
    assert!(stats.fourgram_freq.is_empty());
    assert_eq!(stats.total_chars(), 30);
    assert_eq!(stats.total_bigrams(), 7);
    assert_eq!(stats.total_trigrams(), 0);
}

#[test]
fn ngram_lines_later_line_replaces_earlier() {
    let g3 = lines(&["1\tあいう\t3", "2\tいうえ\t3", "5\tあいう\t3"]);
    let g4 = lines(&["8\tあいうえ\t4", "0\tあいうえ\t4"]);
    let stats = CorpusStats::from_ngram_lines(None, None, Some(&g3), Some(&g4));
    assert_eq!(stats.trigram_freq.len(), 2);
    assert_eq!(stats.count(&gram("あいう")), 5);
    assert_eq!(stats.count(&gram("いうえ")), 2);
    assert_eq!(stats.fourgram_freq.len(), 1);
    assert_eq!(stats.count(&gram("あいうえ")), 0);
    assert_eq!(stats.total_trigrams(), 7);
    assert!(stats.char_freq.is_empty());
}

#[test]
fn declared_order_is_not_checked() {
    let g1 = lines(&["4\tあ\t9", "6\tい"]);
    let stats = CorpusStats::from_ngram_lines(Some(&g1), None, None, None);
    assert_eq!(stats.count(&gram("あ")), 4);
    assert_eq!(stats.count(&gram("い")), 6);
}

#[test]
fn summary_lists_types_and_total() {
    let stats = CorpusStats::from_text("あいうえお");
    assert_eq!(
        stats.summary(),
        "Corpus Stats:\n  1-gram types: 5\n  2-gram types: 4\n  3-gram types: 3\n  4-gram types: 2\n  Total chars: 5"
    );
    let empty = CorpusStats::new();
    assert_eq!(
        empty.summary(),
        "Corpus Stats:\n  1-gram types: 0\n  2-gram types: 0\n  3-gram types: 0\n  4-gram types: 0\n  Total chars: 0"
    );
    let g1 = lines(&["1200\tあ", "34\tい"]);
    let table = CorpusStats::from_ngram_lines(Some(&g1), None, None, None);
    assert_eq!(
        table.summary(),
        "Corpus Stats:\n  1-gram types: 2\n  2-gram types: 0\n  3-gram types: 0\n  4-gram types: 0\n  Total chars: 1234"
    );
}

#[test]
fn keys_tell_grams_apart() {
    let chars = gram("あいあい〓");
    assert_eq!(key_of(&chars, 0, 1), 'あ' as u128);
    assert_eq!(key_of(&chars, 0, 2), ('あ' as u128) * 0x20_0000 + 'い' as u128);
    assert_eq!(key_of(&chars, 0, 2), key_of(&chars, 2, 2));
    assert_ne!(key_of(&chars, 0, 2), key_of(&chars, 1, 2));
    assert_eq!(key_of(&chars, 1, 0), 0);
    assert_eq!(
        key_of(&chars, 0, 4),
        ((('あ' as u128) * 0x20_0000 + 'い' as u128) * 0x20_0000 + 'あ' as u128) * 0x20_0000
            + 'い' as u128
    );
    assert!(!window_has_noise(&chars, 0, 4));
    assert!(window_has_noise(&chars, 1, 4));
    assert!(window_has_noise(&chars, 4, 1));
    assert!(!window_has_noise(&chars, 4, 0));
}

#[test]
fn window_counts_and_totals() {
    let chars = gram("あいあい");
    let pairs = count_windows(&chars, 2);
    assert_eq!(pairs.len(), 2);
    assert_eq!(pairs[&key_of(&chars, 0, 2)], 2);
    assert_eq!(pairs[&key_of(&chars, 1, 2)], 1);
    assert_eq!(total_of(&pairs), 3);
    let fours = count_windows(&gram("あい"), 4);
    assert!(fours.is_empty());
    assert_eq!(total_of(&fours), 0);
}

#[test]
fn characters_and_numerals() {
    assert_eq!(chars_of("しょ;a"), vec!['し', 'ょ', ';', 'a']);
    assert_eq!(chars_of(""), Vec::<char>::new());
    assert_eq!(decimal_string(0), "0");
    assert_eq!(decimal_string(7), "7");
    assert_eq!(decimal_string(10), "10");
    assert_eq!(decimal_string(114), "114");
    assert_eq!(decimal_string(9070), "9070");
    assert_eq!(decimal_string(usize::MAX), usize::MAX.to_string());
}

#[test]
fn totals_that_do_not_fit_are_told() {
    let big = format!("{}\tあ", usize::MAX);
    let fits = CorpusStats::from_ngram_lines(Some(&vec![big.clone()]), None, None, None);
    assert_eq!(checked_total_of(&fits.char_freq), Some(usize::MAX));
    assert_eq!(fits.total_chars(), usize::MAX);
    let over = CorpusStats::from_ngram_lines(
        Some(&vec![big, "1\tい".to_string()]),
        None,
        None,
        None,
    );
    assert_eq!(over.char_freq.len(), 2);
    assert_eq!(checked_total_of(&over.char_freq), None);
    assert_eq!(checked_total_of(&over.bigram_freq), Some(0));
}
