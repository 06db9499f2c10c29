//! Corpus statistics: how often each 1-, 2-, 3- and 4-gram occurs.
//!
//! The statistics are built either from the lines of frequency tables or
//! from raw text. Each of the four tables is keyed by [`gram_key`]; what a
//! table means is given by [`gram_counts`].

use crate::ngram::{
    clean_windows, count_windows, gram_counts, gram_key, has_noise, key_of, keys_have_order,
    lemma_gram_key_bound, lemma_gram_key_injective, lemma_table_len, table_total, text_counts,
    total_of, window, window_has_noise, MAX_ORDER,
};
use crate::text::{chars_of, decimal, decimal_string, parse_count, parse_usize};
use crate::tokens::token_views;
use std::collections::HashMap;
use vstd::prelude::*;
use vstd::string::StringExecFns;

verus! {

broadcast use vstd::std_specs::hash::group_hash_axioms;

/// Where the field that starts at `from` ends: at the next tab, or at the
/// end of the line.
pub open spec fn field_end(line: Seq<char>, from: int) -> int
    decreases line.len() - from,
{
    if from >= line.len() {
        line.len() as int
    } else if line[from] == '\t' {
        from
    } else {
        field_end(line, from + 1)
    }
}

/// What a line of a frequency table says: the count in its first field and
/// the character sequence in its second. A line with a single field, or
/// whose first field is no count, says nothing.
pub open spec fn parsed_line(line: Seq<char>) -> Option<(nat, Seq<char>)> {
    let first_end = field_end(line, 0);
    if first_end >= line.len() {
        None
    } else {
        match parse_count(line.subrange(0, first_end)) {
            Some(count) => Some(
                (count, line.subrange(first_end + 1, field_end(line, first_end + 1))),
            ),
            None => None,
        }
    }
}

/// The entry that a line adds to the table of order `n`: its sequence and
/// count, if the sequence has exactly `n` characters and no noise.
pub open spec fn line_entry(line: Seq<char>, n: nat) -> Option<(Seq<char>, nat)> {
    match parsed_line(line) {
        Some((count, gram)) => if gram.len() == n && !has_noise(gram) {
            Some((gram, count))
        } else {
            None
        },
        None => None,
    }
}

/// The table of order `n` that a list of lines gives: each line that has an
/// entry sets the count of its sequence, so a later line replaces an
/// earlier one.
pub open spec fn lines_counts(lines: Seq<Seq<char>>, n: nat) -> Map<Seq<char>, nat>
    decreases lines.len(),
{
    if lines.len() == 0 {
        Map::empty()
    } else {
        let earlier = lines_counts(lines.drop_last(), n);
        match line_entry(lines.last(), n) {
            Some((gram, count)) => earlier.insert(gram, count),
            None => earlier,
        }
    }
}

/// Finds the end of the field that starts at `from`.
fn find_field_end(chars: &Vec<char>, from: usize) -> (end: usize)
    requires
        from <= chars@.len(),
    ensures
        end == field_end(chars@, from as int),
        from <= end <= chars@.len(),
{
    let mut i: usize = from;
    while i < chars.len() && chars[i] != '\t'
        invariant
            from <= i <= chars@.len(),
            field_end(chars@, from as int) == field_end(chars@, i as int),
        decreases chars@.len() - i,
    {
        i += 1;
    }
    i
}

/// Builds the table of order `n` from the lines of a frequency table.
/// Lines that say nothing, and sequences of another length or with noise,
/// are passed over.
pub fn table_from_lines(lines: &Vec<String>, n: usize) -> (table: HashMap<u128, usize>)
    requires
        1 <= n <= 4,
    ensures
        keys_have_order(table@, n as nat),
        gram_counts(table@, n as nat) == lines_counts(token_views(lines@), n as nat),
{
    let ghost texts = token_views(lines@);
    let mut table: HashMap<u128, usize> = HashMap::new();
    assert(gram_counts(table@, n as nat) =~= lines_counts(texts.take(0), n as nat));
    for i in 0..lines.len()
        invariant
            1 <= n <= 4,
            texts == token_views(lines@),
            keys_have_order(table@, n as nat),
            gram_counts(table@, n as nat) == lines_counts(texts.take(i as int), n as nat),
    {
        let ghost before = table@;
        proof {
            assert(texts.take(i + 1).drop_last() =~= texts.take(i as int));
            assert(texts.take(i + 1).last() == lines@[i as int]@);
        }
        match CorpusStats::parse_ngram_line(lines[i].as_str()) {
            Some((count, text)) => {
                let chars = chars_of(text.as_str());
                if chars.len() == n && !window_has_noise(&chars, 0, n) {
                    let key = key_of(&chars, 0, n);
                    let ghost gram = chars@;
                    proof {
                        assert(window(chars@, 0, n as nat) =~= gram);
                        lemma_gram_key_bound(gram);
                    }
                    table.insert(key, count);
                    proof {
                        assert forall|k: u128| #[trigger] table@.contains_key(k) implies exists|
                            g: Seq<char>,
                        |
                            g.len() == n && !has_noise(g) && #[trigger] gram_key(g) == k by {
                            if k == key {
                                assert(gram_key(gram) == k);
                            } else {
                                assert(before.contains_key(k));
                            }
                        }
                        assert forall|g: Seq<char>| g.len() == n && g != gram implies gram_key(g) as u128
                            != key by {
                            lemma_gram_key_bound(g);
                            if gram_key(g) == gram_key(gram) {
                                lemma_gram_key_injective(g, gram);
                            }
                        }
                        assert(gram_counts(table@, n as nat) =~= gram_counts(
                            before,
                            n as nat,
                        ).insert(gram, count as nat));
                    }
                } else {
                    proof {
                        assert(window(chars@, 0, chars@.len()) =~= chars@);
                    }
                }
            },
            None => {},
        }
    }
    assert(texts.take(lines@.len() as int) =~= texts);
    table
}

/// The text of a summary for the given numbers of distinct n-grams and
/// the given total.
pub open spec fn summary_text(
    unigrams: nat,
    bigrams: nat,
    trigrams: nat,
    fourgrams: nat,
    total: nat,
) -> Seq<char> {
    "Corpus Stats:\n  1-gram types: "@ + decimal(unigrams) + "\n  2-gram types: "@ + decimal(
        bigrams,
    ) + "\n  3-gram types: "@ + decimal(trigrams) + "\n  4-gram types: "@ + decimal(fourgrams)
        + "\n  Total chars: "@ + decimal(total)
}

/// Occurrence counts of the 1-, 2-, 3- and 4-grams of a corpus.
#[derive(Clone, Debug)]
pub struct CorpusStats {
    /// Counts of single characters.
    pub char_freq: HashMap<u128, usize>,
    /// Counts of pairs of adjacent characters.
    pub bigram_freq: HashMap<u128, usize>,
    /// Counts of runs of three characters.
    pub trigram_freq: HashMap<u128, usize>,
    /// Counts of runs of four characters.
    pub fourgram_freq: HashMap<u128, usize>,
}

impl CorpusStats {
    /// The counts of the n-grams of `n` characters, for `n` from 1 to 4.
    pub open spec fn counts(&self, n: nat) -> Map<Seq<char>, nat> {
        if n == 1 {
            gram_counts(self.char_freq@, 1)
        } else if n == 2 {
            gram_counts(self.bigram_freq@, 2)
        } else if n == 3 {
            gram_counts(self.trigram_freq@, 3)
        } else {
            gram_counts(self.fourgram_freq@, 4)
        }
    }

    /// Each table holds only keys of noise-free n-grams of its own order.
    pub open spec fn wf(&self) -> bool {
        &&& keys_have_order(self.char_freq@, 1)
        &&& keys_have_order(self.bigram_freq@, 2)
        &&& keys_have_order(self.trigram_freq@, 3)
        &&& keys_have_order(self.fourgram_freq@, 4)
    }

    /// Statistics of an empty corpus.
    pub fn new() -> (r: Self)
        ensures
            r.wf(),
            r.char_freq@ == Map::<u128, usize>::empty(),
            r.bigram_freq@ == Map::<u128, usize>::empty(),
            r.trigram_freq@ == Map::<u128, usize>::empty(),
            r.fourgram_freq@ == Map::<u128, usize>::empty(),
            forall|n: nat| 1 <= n <= 4 ==> #[trigger] r.counts(n) == Map::<Seq<char>, nat>::empty(),
    {
        let r = CorpusStats {
            char_freq: HashMap::new(),
            bigram_freq: HashMap::new(),
            trigram_freq: HashMap::new(),
            fourgram_freq: HashMap::new(),
        };
        assert forall|n: nat| 1 <= n <= 4 implies #[trigger] r.counts(n) == Map::<
            Seq<char>,
            nat,
        >::empty() by {
            assert(r.counts(n) =~= Map::<Seq<char>, nat>::empty());
        }
        r
    }

    /// Reads one line of a frequency table: tab-separated fields, of which the
    /// first is the count and the second the character sequence. Further
    /// fields are not looked at.
    pub fn parse_ngram_line(line: &str) -> (r: Option<(usize, String)>)
        ensures
            match r {
                Some((count, gram)) => parsed_line(line@) == Some((count as nat, gram@)),
                None => parsed_line(line@) is None,
            },
    {
        let chars = chars_of(line);
        let first_end = find_field_end(&chars, 0);
        if first_end >= chars.len() {
            return None;
        }
        match parse_usize(&chars, 0, first_end) {
            Some(count) => {
                let second_end = find_field_end(&chars, first_end + 1);
                let gram = line.substring_char(first_end + 1, second_end).to_string();
                Some((count, gram))
            },
            None => None,
        }
    }

    /// Builds the statistics from the lines of up to four frequency tables,
    /// one per order. A table that is not given stays empty. Within a table
    /// a later line for a sequence replaces an earlier one.
    pub fn from_ngram_lines(
        gram1: Option<&Vec<String>>,
        gram2: Option<&Vec<String>>,
        gram3: Option<&Vec<String>>,
        gram4: Option<&Vec<String>>,
    ) -> (r: Self)
        ensures
            r.wf(),
            r.counts(1) == match gram1 {
                Some(lines) => lines_counts(token_views(lines@), 1),
                None => Map::empty(),
            },
            r.counts(2) == match gram2 {
                Some(lines) => lines_counts(token_views(lines@), 2),
                None => Map::empty(),
            },
            r.counts(3) == match gram3 {
                Some(lines) => lines_counts(token_views(lines@), 3),
                None => Map::empty(),
            },
            r.counts(4) == match gram4 {
                Some(lines) => lines_counts(token_views(lines@), 4),
                None => Map::empty(),
            },
    {
        let mut stats = Self::new();
        proof {
            assert(stats.counts(1) == Map::<Seq<char>, nat>::empty());
            assert(stats.counts(2) == Map::<Seq<char>, nat>::empty());
            assert(stats.counts(3) == Map::<Seq<char>, nat>::empty());
            assert(stats.counts(4) == Map::<Seq<char>, nat>::empty());
        }
        if let Some(lines) = gram1 {
            stats.char_freq = table_from_lines(lines, 1);
        }
        if let Some(lines) = gram2 {
            stats.bigram_freq = table_from_lines(lines, 2);
        }
        if let Some(lines) = gram3 {
            stats.trigram_freq = table_from_lines(lines, 3);
        }
        if let Some(lines) = gram4 {
            stats.fourgram_freq = table_from_lines(lines, 4);
        }
        stats
    }

    /// Builds the statistics from raw text: for each order, every window of
    /// that many characters adds one to the count of its n-gram, unless it
    /// contains the noise placeholder.
    pub fn from_text(text: &str) -> (r: Self)
        ensures
            r.wf(),
            forall|n: nat| 1 <= n <= 4 ==> #[trigger] r.counts(n) == text_counts(text@, n),
            table_total(r.char_freq@) == clean_windows(text@, 1, text@.len()),
            table_total(r.bigram_freq@) == clean_windows(text@, 2, text@.len()),
            table_total(r.trigram_freq@) == clean_windows(text@, 3, text@.len()),
            table_total(r.fourgram_freq@) == clean_windows(text@, 4, text@.len()),
            table_total(r.char_freq@) <= usize::MAX,
            table_total(r.bigram_freq@) <= usize::MAX,
            table_total(r.trigram_freq@) <= usize::MAX,
    {
        let chars = chars_of(text);
        assert(chars@.len() == chars.len());
        CorpusStats {
            char_freq: count_windows(&chars, 1),
            bigram_freq: count_windows(&chars, 2),
            trigram_freq: count_windows(&chars, 3),
            fourgram_freq: count_windows(&chars, 4),
        }
    }

    /// The count recorded for an n-gram, and 0 for one that is not recorded
    /// or that has fewer than one or more than four characters.
    pub fn count(&self, gram: &Vec<char>) -> (r: usize)
        ensures
            r == if 1 <= gram@.len() <= 4 && self.counts(gram@.len()).contains_key(gram@) {
                self.counts(gram@.len())[gram@]
            } else {
                0
            },
    {
        let n = gram.len();
        if n < 1 || n > MAX_ORDER {
            return 0;
        }
        let key = key_of(gram, 0, n);
        proof {
            assert(window(gram@, 0, n as nat) =~= gram@);
            lemma_gram_key_bound(gram@);
        }
        let table = if n == 1 {
            &self.char_freq
        } else if n == 2 {
            &self.bigram_freq
        } else if n == 3 {
            &self.trigram_freq
        } else {
            &self.fourgram_freq
        };
        match table.get(&key) {
            Some(count) => *count,
            None => 0,
        }
    }

    /// The sum of the counts of all single characters.
    pub fn total_chars(&self) -> (r: usize)
        requires
            table_total(self.char_freq@) <= usize::MAX,
        ensures
            r == table_total(self.char_freq@),
    {
        total_of(&self.char_freq)
    }

    /// The sum of the counts of all bigrams.
    pub fn total_bigrams(&self) -> (r: usize)
        requires
            table_total(self.bigram_freq@) <= usize::MAX,
        ensures
            r == table_total(self.bigram_freq@),
    {
        total_of(&self.bigram_freq)
    }

    /// The sum of the counts of all trigrams.
    pub fn total_trigrams(&self) -> (r: usize)
        requires
            table_total(self.trigram_freq@) <= usize::MAX,
        ensures
            r == table_total(self.trigram_freq@),
    {
        total_of(&self.trigram_freq)
    }

    /// A summary in five lines: a heading, the number of distinct n-grams
    /// of each order, and the total count of single characters.
    pub fn summary(&self) -> (r: String)
        requires
            table_total(self.char_freq@) <= usize::MAX,
        ensures
            r@ == summary_text(
                self.char_freq@.len(),
                self.bigram_freq@.len(),
                self.trigram_freq@.len(),
                self.fourgram_freq@.len(),
                table_total(self.char_freq@),
            ),
            self.wf() ==> r@ == summary_text(
                self.counts(1).len(),
                self.counts(2).len(),
                self.counts(3).len(),
                self.counts(4).len(),
                table_total(self.char_freq@),
            ),
    {
        proof {
            if self.wf() {
                lemma_stats_sizes(*self);
            }
        }
        let mut out = String::from_str("Corpus Stats:\n  1-gram types: ");
        out.append(decimal_string(self.char_freq.len()).as_str());
        out.append("\n  2-gram types: ");
        out.append(decimal_string(self.bigram_freq.len()).as_str());
        out.append("\n  3-gram types: ");
        out.append(decimal_string(self.trigram_freq.len()).as_str());
        out.append("\n  4-gram types: ");
        out.append(decimal_string(self.fourgram_freq.len()).as_str());
        out.append("\n  Total chars: ");
        out.append(decimal_string(self.total_chars()).as_str());
        out
    }
}

impl Default for CorpusStats {
    /// Statistics of an empty corpus.
    fn default() -> (r: Self)
        ensures
            r.wf(),
            forall|n: nat| 1 <= n <= 4 ==> #[trigger] r.counts(n) == Map::<Seq<char>, nat>::empty(),
    {
        Self::new()
    }
}

/// Each table of well-formed statistics has one key for each n-gram that
/// it counts.
pub proof fn lemma_stats_sizes(stats: CorpusStats)
    requires
        stats.wf(),
    ensures
        stats.counts(1).len() == stats.char_freq@.len(),
        stats.counts(2).len() == stats.bigram_freq@.len(),
        stats.counts(3).len() == stats.trigram_freq@.len(),
        stats.counts(4).len() == stats.fourgram_freq@.len(),
{
    lemma_table_len(stats.char_freq@, 1);
    lemma_table_len(stats.bigram_freq@, 2);
    lemma_table_len(stats.trigram_freq@, 3);
    lemma_table_len(stats.fourgram_freq@, 4);
}

} // verus!
