//! N-grams: short runs of characters, the keys under which they are counted,
//! and what it means to count them in a text.

use std::collections::HashMap;
use vstd::prelude::*;
use vstd::std_specs::iter::IteratorSpec;

verus! {

broadcast use vstd::std_specs::hash::group_hash_axioms;

/// The placeholder that source corpora write for a line break. No n-gram
/// that contains it is counted.
pub const NOISE: char = '〓';

/// The longest n-gram that is counted.
pub const MAX_ORDER: usize = 4;

/// Whether the n-gram contains the noise placeholder.
pub open spec fn has_noise(gram: Seq<char>) -> bool {
    gram.contains(NOISE)
}

/// The code point of a character.
pub open spec fn code(c: char) -> nat {
    c as u32 as nat
}

/// Code points are below 2^21, and different characters have different code
/// points.
pub proof fn lemma_code(c: char, d: char)
    ensures
        code(c) < 0x20_0000,
        code(c) == code(d) ==> c == d,
{
}

/// The key of an n-gram: its characters' code points as the digits of a
/// number in base 2^21, the first character leading.
pub open spec fn gram_key(gram: Seq<char>) -> nat
    decreases gram.len(),
{
    if gram.len() == 0 {
        0
    } else {
        gram_key(gram.drop_last()) * 0x20_0000 + code(gram.last())
    }
}

/// The key of an n-gram of `n` characters is below 2^(21 n).
pub proof fn lemma_gram_key_bound(gram: Seq<char>)
    requires
        gram.len() <= 4,
    ensures
        gram.len() == 0 ==> gram_key(gram) == 0,
        gram.len() == 1 ==> gram_key(gram) < 0x20_0000,
        gram.len() == 2 ==> gram_key(gram) < 0x400_0000_0000,
        gram.len() == 3 ==> gram_key(gram) < 0x8000_0000_0000_0000,
        gram.len() == 4 ==> gram_key(gram) < 0x10_0000_0000_0000_0000_0000,
    decreases gram.len(),
{
    if gram.len() > 0 {
        lemma_gram_key_bound(gram.drop_last());
        lemma_code(gram.last(), gram.last());
    }
}

/// Two n-grams of one length with one key are the same n-gram.
pub proof fn lemma_gram_key_injective(a: Seq<char>, b: Seq<char>)
    requires
        a.len() == b.len(),
        gram_key(a) == gram_key(b),
    ensures
        a == b,
    decreases a.len(),
{
    if a.len() > 0 {
        let ka = gram_key(a.drop_last());
        let kb = gram_key(b.drop_last());
        lemma_code(a.last(), b.last());
        lemma_code(b.last(), a.last());
        assert(ka * 0x20_0000 + code(a.last()) == kb * 0x20_0000 + code(b.last()));
        assert(ka == kb && a.last() == b.last());
        lemma_gram_key_injective(a.drop_last(), b.drop_last());
        assert(a =~= a.drop_last().push(a.last()));
        assert(b =~= b.drop_last().push(b.last()));
    } else {
        assert(a =~= b);
    }
}

/// The counts that a table holds for the n-grams of `n` characters.
pub open spec fn gram_counts(table: Map<u128, usize>, n: nat) -> Map<Seq<char>, nat> {
    Map::new(
        |g: Seq<char>| g.len() == n && table.contains_key(gram_key(g) as u128),
        |g: Seq<char>| table[gram_key(g) as u128] as nat,
    )
}

/// Every key of the table is the key of an n-gram of `n` characters that is
/// free of noise.
pub open spec fn keys_have_order(table: Map<u128, usize>, n: nat) -> bool {
    forall|k: u128| #[trigger]
        table.contains_key(k) ==> exists|g: Seq<char>|
            g.len() == n && !has_noise(g) && #[trigger] gram_key(g) == k
}

/// The n-gram of `n` characters that a key stands for.
pub open spec fn key_gram(k: u128, n: nat) -> Seq<char> {
    choose|g: Seq<char>| g.len() == n && !has_noise(g) && #[trigger] gram_key(g) == k
}

/// A table whose keys all have order `n` holds as many n-grams as it has
/// keys.
pub proof fn lemma_table_len(table: Map<u128, usize>, n: nat)
    requires
        table.dom().finite(),
        1 <= n <= 4,
        keys_have_order(table, n),
    ensures
        gram_counts(table, n).dom().finite(),
        gram_counts(table, n).len() == table.len(),
{
    let decode = |k: u128| key_gram(k, n);
    let keys = table.dom();
    let grams = gram_counts(table, n).dom();
    assert forall|a: u128, b: u128|
        keys.contains(a) && keys.contains(b) && #[trigger] decode(a) == #[trigger] decode(
            b,
        ) implies a == b by {
        assert(table.contains_key(a) && table.contains_key(b));
        assert(gram_key(key_gram(a, n)) == a);
        assert(gram_key(key_gram(b, n)) == b);
    }
    assert forall|g: Seq<char>| keys.map(decode).contains(g) <==> grams.contains(g) by {
        if keys.map(decode).contains(g) {
            let k = choose|k: u128| keys.contains(k) && decode(k) == g;
            assert(table.contains_key(k));
            assert(gram_key(g) == k);
        }
        if grams.contains(g) {
            let k = gram_key(g) as u128;
            lemma_gram_key_bound(g);
            assert(table.contains_key(k));
            let h = key_gram(k, n);
            assert(gram_key(h) == k);
            lemma_gram_key_injective(h, g);
            assert(keys.contains(k) && decode(k) == g);
        }
    }
    assert(keys.map(decode) =~= grams);
    vstd::set_lib::lemma_map_size(keys, grams, decode);
}

/// The window of `n` characters that starts at `i`.
pub open spec fn window(text: Seq<char>, i: int, n: nat) -> Seq<char> {
    text.subrange(i, i + n)
}

/// How often `gram` stands in `text` at one of the first `k` positions.
pub open spec fn occurrences(text: Seq<char>, gram: Seq<char>, k: nat) -> nat
    decreases k,
{
    if k == 0 {
        0
    } else {
        occurrences(text, gram, (k - 1) as nat) + if k - 1 + gram.len() <= text.len() && window(
            text,
            k - 1,
            gram.len(),
        ) == gram {
            1nat
        } else {
            0nat
        }
    }
}

/// The counts of the noise-free n-grams of `n` characters that stand at one
/// of the first `k` positions of `text`.
pub open spec fn counts_before(text: Seq<char>, n: nat, k: nat) -> Map<Seq<char>, nat> {
    Map::new(
        |g: Seq<char>| g.len() == n && !has_noise(g) && occurrences(text, g, k) > 0,
        |g: Seq<char>| occurrences(text, g, k),
    )
}

/// The counts of the noise-free n-grams of `n` characters in `text`: for
/// each, the number of positions at which it stands.
pub open spec fn text_counts(text: Seq<char>, n: nat) -> Map<Seq<char>, nat> {
    counts_before(text, n, text.len())
}

/// An n-gram stands at no more positions than there are.
pub proof fn lemma_occurrences_bound(text: Seq<char>, gram: Seq<char>, k: nat)
    ensures
        occurrences(text, gram, k) <= k,
    decreases k,
{
    if k > 0 {
        lemma_occurrences_bound(text, gram, (k - 1) as nat);
    }
}

/// Positions at which no whole window starts add nothing.
pub proof fn lemma_occurrences_past_end(text: Seq<char>, gram: Seq<char>, from: nat, to: nat)
    requires
        from <= to,
        from + gram.len() > text.len(),
    ensures
        occurrences(text, gram, to) == occurrences(text, gram, from),
    decreases to,
{
    if from < to {
        lemma_occurrences_past_end(text, gram, from, (to - 1) as nat);
    }
}

/// Computes the key of the window of `n` characters that starts at `start`.
pub fn key_of(chars: &Vec<char>, start: usize, n: usize) -> (k: u128)
    requires
        n <= 4,
        start + n <= chars@.len(),
    ensures
        k == gram_key(window(chars@, start as int, n as nat)),
{
    let ghost gram = window(chars@, start as int, n as nat);
    let mut k: u128 = 0;
    for i in 0..n
        invariant
            n <= 4,
            start + n <= chars.len(),
            gram == window(chars@, start as int, n as nat),
            k == gram_key(gram.take(i as int)),
    {
        let c = chars[start + i];
        proof {
            let next = gram.take(i + 1);
            assert(next.drop_last() =~= gram.take(i as int));
            assert(next.last() == c);
            lemma_gram_key_bound(gram.take(i as int));
            lemma_gram_key_bound(next);
            lemma_code(c, c);
        }
        k = k * 0x20_0000 + (c as u32) as u128;
    }
    assert(gram.take(n as int) =~= gram);
    k
}

/// Whether the window of `n` characters that starts at `start` contains the
/// noise placeholder.
pub fn window_has_noise(chars: &Vec<char>, start: usize, n: usize) -> (b: bool)
    requires
        start + n <= chars@.len(),
    ensures
        b == has_noise(window(chars@, start as int, n as nat)),
{
    let ghost gram = window(chars@, start as int, n as nat);
    for i in 0..n
        invariant
            start + n <= chars.len(),
            gram == window(chars@, start as int, n as nat),
            forall|j: int| 0 <= j < i ==> gram[j] != NOISE,
    {
        if chars[start + i] == NOISE {
            assert(gram[i as int] == NOISE);
            return true;
        }
    }
    false
}

/// Counts the noise-free n-grams of `n` characters in a text: each window
/// of `n` characters adds one to the count of its n-gram.
pub fn count_windows(chars: &Vec<char>, n: usize) -> (table: HashMap<u128, usize>)
    requires
        1 <= n <= 4,
    ensures
        keys_have_order(table@, n as nat),
        gram_counts(table@, n as nat) == text_counts(chars@, n as nat),
        table_total(table@) == clean_windows(chars@, n as nat, chars@.len()),
        table_total(table@) <= chars@.len(),
{
    let ghost text = chars@;
    let mut table: HashMap<u128, usize> = HashMap::new();
    let windows: usize = if chars.len() >= n {
        chars.len() - n + 1
    } else {
        0
    };
    assert(gram_counts(table@, n as nat) =~= counts_before(text, n as nat, 0));
    proof {
        vstd::set::fold::lemma_fold_empty(0nat, add_count(table@));
        assert(table@.dom() =~= Set::<u128>::empty());
    }
    for i in 0..windows
        invariant
            1 <= n <= 4,
            text == chars@,
            windows == if text.len() >= n {
                text.len() - n + 1
            } else {
                0
            },
            keys_have_order(table@, n as nat),
            gram_counts(table@, n as nat) == counts_before(text, n as nat, i as nat),
            table_total(table@) == clean_windows(text, n as nat, i as nat),
    {
        let ghost gram = window(text, i as int, n as nat);
        let ghost before = table@;
        if !window_has_noise(chars, i, n) {
            let key = key_of(chars, i, n);
            let seen: usize = match table.get(&key) {
                Some(count) => *count,
                None => 0,
            };
            proof {
                lemma_gram_key_bound(gram);
                lemma_occurrences_bound(text, gram, i as nat);
                assert(gram_counts(before, n as nat).contains_key(gram) == before.contains_key(
                    key,
                ));
                assert(gram.len() == n && !has_noise(gram));
                if before.contains_key(key) {
                    assert(gram_counts(before, n as nat)[gram] == before[key]);
                    assert(counts_before(text, n as nat, i as nat)[gram] == occurrences(
                        text,
                        gram,
                        i as nat,
                    ));
                } else {
                    assert(!counts_before(text, n as nat, i as nat).contains_key(gram));
                }
                assert(seen == occurrences(text, gram, i as nat));
            }
            table.insert(key, seen + 1);
            proof {
                lemma_table_total_insert(before, key, (seen + 1) as usize);
                assert forall|k: u128| #[trigger] table@.contains_key(k) implies exists|
                    g: Seq<char>,
                |
                    g.len() == n && !has_noise(g) && #[trigger] gram_key(g) == k by {
                    if k == key {
                        assert(gram_key(gram) == k);
                    } else {
                        assert(before.contains_key(k));
                    }
                }
                assert forall|g: Seq<char>| g.len() == n && g != gram implies gram_key(g) as u128
                    != key by {
                    lemma_gram_key_bound(g);
                    if gram_key(g) == gram_key(gram) {
                        lemma_gram_key_injective(g, gram);
                    }
                }
            }
        }
        proof {
            assert forall|g: Seq<char>|
                #![trigger gram_counts(table@, n as nat).contains_key(g)]
                #![trigger counts_before(text, n as nat, (i + 1) as nat).contains_key(g)]
                (gram_counts(table@, n as nat).contains_key(g) <==> counts_before(
                    text,
                    n as nat,
                    (i + 1) as nat,
                ).contains_key(g)) && (gram_counts(table@, n as nat).contains_key(g)
                    ==> gram_counts(table@, n as nat)[g] == counts_before(
                    text,
                    n as nat,
                    (i + 1) as nat,
                )[g]) by {
                if g.len() == n {
                    assert(gram_counts(before, n as nat).contains_key(g) <==> counts_before(
                        text,
                        n as nat,
                        i as nat,
                    ).contains_key(g));
                    if gram_counts(before, n as nat).contains_key(g) {
                        assert(gram_counts(before, n as nat)[g] == counts_before(
                            text,
                            n as nat,
                            i as nat,
                        )[g]);
                    }
                }
            }
            assert(gram_counts(table@, n as nat) =~= counts_before(
                text,
                n as nat,
                (i + 1) as nat,
            ));
        }
    }
    proof {
        assert forall|g: Seq<char>| g.len() == n implies occurrences(text, g, windows as nat)
            == occurrences(text, g, text.len()) by {
            lemma_occurrences_past_end(text, g, windows as nat, text.len());
        }
        assert(counts_before(text, n as nat, windows as nat) =~= text_counts(text, n as nat));
        lemma_clean_windows_past_end(text, n as nat, windows as nat, text.len());
        lemma_clean_windows_bound(text, n as nat, text.len());
    }
    table
}

/// The step of a sum over a table's keys: adds the count under `k`.
pub open spec fn add_count(table: Map<u128, usize>) -> spec_fn(nat, u128) -> nat {
    |sum: nat, k: u128| sum + table[k] as nat
}

/// The sum of the counts under the given keys.
pub open spec fn keys_total(table: Map<u128, usize>, keys: Set<u128>) -> nat {
    keys.fold(0nat, add_count(table))
}

/// The sum of all counts of a table.
pub open spec fn table_total(table: Map<u128, usize>) -> nat {
    keys_total(table, table.dom())
}

/// The keys that come before place `i` of a list.
pub open spec fn keys_before(keys: Seq<u128>, i: int) -> Set<u128> {
    keys.take(i).to_set()
}

/// Taking one more key of a duplicate-free list into the sum adds its
/// count.
proof fn lemma_keys_total_step(table: Map<u128, usize>, keys: Seq<u128>, i: int)
    requires
        keys.no_duplicates(),
        0 <= i < keys.len(),
    ensures
        keys_total(table, keys_before(keys, i + 1)) == keys_total(table, keys_before(keys, i))
            + table[keys[i]] as nat,
        keys_before(keys, 0) == Set::<u128>::empty(),
        keys_total(table, keys_before(keys, 0)) == 0,
{
    let seen = keys_before(keys, i);
    assert(keys.take(i).to_set().finite()) by {
        vstd::seq_lib::seq_to_set_is_finite(keys.take(i));
    }
    assert(!seen.contains(keys[i])) by {
        if seen.contains(keys[i]) {
            let head = keys.take(i);
            let j = choose|j: int| 0 <= j < head.len() && head[j] == keys[i];
            assert(keys[j] == keys[i]);
        }
    }
    let shorter = keys.take(i);
    let longer = keys.take(i + 1);
    assert(keys_before(keys, i + 1) =~= seen.insert(keys[i])) by {
        assert forall|k: u128| longer.to_set().contains(k) <==> seen.insert(keys[i]).contains(
            k,
        ) by {
            if longer.contains(k) {
                let j = choose|j: int| 0 <= j < longer.len() && longer[j] == k;
                if j < i {
                    assert(shorter[j] == k);
                }
            }
            if seen.contains(k) {
                let j = choose|j: int| 0 <= j < shorter.len() && shorter[j] == k;
                assert(longer[j] == k);
            }
            if k == keys[i] {
                assert(longer[i] == k);
            }
        }
    }
    assert(vstd::set::fold::is_fun_commutative(add_count(table)));
    vstd::set::fold::lemma_fold_insert(seen, 0nat, add_count(table), keys[i]);
    assert(keys_before(keys, 0) =~= Set::<u128>::empty());
    vstd::set::fold::lemma_fold_empty(0nat, add_count(table));
}

/// The sum over a prefix of the keys is no more than the sum over a longer
/// prefix.
proof fn lemma_keys_total_grows(table: Map<u128, usize>, keys: Seq<u128>, i: int, j: int)
    requires
        keys.no_duplicates(),
        0 <= i <= j <= keys.len(),
    ensures
        keys_total(table, keys_before(keys, i)) <= keys_total(table, keys_before(keys, j)),
    decreases j - i,
{
    if i < j {
        lemma_keys_total_step(table, keys, j - 1);
        lemma_keys_total_grows(table, keys, i, j - 1);
    }
}

/// Two tables that agree on a set of keys have the same sum over it.
pub proof fn lemma_keys_total_agree(a: Map<u128, usize>, b: Map<u128, usize>, keys: Set<u128>)
    requires
        keys.finite(),
        forall|k: u128| keys.contains(k) ==> a[k] == b[k],
    ensures
        keys_total(a, keys) == keys_total(b, keys),
    decreases keys.len(),
{
    if keys.len() == 0 {
        keys.lemma_len0_is_empty();
        vstd::set::fold::lemma_fold_empty(0nat, add_count(a));
        vstd::set::fold::lemma_fold_empty(0nat, add_count(b));
    } else {
        let k = keys.choose();
        let rest = keys.remove(k);
        lemma_keys_total_agree(a, b, rest);
        assert(vstd::set::fold::is_fun_commutative(add_count(a)));
        assert(vstd::set::fold::is_fun_commutative(add_count(b)));
        vstd::set::fold::lemma_fold_insert(rest, 0nat, add_count(a), k);
        vstd::set::fold::lemma_fold_insert(rest, 0nat, add_count(b), k);
        assert(rest.insert(k) =~= keys);
    }
}

/// Setting the count under a key changes the sum of a table by the
/// difference between the new count and the old one.
pub proof fn lemma_table_total_insert(table: Map<u128, usize>, k: u128, v: usize)
    requires
        table.dom().finite(),
    ensures
        table_total(table.insert(k, v)) + (if table.contains_key(k) {
            table[k] as nat
        } else {
            0nat
        }) == table_total(table) + v,
{
    let after = table.insert(k, v);
    let rest = table.dom().remove(k);
    assert(vstd::set::fold::is_fun_commutative(add_count(table)));
    assert(vstd::set::fold::is_fun_commutative(add_count(after)));
    lemma_keys_total_agree(table, after, rest);
    vstd::set::fold::lemma_fold_insert(rest, 0nat, add_count(after), k);
    assert(rest.insert(k) =~= after.dom());
    if table.contains_key(k) {
        vstd::set::fold::lemma_fold_insert(rest, 0nat, add_count(table), k);
        assert(rest.insert(k) =~= table.dom());
    } else {
        assert(rest =~= table.dom());
    }
}

/// How many of the first `k` windows of `n` characters are free of noise.
pub open spec fn clean_windows(text: Seq<char>, n: nat, k: nat) -> nat
    decreases k,
{
    if k == 0 {
        0
    } else {
        clean_windows(text, n, (k - 1) as nat) + if k - 1 + n <= text.len() && !has_noise(
            window(text, k - 1, n),
        ) {
            1nat
        } else {
            0nat
        }
    }
}

/// There are no more clean windows than windows.
pub proof fn lemma_clean_windows_bound(text: Seq<char>, n: nat, k: nat)
    ensures
        clean_windows(text, n, k) <= k,
    decreases k,
{
    if k > 0 {
        lemma_clean_windows_bound(text, n, (k - 1) as nat);
    }
}

/// Positions at which no whole window starts add no clean window.
pub proof fn lemma_clean_windows_past_end(text: Seq<char>, n: nat, from: nat, to: nat)
    requires
        from <= to,
        from + n > text.len(),
    ensures
        clean_windows(text, n, to) == clean_windows(text, n, from),
    decreases to,
{
    if from < to {
        lemma_clean_windows_past_end(text, n, from, (to - 1) as nat);
    }
}

/// Adds up all counts of a table, unless the sum does not fit the
/// machine's word.
pub fn checked_total_of(table: &HashMap<u128, usize>) -> (r: Option<usize>)
    ensures
        match r {
            Some(total) => total == table_total(table@),
            None => table_total(table@) > usize::MAX,
        },
{
    let mut total: usize = 0;
    proof {
        assert forall|keys: Seq<u128>| #[trigger]
            keys_total(table@, keys_before(keys, 0)) == 0 by {
            assert(keys_before(keys, 0) =~= Set::<u128>::empty());
            vstd::set::fold::lemma_fold_empty(0nat, add_count(table@));
        }
        assert forall|keys: Seq<u128>| #[trigger]
            keys.to_set() == table@.dom() implies keys_total(
            table@,
            keys_before(keys, keys.len() as int),
        ) == table_total(table@) by {
            assert(keys.take(keys.len() as int) =~= keys);
        }
    }
    for k in it: table.keys()
        invariant
            it.seq().unref().no_duplicates(),
            it.seq().unref().to_set() == table@.dom(),
            total == keys_total(table@, keys_before(it.seq().unref(), it.index() as int)),
            forall|keys: Seq<u128>| #[trigger]
                keys.to_set() == table@.dom() ==> keys_total(
                    table@,
                    keys_before(keys, keys.len() as int),
                ) == table_total(table@),
    {
        assert(table@.dom().contains(*k) && total + table@[*k] == keys_total(
            table@,
            keys_before(it.seq().unref(), it.index() + 1),
        ) && total + table@[*k] <= table_total(table@)) by {
            let all = it.seq().unref();
            let i = it.index() as int;
            assert(*k == all[i]);
            assert(all.contains(all[i]));
            lemma_keys_total_step(table@, all, i);
            lemma_keys_total_grows(table@, all, i + 1, all.len() as int);
            assert(all.take(all.len() as int) =~= all);
        }
        let count: usize = match table.get(k) {
            Some(c) => *c,
            None => 0,
        };
        total = match total.checked_add(count) {
            Some(sum) => sum,
            None => {
                return None;
            },
        };
    }
    Some(total)
}

/// Adds up all counts of a table. The sum has to fit the machine's word.
pub fn total_of(table: &HashMap<u128, usize>) -> (total: usize)
    requires
        table_total(table@) <= usize::MAX,
    ensures
        total == table_total(table@),
{
    match checked_total_of(table) {
        Some(total) => total,
        None => 0,
    }
}

} // verus!
