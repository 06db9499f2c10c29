//! Grapheme tokens and small operations on lists of them.
//!
//! A token is a short string: one kana, a two-character digraph, a reserved
//! symbol or the blank marker. In specifications a token is its sequence of
//! characters.

use vstd::prelude::*;

verus! {

/// The token of an unassigned cell: one ideographic space.
pub const BLANK: &'static str = "　";

/// The blank marker as a sequence of characters.
pub open spec fn blank_token() -> Seq<char> {
    seq!['　']
}

/// The contents of a token list, each token as its sequence of characters.
pub open spec fn token_views(tokens: Seq<String>) -> Seq<Seq<char>> {
    tokens.map_values(|t: String| t@)
}

/// The contents of a list of string slices, each as its sequence of
/// characters.
pub open spec fn str_views(items: Seq<&str>) -> Seq<Seq<char>> {
    items.map_values(|t: &str| t@)
}

/// A fresh copy of the blank marker.
pub fn blank_string() -> (s: String)
    ensures
        s@ == blank_token(),
{
    proof {
        reveal_strlit("　");
    }
    let s = BLANK.to_string();
    assert(s@ =~= blank_token());
    s
}

/// Whether the token is the blank marker.
pub fn is_blank_marker(token: &String) -> (b: bool)
    ensures
        b == (token@ == blank_token()),
{
    let blank = blank_string();
    *token == blank
}

/// The first place at which `token` stands in `list`, if it stands there at
/// all.
pub fn position_of(list: &Vec<String>, token: &String) -> (r: Option<usize>)
    ensures
        match r {
            Some(j) => j < list@.len() && list@[j as int]@ == token@ && forall|i: int|
                0 <= i < j ==> (#[trigger] list@[i])@ != token@,
            None => forall|i: int| 0 <= i < list@.len() ==> (#[trigger] list@[i])@ != token@,
        },
{
    for j in 0..list.len()
        invariant
            forall|i: int| 0 <= i < j ==> (#[trigger] list@[i])@ != token@,
    {
        if list[j] == *token {
            return Some(j);
        }
    }
    None
}

/// The different items of `items`, each once.
pub fn distinct(items: &[&str]) -> (r: Vec<String>)
    ensures
        token_views(r@).no_duplicates(),
        token_views(r@).to_set() == str_views(items@).to_set(),
{
    let mut out: Vec<String> = Vec::new();
    for i in 0..items.len()
        invariant
            token_views(out@).no_duplicates(),
            forall|j: int|
                0 <= j < out@.len() ==> str_views(items@).contains(#[trigger] token_views(out@)[j]),
            forall|j: int|
                0 <= j < i ==> token_views(out@).contains(#[trigger] str_views(items@)[j]),
    {
        let item = items[i].to_string();
        let ghost before = token_views(out@);
        let ghost held = out@;
        assert(str_views(items@)[i as int] == item@);
        match position_of(&out, &item) {
            Some(at) => {
                assert(before[at as int] == item@);
            },
            None => {
                out.push(item);
                assert(token_views(out@) =~= before.push(item@));
                assert(forall|j: int| 0 <= j < before.len() ==> before[j] != item@) by {
                    assert forall|j: int| 0 <= j < before.len() implies before[j] != item@ by {
                        assert(before[j] == held[j]@);
                    }
                }
                assert forall|j: int| 0 <= j < i + 1 implies token_views(out@).contains(
                    #[trigger] str_views(items@)[j],
                ) by {
                    if j < i {
                        let w = choose|w: int|
                            0 <= w < before.len() && before[w] == str_views(items@)[j];
                        assert(token_views(out@)[w] == str_views(items@)[j]);
                    } else {
                        assert(token_views(out@)[before.len() as int] == item@);
                    }
                }
            },
        }
    }
    assert(token_views(out@).to_set() =~= str_views(items@).to_set());
    out
}

/// The tokens of `left` that do not occur in `right`, each once. No token
/// may occur twice in `left`.
pub fn difference(left: &Vec<String>, right: &Vec<String>) -> (r: Vec<String>)
    requires
        token_views(left@).no_duplicates(),
    ensures
        token_views(r@).no_duplicates(),
        token_views(r@).to_set() == token_views(left@).to_set().difference(
            token_views(right@).to_set(),
        ),
{
    let mut out: Vec<String> = Vec::new();
    let ghost mut origin: Seq<int> = Seq::empty();
    for i in 0..left.len()
        invariant
            token_views(left@).no_duplicates(),
            origin.len() == out@.len(),
            forall|j: int|
                0 <= j < out@.len() ==> 0 <= #[trigger] origin[j] < i && out@[j]@ == left@[origin[j]]@
                    && !token_views(right@).contains(left@[origin[j]]@),
            forall|a: int, b: int| 0 <= a < b < origin.len() ==> origin[a] < origin[b],
            forall|j: int|
                0 <= j < i && !token_views(right@).contains(#[trigger] left@[j]@)
                    ==> origin.contains(j),
    {
        match position_of(right, &left[i]) {
            Some(at) => {
                assert(token_views(right@)[at as int] == left@[i as int]@);
            },
            None => {
                assert(!token_views(right@).contains(left@[i as int]@)) by {
                    if token_views(right@).contains(left@[i as int]@) {
                        let w = choose|w: int|
                            0 <= w < right@.len() && token_views(right@)[w] == left@[i as int]@;
                        assert(right@[w]@ == left@[i as int]@);
                    }
                }
                let ghost before = origin;
                out.push(left[i].clone());
                proof {
                    origin = origin.push(i as int);
                    assert forall|j: int|
                        0 <= j < i + 1 && !token_views(right@).contains(
                            #[trigger] left@[j]@,
                        ) implies origin.contains(j) by {
                        if j < i {
                            let w = choose|w: int| 0 <= w < before.len() && before[w] == j;
                            assert(origin[w] == j);
                        } else {
                            assert(origin[before.len() as int] == j);
                        }
                    }
                }
            },
        }
    }
    proof {
        let lv = token_views(left@);
        let rv = token_views(right@);
        let ov = token_views(out@);
        assert forall|a: int, b: int| 0 <= a < ov.len() && 0 <= b < ov.len() && a != b implies ov[a]
            != ov[b] by {
            assert(origin[a] != origin[b]);
            assert(lv[origin[a]] == ov[a]);
            assert(lv[origin[b]] == ov[b]);
        }
        assert forall|t: Seq<char>| ov.to_set().contains(t) <==> lv.to_set().difference(
            rv.to_set(),
        ).contains(t) by {
            if ov.contains(t) {
                let j = choose|j: int| 0 <= j < ov.len() && ov[j] == t;
                assert(lv[origin[j]] == t);
            }
            if lv.contains(t) && !rv.contains(t) {
                let j = choose|j: int| 0 <= j < lv.len() && lv[j] == t;
                assert(left@[j]@ == t);
                let w = choose|w: int| 0 <= w < origin.len() && origin[w] == j;
                assert(ov[w] == t);
            }
        }
        assert(ov.to_set() =~= lv.to_set().difference(rv.to_set()));
    }
    out
}

/// Whether the token is a grapheme: neither empty nor the blank marker.
pub open spec fn is_grapheme(token: Seq<char>) -> bool {
    token.len() > 0 && token != blank_token()
}

/// Whether no grapheme occurs twice in the list. Blank markers may.
pub open spec fn graphemes_once(tokens: Seq<Seq<char>>) -> bool {
    forall|i: int, j: int|
        0 <= i < j < tokens.len() && is_grapheme(#[trigger] tokens[i]) ==> tokens[i]
            != #[trigger] tokens[j]
}

/// Whether the tokens can fill free cells completely: each is a grapheme
/// and none occurs twice.
pub open spec fn assignable(tokens: Seq<Seq<char>>) -> bool {
    &&& graphemes_once(tokens)
    &&& forall|i: int| 0 <= i < tokens.len() ==> is_grapheme(#[trigger] tokens[i])
}

/// A token that stands at two places of a list counts at least twice.
proof fn lemma_count_of_twice(s: Seq<Seq<char>>, i: int, j: int)
    requires
        0 <= i < j < s.len(),
        s[i] == s[j],
    ensures
        s.to_multiset().count(s[i]) >= 2,
{
    broadcast use vstd::multiset::group_multiset_axioms;

    let rest = s.remove(i);
    s.to_multiset_ensures();
    rest.to_multiset_ensures();
    assert(rest[j - 1] == s[j]);
    assert(rest.contains(s[i]));
    assert(rest.to_multiset().count(s[i]) > 0);
    assert(rest.to_multiset() =~= s.to_multiset().remove(s[i]));
    assert(s.to_multiset().count(s[i]) > 0);
}

/// A token that stands at one place only counts once.
proof fn lemma_count_of_once(s: Seq<Seq<char>>, i: int)
    requires
        0 <= i < s.len(),
        forall|j: int| 0 <= j < s.len() && j != i ==> s[j] != s[i],
    ensures
        s.to_multiset().count(s[i]) == 1,
{
    broadcast use vstd::multiset::group_multiset_axioms;

    let rest = s.remove(i);
    s.to_multiset_ensures();
    rest.to_multiset_ensures();
    assert(s.contains(s[i]));
    assert(s.to_multiset().count(s[i]) > 0);
    assert(!rest.contains(s[i])) by {
        if rest.contains(s[i]) {
            let j = choose|j: int| 0 <= j < rest.len() && rest[j] == s[i];
            if j < i {
                assert(s[j] == s[i]);
            } else {
                assert(s[j + 1] == s[i]);
            }
        }
    }
    assert(rest.to_multiset().count(s[i]) == 0);
    assert(rest.to_multiset() =~= s.to_multiset().remove(s[i]));
}

/// Rearranging a list in which no grapheme occurs twice gives such a list
/// again, and if all its tokens are graphemes they still are.
pub proof fn lemma_rearranged(a: Seq<Seq<char>>, b: Seq<Seq<char>>)
    requires
        a.to_multiset() == b.to_multiset(),
    ensures
        graphemes_once(a) ==> graphemes_once(b),
        assignable(a) ==> assignable(b),
{
    a.to_multiset_ensures();
    b.to_multiset_ensures();
    if graphemes_once(a) {
        assert forall|i: int, j: int|
            0 <= i < j < b.len() && is_grapheme(#[trigger] b[i]) implies b[i] != #[trigger] b[j] by {
            if b[i] == b[j] {
                lemma_count_of_twice(b, i, j);
                assert(a.to_multiset().count(b[i]) >= 2);
                assert(a.contains(b[i]));
                let p = choose|p: int| 0 <= p < a.len() && a[p] == b[i];
                assert forall|q: int| 0 <= q < a.len() && q != p implies a[q] != a[p] by {
                    if q < p {
                        assert(is_grapheme(a[q]) ==> a[q] != a[p]);
                    } else {
                        assert(is_grapheme(a[p]) ==> a[p] != a[q]);
                    }
                }
                lemma_count_of_once(a, p);
            }
        }
    }
    if assignable(a) {
        assert forall|i: int| 0 <= i < b.len() implies is_grapheme(#[trigger] b[i]) by {
            assert(b.contains(b[i]));
            assert(b.to_multiset().count(b[i]) > 0);
            assert(a.contains(b[i]));
            let j = choose|j: int| 0 <= j < a.len() && a[j] == b[i];
            assert(is_grapheme(a[j]));
        }
    }
}

} // verus!
