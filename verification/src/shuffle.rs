//! The seeded shuffle that constrained-random construction relies on.
//!
//! The permutation itself is computed by `rand`; this module only declares
//! the generator type and states what is taken on trust about the call.

use crate::tokens::token_views;
use rand::seq::SliceRandom;
use rand_chacha::ChaCha8Rng;
use vstd::prelude::*;

verus! {

/// `rand_chacha::ChaCha8Rng`, carried through as an opaque value.
#[verifier::external_type_specification]
#[verifier::external_body]
pub struct ExChaCha8Rng(ChaCha8Rng);

/// What `SliceRandom::shuffle` makes of `tokens` when it draws from `rng`.
pub uninterp spec fn shuffled(rng: ChaCha8Rng, tokens: Seq<Seq<char>>) -> Seq<Seq<char>>;

/// Calls `rand::seq::SliceRandom::shuffle` on the list.
///
/// Taken on trust: the outcome is a function of the generator's state and of
/// the list, and it is a rearrangement of the list (the shuffle only swaps
/// elements). Nothing is claimed about the generator's state afterwards.
#[verifier::external_body]
pub(crate) fn shuffle_tokens(rng: &mut ChaCha8Rng, tokens: &mut Vec<String>)
    ensures
        token_views(final(tokens)@) == shuffled(*old(rng), token_views(old(tokens)@)),
        token_views(final(tokens)@).to_multiset() == token_views(old(tokens)@).to_multiset(),
        final(tokens)@.len() == old(tokens)@.len(),
{
    tokens.shuffle(rng);
}

} // verus!
