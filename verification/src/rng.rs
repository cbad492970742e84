//! The seeded random number generator that orders the deck and the recycle pile.

use vstd::prelude::*;
use rand::rngs::StdRng;
use rand::seq::SliceRandom;
use rand::SeedableRng;
use crate::action::Action;
use crate::card::Card;

verus! {

/// `rand::rngs::StdRng`, the generator a game owns. Its state is opaque here.
#[verifier::external_type_specification]
#[verifier::external_body]
pub struct ExStdRng(StdRng);

/// Calls `StdRng::seed_from_u64` of `rand`, which builds a generator from a 64-bit
/// seed. Nothing is claimed of the generator.
#[verifier::external_body]
pub(crate) fn seeded_rng(seed: u64) -> (rng: StdRng) {
    StdRng::seed_from_u64(seed)
}

/// Calls `SliceRandom::shuffle` of `rand` on the cards. The method reorders the slice in
/// place by swapping pairs of its elements, so afterwards the vector holds the same
/// cards, each as often as before. Nothing is claimed of the order or of the generator.
#[verifier::external_body]
pub(crate) fn shuffle_cards(cards: &mut Vec<Card>, rng: &mut StdRng)
    ensures
        final(cards)@.to_multiset() == old(cards)@.to_multiset(),
{
    cards.shuffle(rng)
}

/// Calls `SliceRandom::choose` of `rand` on the actions. The method hands out one
/// element of the slice, and nothing for an empty slice. Nothing is claimed of which
/// element it is or of the generator.
#[verifier::external_body]
pub(crate) fn choose_action(actions: &[Action], rng: &mut StdRng) -> (chosen: Option<Action>)
    ensures
        actions@.len() == 0 ==> chosen is None,
        actions@.len() > 0 ==> chosen is Some && actions@.contains(chosen->Some_0),
{
    actions.choose(rng).copied()
}

} // verus!
