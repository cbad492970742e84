//! A shared build pile: cards are played onto it in ascending order, and a pile that
//! reaches the highest value is taken away and starts over.

use vstd::prelude::*;
use crate::card::{Card, MAX_CARD_VALUE};
use crate::model::next_value;
use crate::state::BuildPileView;

verus! {

/// A build pile.
#[derive(Clone)]
pub struct BuildPile {
    cards: Vec<Card>,
}

impl View for BuildPile {
    type V = Seq<Card>;

    /// The cards of the pile, in the order they were played.
    closed spec fn view(&self) -> Seq<Card> {
        self.cards@
    }
}

impl BuildPile {
    /// An empty pile.
    pub fn new() -> (pile: Self)
        ensures
            pile@ == Seq::<Card>::empty(),
    {
        BuildPile { cards: Vec::with_capacity(12) }
    }

    /// The value the pile asks for next: the number of its cards modulo the highest
    /// value, plus one.
    pub fn next_value(&self) -> (value: u8)
        ensures
            value == next_value(self@),
            1 <= value <= MAX_CARD_VALUE,
    {
        let within: usize = self.cards.len() % 12;
        within as u8 + 1
    }

    /// Puts a card on the pile. The caller has checked that the card matches.
    pub fn push(&mut self, card: Card)
        ensures
            final(self)@ == old(self)@.push(card),
    {
        self.cards.push(card);
    }

    /// Whether the pile has reached the highest value.
    pub fn is_complete(&self) -> (complete: bool)
        ensures
            complete == (self@.len() == MAX_CARD_VALUE),
    {
        self.cards.len() == 12
    }

    /// Takes all cards off the pile, which starts over asking for a 1.
    pub fn take_cards(&mut self) -> (cards: Vec<Card>)
        ensures
            cards@ == old(self)@,
            final(self)@ == Seq::<Card>::empty(),
            next_value(final(self)@) == 1,
    {
        let mut taken: Vec<Card> = Vec::new();
        std::mem::swap(&mut taken, &mut self.cards);
        taken
    }

    /// The public view of the pile: its cards and the value it asks for.
    pub fn as_view(&self) -> (view: BuildPileView)
        ensures
            view.cards@ == self@,
            view.next_value == next_value(self@),
    {
        BuildPileView { cards: self.cards.clone(), next_value: self.next_value() }
    }
}

} // verus!
