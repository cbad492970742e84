//! What a player holds: the stock pile, the hand and four discard piles.

use vstd::prelude::*;
use crate::action::CardSource;
use crate::card::Card;
use crate::model::PlayerModel;

verus! {

/// The holdings of one player.
#[derive(Clone)]
pub struct PlayerState {
    /// The stock pile; its top is the last element.
    pub stock: Vec<Card>,
    /// The hand, in index order.
    pub hand: Vec<Card>,
    /// The discard piles; the top of each is its last element.
    pub discard_piles: [Vec<Card>; 4],
    /// Set once the stock has been emptied.
    pub has_won: bool,
}

impl View for PlayerState {
    type V = PlayerModel;

    open spec fn view(&self) -> PlayerModel {
        PlayerModel {
            stock: self.stock@,
            hand: self.hand@,
            discards: Seq::new(4, |d: int| self.discard_piles[d]@),
            has_won: self.has_won,
        }
    }
}

impl PlayerState {
    /// A player who holds the given stock and nothing else.
    pub fn new(stock: Vec<Card>) -> (player: Self)
        ensures
            player@.stock == stock@,
            player@.hand == Seq::<Card>::empty(),
            player@.discards == Seq::new(4, |d: int| Seq::<Card>::empty()),
            !player@.has_won,
    {
        let player = PlayerState {
            stock,
            hand: Vec::with_capacity(5),
            discard_piles: [Vec::new(), Vec::new(), Vec::new(), Vec::new()],
            has_won: false,
        };
        assert(player@.discards =~= Seq::new(4, |d: int| Seq::<Card>::empty()));
        player
    }

    /// The top card of discard pile `index`, if there is such a pile and it holds a card.
    pub fn discard_top(&self, index: usize) -> (top: Option<Card>)
        ensures
            top == self@.source_card(CardSource::Discard(index)),
    {
        if index >= 4 {
            return None;
        }
        let pile = &self.discard_piles[index];
        if pile.len() == 0 {
            None
        } else {
            Some(pile[pile.len() - 1])
        }
    }

    /// The top card of the stock, if it holds one.
    pub fn stock_top(&self) -> (top: Option<Card>)
        ensures
            top == self@.source_card(CardSource::Stock),
    {
        if self.stock.len() == 0 {
            None
        } else {
            Some(self.stock[self.stock.len() - 1])
        }
    }

    /// The top card of every discard pile.
    pub fn discard_tops(&self) -> (tops: [Option<Card>; 4])
        ensures
            forall|d: int|
                0 <= d < 4 ==> #[trigger] tops[d] == self@.source_card(
                    CardSource::Discard(d as usize),
                ),
    {
        [self.discard_top(0), self.discard_top(1), self.discard_top(2), self.discard_top(3)]
    }

    /// The number of cards on every discard pile.
    pub fn discard_counts(&self) -> (counts: [usize; 4])
        ensures
            forall|d: int| 0 <= d < 4 ==> #[trigger] counts[d] == self@.discards[d].len(),
    {
        [
            self.discard_piles[0].len(),
            self.discard_piles[1].len(),
            self.discard_piles[2].len(),
            self.discard_piles[3].len(),
        ]
    }
}

} // verus!
