//! The card model and the fixed composition of the deck.

use vstd::prelude::*;

verus! {

/// Lowest value a numbered card can carry.
pub const MIN_CARD_VALUE: u8 = 1;

/// Highest value a numbered card can carry; a build pile holding this many cards is complete.
pub const MAX_CARD_VALUE: u8 = 12;

/// Number of wildcards in a full deck.
pub const SKIP_BO_COUNT: usize = 18;

/// Number of copies of each numbered value in a full deck.
pub const COPIES_PER_VALUE: usize = 12;

/// Number of cards a hand is refilled to.
pub const HAND_SIZE: usize = 5;

/// Number of discard piles each player owns.
pub const DISCARD_PILE_COUNT: usize = 4;

/// Number of shared build piles.
pub const BUILD_PILE_COUNT: usize = 4;

/// Largest number of players a game can have.
pub const MAX_PLAYERS: usize = 6;

/// Number of cards in a full deck.
pub const DECK_SIZE: usize = 162;

/// A card: either a numbered card or the wildcard.
#[derive(Copy, Clone, Debug, PartialEq, Eq, Hash, Structural)]
pub enum Card {
    /// Numbered card between 1 and 12.
    Number(u8),
    /// Wildcard. Counts as any number when played.
    SkipBo,
}

impl Card {
    /// Whether the card satisfies a pile that asks for `value`.
    pub open spec fn matches(self, value: int) -> bool {
        match self {
            Card::Number(v) => v == value,
            Card::SkipBo => true,
        }
    }

    /// Returns true if the card is the wildcard.
    pub fn is_skip_bo(&self) -> (b: bool)
        ensures
            b == (*self is SkipBo),
    {
        match self {
            Card::SkipBo => true,
            Card::Number(_) => false,
        }
    }

    /// Returns the numeric value when available.
    pub fn value(&self) -> (v: Option<u8>)
        ensures
            v == match *self {
                Card::Number(n) => Some(n),
                Card::SkipBo => None::<u8>,
            },
    {
        match self {
            Card::Number(v) => Some(*v),
            Card::SkipBo => None,
        }
    }

    /// Checks whether the card can legally satisfy the requested value.
    pub fn matches_value(&self, value: u8) -> (b: bool)
        ensures
            b == self.matches(value as int),
    {
        match self {
            Card::SkipBo => true,
            Card::Number(v) => *v == value,
        }
    }
}

/// The full deck in its fixed order: twelve runs of the values 1 to 12, then the wildcards.
pub open spec fn full_deck_cards() -> Seq<Card> {
    Seq::new(
        DECK_SIZE as nat,
        |i: int|
            if i < COPIES_PER_VALUE * MAX_CARD_VALUE {
                Card::Number((i % (MAX_CARD_VALUE as int) + 1) as u8)
            } else {
                Card::SkipBo
            },
    )
}

/// Builds a full 162-card deck in deterministic order (unshuffled).
pub fn full_deck() -> (deck: Vec<Card>)
    ensures
        deck@ == full_deck_cards(),
{
    let mut deck: Vec<Card> = Vec::with_capacity(DECK_SIZE);
    let mut copy: usize = 0;
    while copy < COPIES_PER_VALUE
        invariant
            copy <= COPIES_PER_VALUE,
            deck@.len() == copy * 12,
            forall|i: int| 0 <= i < deck@.len() ==> deck@[i] == full_deck_cards()[i],
        decreases COPIES_PER_VALUE - copy,
    {
        let mut value: u8 = MIN_CARD_VALUE;
        while value <= MAX_CARD_VALUE
            invariant
                copy < COPIES_PER_VALUE,
                MIN_CARD_VALUE <= value <= MAX_CARD_VALUE + 1,
                deck@.len() == copy * 12 + (value - 1),
                forall|i: int| 0 <= i < deck@.len() ==> deck@[i] == full_deck_cards()[i],
            decreases MAX_CARD_VALUE + 1 - value,
        {
            deck.push(Card::Number(value));
            value = value + 1;
        }
        copy = copy + 1;
    }
    let mut wild: usize = 0;
    while wild < SKIP_BO_COUNT
        invariant
            wild <= SKIP_BO_COUNT,
            deck@.len() == 144 + wild,
            forall|i: int| 0 <= i < deck@.len() ==> deck@[i] == full_deck_cards()[i],
        decreases SKIP_BO_COUNT - wild,
    {
        deck.push(Card::SkipBo);
        wild = wild + 1;
    }
    deck
}

} // verus!
