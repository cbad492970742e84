//! Errors reported by the engine.

use vstd::prelude::*;
use crate::action::PlayerId;

verus! {

/// Details of invalid user actions.
#[derive(Copy, Clone, Debug, PartialEq, Eq, Structural)]
pub enum InvalidAction {
    /// The hand holds no card at this index.
    HandIndex(usize),
    /// There is no discard pile with this index.
    DiscardIndex(usize),
    /// There is no build pile with this index.
    BuildPileIndex(usize),
    /// The selected source holds no card.
    NoCardAvailable,
    /// The card does not match the value the build pile asks for.
    CardMismatch { required: u8 },
    /// The turn cannot be ended while the hand holds cards.
    MustDiscard,
    /// Nothing can be discarded from an empty hand.
    EmptyHand,
}

/// Errors that can occur when manipulating the game state.
#[derive(Debug)]
pub enum GameError {
    /// The player index is out of range.
    InvalidPlayer(PlayerId),
    /// It is not the specified player's turn.
    NotPlayersTurn,
    /// The action is inconsistent with the current state.
    InvalidAction(InvalidAction),
    /// The game is already over.
    GameOver,
    /// The game cannot be set up as asked.
    InvalidConfiguration(&'static str),
}

impl From<InvalidAction> for GameError {
    /// An action fault as the error of an operation.
    fn from(fault: InvalidAction) -> (error: GameError) {
        GameError::InvalidAction(fault)
    }
}

impl vstd::std_specs::convert::FromSpecImpl<InvalidAction> for GameError {
    open spec fn obeys_from_spec() -> bool {
        true
    }

    open spec fn from_spec(fault: InvalidAction) -> GameError {
        GameError::InvalidAction(fault)
    }
}

} // verus!
