//! Actions a player can take and the places a played card can come from.

use vstd::prelude::*;
use crate::card::BUILD_PILE_COUNT;

verus! {

/// Zero-based index of a player within the game.
pub type PlayerId = usize;

/// Location a card can be taken from when performing a play action.
#[derive(Copy, Clone, Debug, PartialEq, Eq, Structural)]
pub enum CardSource {
    /// Card taken from the active player's hand by index.
    Hand(usize),
    /// Card taken from the active player's stock pile (top card).
    Stock,
    /// Card taken from one of the active player's discard piles (top card).
    Discard(usize),
}

/// Action available to an agent during its turn.
#[derive(Copy, Clone, Debug, PartialEq, Eq, Structural)]
pub enum Action {
    /// Play a card from a source onto the specified build pile.
    Play { source: CardSource, build_pile: usize },
    /// Discard a card from the hand onto one of the four personal discard piles.
    Discard { hand_index: usize, discard_pile: usize },
    /// Finish the turn when the hand is empty.
    EndTurn,
}

impl Action {
    /// The build pile a play targets; nothing for the other actions.
    pub open spec fn target_pile(self) -> Option<usize> {
        match self {
            Action::Play { build_pile, .. } => Some(build_pile),
            _ => None,
        }
    }

    /// Returns the build pile index if the action is a play.
    pub fn build_pile(&self) -> (pile: Option<usize>)
        ensures
            pile == self.target_pile(),
    {
        match self {
            Action::Play { build_pile, .. } => Some(*build_pile),
            _ => None,
        }
    }

    /// Validates whether the build pile index lies within range.
    pub fn build_pile_in_range(&self) -> (ok: bool)
        ensures
            ok == match self.target_pile() {
                Some(idx) => idx < BUILD_PILE_COUNT,
                None => true,
            },
    {
        match self.build_pile() {
            Some(idx) => idx < BUILD_PILE_COUNT,
            None => true,
        }
    }
}

} // verus!
