//! An agent that plays whenever it can and prefers the hand to the discard piles.

use vstd::prelude::*;
use crate::action::Action;
use crate::bot::{find_kind, first_of_kind, ActionKind, Bot};
use crate::state::GameStateView;

verus! {

/// Player that always plays whenever possible and keeps the discard piles for later.
///
/// Policy:
/// - If any play is listed, take a play: from the stock before the hand before a
///   discard pile, and the first one listed of its kind.
/// - Otherwise, if the end of the turn is listed, end the turn.
/// - Otherwise take the first discard listed.
pub struct Heuristic15Bot;

/// The action the player takes from a list.
pub open spec fn eager_choice(actions: Seq<Action>) -> Action {
    if let Some(action) = first_of_kind(actions, ActionKind::StockPlay) {
        action
    } else if let Some(action) = first_of_kind(actions, ActionKind::HandPlay) {
        action
    } else if let Some(action) = first_of_kind(actions, ActionKind::DiscardPlay) {
        action
    } else if let Some(action) = first_of_kind(actions, ActionKind::EndTurn) {
        action
    } else if let Some(action) = first_of_kind(actions, ActionKind::Discard) {
        action
    } else {
        actions[0]
    }
}

impl Heuristic15Bot {
    pub fn new() -> (bot: Self) {
        Heuristic15Bot
    }
}

impl Default for Heuristic15Bot {
    fn default() -> (bot: Self) {
        Heuristic15Bot
    }
}

impl Bot for Heuristic15Bot {
    fn select_action(&mut self, state: &GameStateView, legal_actions: &[Action]) -> (action:
        Action)
        ensures
            action == eager_choice(legal_actions@),
    {
        if let Some(action) = find_kind(legal_actions, ActionKind::StockPlay) {
            return action;
        }
        if let Some(action) = find_kind(legal_actions, ActionKind::HandPlay) {
            return action;
        }
        if let Some(action) = find_kind(legal_actions, ActionKind::DiscardPlay) {
            return action;
        }
        if let Some(action) = find_kind(legal_actions, ActionKind::EndTurn) {
            return action;
        }
        if let Some(action) = find_kind(legal_actions, ActionKind::Discard) {
            return action;
        }
        legal_actions[0]
    }
}

} // verus!
