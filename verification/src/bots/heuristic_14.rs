//! A naive agent that plays whenever it can.

use vstd::prelude::*;
use crate::action::Action;
use crate::bot::{find_kind, first_of_kind, ActionKind, Bot};
use crate::state::GameStateView;

verus! {

/// Naive player that always plays whenever possible.
///
/// Policy:
/// - If any play is listed, take a play: from the stock before a discard pile before
///   the hand, and the first one listed of its kind.
/// - Otherwise, if the end of the turn is listed, end the turn.
/// - Otherwise take the first discard listed.
pub struct Heuristic14Bot;

/// The action the naive player takes from a list.
pub open spec fn naive_choice(actions: Seq<Action>) -> Action {
    if let Some(action) = first_of_kind(actions, ActionKind::StockPlay) {
        action
    } else if let Some(action) = first_of_kind(actions, ActionKind::DiscardPlay) {
        action
    } else if let Some(action) = first_of_kind(actions, ActionKind::HandPlay) {
        action
    } else if let Some(action) = first_of_kind(actions, ActionKind::EndTurn) {
        action
    } else if let Some(action) = first_of_kind(actions, ActionKind::Discard) {
        action
    } else {
        actions[0]
    }
}

impl Heuristic14Bot {
    pub fn new() -> (bot: Self) {
        Heuristic14Bot
    }
}

impl Default for Heuristic14Bot {
    fn default() -> (bot: Self) {
        Heuristic14Bot
    }
}

impl Bot for Heuristic14Bot {
    fn select_action(&mut self, state: &GameStateView, legal_actions: &[Action]) -> (action:
        Action)
        ensures
            action == naive_choice(legal_actions@),
    {
        if let Some(action) = find_kind(legal_actions, ActionKind::StockPlay) {
            return action;
        }
        if let Some(action) = find_kind(legal_actions, ActionKind::DiscardPlay) {
            return action;
        }
        if let Some(action) = find_kind(legal_actions, ActionKind::HandPlay) {
            return action;
        }
        if let Some(action) = find_kind(legal_actions, ActionKind::EndTurn) {
            return action;
        }
        if let Some(action) = find_kind(legal_actions, ActionKind::Discard) {
            return action;
        }
        legal_actions[0]
    }
}

} // verus!
