//! The interface of a decision agent, and what the rule-based agents share.

use vstd::prelude::*;
use crate::action::{Action, CardSource};
use crate::card::{Card, MAX_CARD_VALUE};
use crate::state::{GameStateView, PlayerPublicState};

verus! {

/// Interface for defining custom agents.
///
/// An agent is asked with the snapshot of the game for its player and a list of
/// actions that holds at least one action, and answers with an action of that list.
pub trait Bot {
    fn select_action(&mut self, state: &GameStateView, legal_actions: &[Action]) -> (action:
        Action)
        requires
            legal_actions@.len() > 0,
            state.well_formed(),
        ensures
            legal_actions@.contains(action),
    ;
}

/// The kinds of action the rule-based agents tell apart.
#[derive(Copy, Clone, Debug, PartialEq, Eq, Structural)]
pub enum ActionKind {
    /// A play from the stock.
    StockPlay,
    /// A play from a discard pile.
    DiscardPlay,
    /// A play from the hand.
    HandPlay,
    /// A discard.
    Discard,
    /// The end of the turn.
    EndTurn,
}

/// The kind of an action.
pub open spec fn kind_of(action: Action) -> ActionKind {
    match action {
        Action::Play { source: CardSource::Stock, .. } => ActionKind::StockPlay,
        Action::Play { source: CardSource::Discard(_), .. } => ActionKind::DiscardPlay,
        Action::Play { source: CardSource::Hand(_), .. } => ActionKind::HandPlay,
        Action::Discard { .. } => ActionKind::Discard,
        Action::EndTurn => ActionKind::EndTurn,
    }
}

/// The place of the first action of a kind in a list, looking from place `from` on.
pub open spec fn first_place_from(actions: Seq<Action>, kind: ActionKind, from: int) -> Option<int>
    decreases actions.len() - from,
{
    if from < 0 || from >= actions.len() {
        None
    } else if kind_of(actions[from]) == kind {
        Some(from)
    } else {
        first_place_from(actions, kind, from + 1)
    }
}

/// The first action of a kind in a list.
pub open spec fn first_of_kind(actions: Seq<Action>, kind: ActionKind) -> Option<Action> {
    match first_place_from(actions, kind, 0) {
        Some(place) => Some(actions[place]),
        None => None,
    }
}

/// The first place from `from` on holds an action of the kind, and no earlier place
/// from `from` on does.
pub proof fn lemma_first_place_from(actions: Seq<Action>, kind: ActionKind, from: int)
    requires
        0 <= from,
    ensures
        match first_place_from(actions, kind, from) {
            Some(place) => from <= place < actions.len() && kind_of(actions[place]) == kind
                && forall|i: int| from <= i < place ==> kind_of(#[trigger] actions[i]) != kind,
            None => forall|i: int|
                from <= i < actions.len() ==> kind_of(#[trigger] actions[i]) != kind,
        },
    decreases actions.len() - from,
{
    if from < actions.len() && kind_of(actions[from]) != kind {
        lemma_first_place_from(actions, kind, from + 1);
    }
}

/// The first action of a kind is an action of the list and of that kind; where there is
/// none, the list holds no action of that kind.
pub proof fn lemma_first_of_kind(actions: Seq<Action>, kind: ActionKind)
    ensures
        match first_of_kind(actions, kind) {
            Some(action) => actions.contains(action) && kind_of(action) == kind,
            None => forall|i: int| 0 <= i < actions.len() ==> kind_of(#[trigger] actions[i]) != kind,
        },
{
    lemma_first_place_from(actions, kind, 0);
}

/// The kind of an action.
pub fn action_kind(action: &Action) -> (kind: ActionKind)
    ensures
        kind == kind_of(*action),
{
    match action {
        Action::Play { source, .. } => match source {
            CardSource::Stock => ActionKind::StockPlay,
            CardSource::Discard(_) => ActionKind::DiscardPlay,
            CardSource::Hand(_) => ActionKind::HandPlay,
        },
        Action::Discard { .. } => ActionKind::Discard,
        Action::EndTurn => ActionKind::EndTurn,
    }
}

/// Finds the first action of a kind in a list.
pub fn find_kind(legal_actions: &[Action], kind: ActionKind) -> (found: Option<Action>)
    ensures
        found == first_of_kind(legal_actions@, kind),
        found matches Some(action) ==> legal_actions@.contains(action) && kind_of(action) == kind,
{
    proof {
        lemma_first_of_kind(legal_actions@, kind);
    }
    let mut index: usize = 0;
    while index < legal_actions.len()
        invariant
            0 <= index <= legal_actions@.len(),
            first_place_from(legal_actions@, kind, 0) == first_place_from(
                legal_actions@,
                kind,
                index as int,
            ),
        decreases legal_actions@.len() - index,
    {
        if action_kind(&legal_actions[index]) == kind {
            return Some(legal_actions[index]);
        }
        index = index + 1;
    }
    None
}

/// Whether a list holds an action.
pub fn contains_action(legal_actions: &[Action], action: Action) -> (found: bool)
    ensures
        found == legal_actions@.contains(action),
{
    let mut index: usize = 0;
    while index < legal_actions.len()
        invariant
            0 <= index <= legal_actions@.len(),
            forall|i: int| 0 <= i < index ==> legal_actions@[i] != action,
        decreases legal_actions@.len() - index,
    {
        if legal_actions[index] == action {
            return true;
        }
        index = index + 1;
    }
    false
}

/// How much a card is worth keeping in play: its value, and one more than the highest
/// value for the wildcard.
pub open spec fn priority_of(card: Card) -> int {
    match card {
        Card::Number(value) => value as int,
        Card::SkipBo => MAX_CARD_VALUE + 1,
    }
}

/// How much a card is worth keeping in play.
pub fn card_priority(card: Card) -> (priority: i32)
    ensures
        priority == priority_of(card),
{
    match card {
        Card::Number(value) => value as i32,
        Card::SkipBo => 13,
    }
}

/// The score of an action that cannot be taken.
pub const UNSCORED: i32 = -1073741824;

/// The card a play from `source` would move, as far as the snapshot shows it: a hand
/// card by its index, the top of the player's stock, or the top of a discard pile.
pub open spec fn shown_card(
    state: &GameStateView,
    player: &PlayerPublicState,
    source: CardSource,
) -> Option<Card> {
    match source {
        CardSource::Hand(index) => if index < state.hand@.len() {
            Some(state.hand@[index as int])
        } else {
            None
        },
        CardSource::Stock => player.stock_top,
        CardSource::Discard(index) => if index < 4 {
            player.discard_tops[index as int]
        } else {
            None
        },
    }
}

/// The card a play from `source` would move, as far as the snapshot shows it.
pub fn source_card(state: &GameStateView, player: &PlayerPublicState, source: CardSource) -> (card:
    Option<Card>)
    ensures
        card == shown_card(state, player, source),
{
    match source {
        CardSource::Hand(index) => if index < state.hand.len() {
            Some(state.hand[index])
        } else {
            None
        },
        CardSource::Stock => player.stock_top,
        CardSource::Discard(index) => if index < 4 {
            player.discard_tops[index]
        } else {
            None
        },
    }
}

/// The snapshot's own player.
pub fn own_player(state: &GameStateView) -> (player: &PlayerPublicState)
    requires
        state.well_formed(),
    ensures
        state.own_place() matches Some(place) && 0 <= place < state.players@.len() && *player
            == state.players@[place],
{
    proof {
        state.lemma_own_place();
    }
    let place = state.own_index().unwrap();
    &state.players[place]
}

} // verus!
