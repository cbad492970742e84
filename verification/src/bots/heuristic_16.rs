//! An agent that plays whenever it can and keeps its discard piles in order.

use vstd::prelude::*;
use crate::action::Action;
use crate::bot::{
    card_priority, find_kind, first_of_kind, kind_of, lemma_first_of_kind, own_player,
    priority_of, ActionKind, Bot, UNSCORED,
};
use crate::card::Card;
use crate::state::{GameStateView, PlayerPublicState, COUNT_LIMIT};

verus! {

/// "Discard manager": the play priorities of the naive player, with the discard chosen
/// by a score, so that the hand stays organised for future turns.
pub struct Heuristic16Bot;

/// The score of discarding hand card `hand_index` onto discard pile `discard_pile`:
/// higher for a pile whose top is the same card, for an empty pile and for a card of
/// high priority, lower for a deep pile, and a little lower for later hand cards and
/// later piles.
pub open spec fn discard_score(
    state: &GameStateView,
    player: &PlayerPublicState,
    hand_index: usize,
    discard_pile: usize,
) -> int {
    if hand_index >= state.hand@.len() || discard_pile >= 4 {
        UNSCORED as int
    } else {
        let card = state.hand@[hand_index as int];
        let depth = player.discard_counts[discard_pile as int];
        5000 + (if player.discard_tops[discard_pile as int] == Some(card) {
            700int
        } else {
            0
        }) + (if depth == 0 {
            80int
        } else {
            0
        }) + priority_of(card) * 15 - depth * 40 - hand_index * 5 - discard_pile
    }
}

/// Discard `a` is preferred to discard `b`: its score is higher, or the scores are
/// equal and it goes to an earlier pile, or to the same pile from an earlier hand index.
pub open spec fn discard_preferred(
    state: &GameStateView,
    player: &PlayerPublicState,
    a: Action,
    b: Action,
) -> bool {
    let score_a = discard_score(state, player, a->hand_index, a->discard_pile);
    let score_b = discard_score(state, player, b->hand_index, b->discard_pile);
    score_a > score_b || (score_a == score_b && (a->discard_pile < b->discard_pile || (
    a->discard_pile == b->discard_pile && a->hand_index < b->hand_index)))
}

/// `best` is the discard of the list to which no discard of the list is preferred, or
/// nothing where the list holds no discard.
pub open spec fn is_best_discard(
    state: &GameStateView,
    player: &PlayerPublicState,
    actions: Seq<Action>,
    best: Option<Action>,
) -> bool {
    match best {
        Some(action) => {
            &&& actions.contains(action)
            &&& action is Discard
            &&& forall|i: int|
                0 <= i < actions.len() && (#[trigger] actions[i]) is Discard ==> !discard_preferred(
                    state,
                    player,
                    actions[i],
                    action,
                )
        },
        None => forall|i: int| 0 <= i < actions.len() ==> !((#[trigger] actions[i]) is Discard),
    }
}

/// `action` is what the discard manager takes from a list: the first play from the
/// stock, else the first from a discard pile, else the first from the hand, else the
/// end of the turn, else the best discard.
pub open spec fn is_managed_choice(
    state: &GameStateView,
    player: &PlayerPublicState,
    actions: Seq<Action>,
    action: Action,
) -> bool {
    if let Some(first) = first_of_kind(actions, ActionKind::StockPlay) {
        action == first
    } else if let Some(first) = first_of_kind(actions, ActionKind::DiscardPlay) {
        action == first
    } else if let Some(first) = first_of_kind(actions, ActionKind::HandPlay) {
        action == first
    } else if let Some(first) = first_of_kind(actions, ActionKind::EndTurn) {
        action == first
    } else {
        is_best_discard(state, player, actions, Some(action))
    }
}

impl Heuristic16Bot {
    pub fn new() -> (bot: Self) {
        Heuristic16Bot
    }

    fn self_player(state: &GameStateView) -> (player: &PlayerPublicState)
        requires
            state.well_formed(),
        ensures
            state.own_place() matches Some(place) && 0 <= place < state.players@.len() && *player
                == state.players@[place],
    {
        own_player(state)
    }

    fn card_priority(card: Card) -> (priority: i32)
        ensures
            priority == priority_of(card),
    {
        card_priority(card)
    }

    /// Score discards by stacking duplicates, keeping piles shallow, and being stable
    /// under ties.
    pub(crate) fn score_discard(
        state: &GameStateView,
        player: &PlayerPublicState,
        hand_index: usize,
        discard_pile: usize,
    ) -> (score: i32)
        requires
            state.well_formed(),
            state.own_place() matches Some(place) && *player == state.players@[place],
        ensures
            score == discard_score(state, player, hand_index, discard_pile),
            score >= UNSCORED,
    {
        if hand_index >= state.hand.len() {
            return UNSCORED;
        }
        if discard_pile >= 4 {
            return UNSCORED;
        }
        proof {
            state.lemma_own_place();
            let place = state.own_place()->Some_0;
            assert(state.players@[place].discard_counts[discard_pile as int]
                <= COUNT_LIMIT);
        }
        let card = state.hand[hand_index];
        let top = player.discard_tops[discard_pile];
        let depth = player.discard_counts[discard_pile];
        let duplicate_bonus: i32 = match top {
            Some(other) => if other == card {
                700
            } else {
                0
            },
            None => 0,
        };
        let depth_penalty: i32 = (depth as i32) * 40;
        let priority: i32 = Self::card_priority(card) * 15;
        let empty_bonus: i32 = if depth == 0 {
            80
        } else {
            0
        };
        5_000 + duplicate_bonus + empty_bonus + priority - depth_penalty - (hand_index as i32 * 5)
            - (discard_pile as i32)
    }

    /// The discard of the list with the best score.
    pub(crate) fn best_discard_action(state: &GameStateView, legal_actions: &[Action]) -> (best:
        Option<Action>)
        requires
            state.well_formed(),
        ensures
            state.own_place() matches Some(place) && is_best_discard(
                state,
                &state.players@[place],
                legal_actions@,
                best,
            ),
    {
        let player = Self::self_player(state);
        let mut best_action: Option<Action> = None;
        let mut best_score: i32 = i32::MIN;
        let mut best_pile: usize = usize::MAX;
        let mut best_hand_index: usize = usize::MAX;
        let mut index: usize = 0;
        while index < legal_actions.len()
            invariant
                0 <= index <= legal_actions@.len(),
                state.well_formed(),
                state.own_place() matches Some(place) && *player == state.players@[place],
                best_action is None ==> best_score == i32::MIN,
                best_action matches Some(action) ==> action is Discard && best_score
                    == discard_score(state, player, action->hand_index, action->discard_pile)
                    && best_pile == action->discard_pile && best_hand_index == action->hand_index,
                is_best_discard(state, player, legal_actions@.take(index as int), best_action),
            decreases legal_actions@.len() - index,
        {
            let ghost seen = legal_actions@.take(index as int);
            let ghost next = legal_actions@.take(index + 1);
            let action = legal_actions[index];
            assert(next =~= seen.push(action));
            assert forall|i: int| 0 <= i < seen.len() implies seen[i] == next[i] by {}
            let ghost previous = best_action;
            match action {
                Action::Discard { hand_index, discard_pile } => {
                    let score = Self::score_discard(state, player, hand_index, discard_pile);
                    let is_better = if score > best_score {
                        true
                    } else if score == best_score {
                        discard_pile < best_pile || (discard_pile == best_pile && hand_index
                            < best_hand_index)
                    } else {
                        false
                    };
                    if is_better {
                        best_score = score;
                        best_pile = discard_pile;
                        best_hand_index = hand_index;
                        best_action = Some(action);
                        proof {
                            assert(next[index as int] == action);
                        }
                    } else {
                        proof {
                            let kept = previous->Some_0;
                            let at = choose|i: int| 0 <= i < seen.len() && seen[i] == kept;
                            assert(next[at] == kept);
                        }
                    }
                },
                _ => {
                    proof {
                        if previous is Some {
                            let kept = previous->Some_0;
                            let at = choose|i: int| 0 <= i < seen.len() && seen[i] == kept;
                            assert(next[at] == kept);
                        }
                    }
                },
            }
            index = index + 1;
        }
        assert(legal_actions@.take(index as int) =~= legal_actions@);
        best_action
    }
}

impl Default for Heuristic16Bot {
    fn default() -> (bot: Self) {
        Heuristic16Bot
    }
}

impl Bot for Heuristic16Bot {
    fn select_action(&mut self, state: &GameStateView, legal_actions: &[Action]) -> (action:
        Action)
        ensures
            state.own_place() matches Some(place) && is_managed_choice(
                state,
                &state.players@[place],
                legal_actions@,
                action,
            ),
    {
        proof {
            state.lemma_own_place();
        }
        if let Some(action) = find_kind(legal_actions, ActionKind::StockPlay) {
            return action;
        }
        if let Some(action) = find_kind(legal_actions, ActionKind::DiscardPlay) {
            return action;
        }
        if let Some(action) = find_kind(legal_actions, ActionKind::HandPlay) {
            return action;
        }
        if let Some(action) = find_kind(legal_actions, ActionKind::EndTurn) {
            return action;
        }
        proof {
            // An action that is no play and not the end of the turn is a discard.
            lemma_first_of_kind(legal_actions@, ActionKind::StockPlay);
            lemma_first_of_kind(legal_actions@, ActionKind::DiscardPlay);
            lemma_first_of_kind(legal_actions@, ActionKind::HandPlay);
            lemma_first_of_kind(legal_actions@, ActionKind::EndTurn);
            assert(kind_of(legal_actions@[0]) == ActionKind::Discard);
        }
        Self::best_discard_action(state, legal_actions).unwrap()
    }
}

} // verus!
