//! A rule-based agent that scores every action and takes the best.

use vstd::prelude::*;
use crate::action::{Action, CardSource};
use crate::bot::{card_priority, own_player, priority_of, shown_card, source_card, Bot, UNSCORED};
use crate::card::{Card, MAX_CARD_VALUE};
use crate::state::{GameStateView, PlayerPublicState, COUNT_LIMIT};

verus! {

/// Rule-based agent that plays sensible moves without search or learning.
///
/// - Plays from the stock before the discard piles before the hand.
/// - Prefers plays that push build piles forward, the more so the longer the pile and
///   the nearer its completion.
/// - Treats the wildcard as slightly more valuable than any numbered card.
/// - When discarding, prefers to stack a card on its like and to keep the discard
///   piles shallow.
/// - Ends the turn only when nothing else scores.
pub struct HeuristicBot;

/// The score of playing the card at `source` onto build pile `build_pile`.
pub open spec fn basic_play_score(
    state: &GameStateView,
    player: &PlayerPublicState,
    source: CardSource,
    build_pile: usize,
) -> int {
    if build_pile >= 4 {
        UNSCORED as int
    } else {
        match shown_card(state, player, source) {
            None => UNSCORED as int,
            Some(card) => {
                let pile = state.build_piles[build_pile as int];
                (match source {
                    CardSource::Stock => 10000int,
                    CardSource::Discard(_) => 4000,
                    CardSource::Hand(_) => 2000,
                }) + priority_of(card) * 60 + pile.cards@.len() * 40 + pile.next_value * 25 + (
                if pile.next_value == MAX_CARD_VALUE {
                    1000int
                } else {
                    0
                }) + (if card is SkipBo {
                    300int
                } else {
                    0
                })
            },
        }
    }
}

/// The score of discarding hand card `hand_index` onto discard pile `discard_pile`.
pub open spec fn basic_discard_score(
    state: &GameStateView,
    player: &PlayerPublicState,
    hand_index: usize,
    discard_pile: usize,
) -> int {
    if hand_index >= state.hand@.len() {
        UNSCORED as int
    } else {
        let card = state.hand@[hand_index as int];
        let top = shown_card(state, player, CardSource::Discard(discard_pile));
        let depth = if discard_pile < 4 {
            player.discard_counts[discard_pile as int]
        } else {
            0
        };
        1000 + (if top == Some(card) {
            600int
        } else {
            0
        }) + priority_of(card) * 12 - depth * 20 - hand_index * 10
    }
}

/// The score of an action.
pub open spec fn basic_score(state: &GameStateView, player: &PlayerPublicState, action: Action) -> int {
    match action {
        Action::Play { source, build_pile } => basic_play_score(state, player, source, build_pile),
        Action::Discard { hand_index, discard_pile } => basic_discard_score(
            state,
            player,
            hand_index,
            discard_pile,
        ),
        Action::EndTurn => -5000,
    }
}

/// The action at `place` has the highest score of the list and is the last one
/// listed that has it.
pub open spec fn is_last_best_at(
    state: &GameStateView,
    player: &PlayerPublicState,
    actions: Seq<Action>,
    place: int,
) -> bool {
    &&& 0 <= place < actions.len()
    &&& forall|i: int|
        0 <= i < actions.len() ==> basic_score(state, player, #[trigger] actions[i])
            <= basic_score(state, player, actions[place])
    &&& forall|i: int|
        place < i < actions.len() ==> basic_score(state, player, #[trigger] actions[i])
            < basic_score(state, player, actions[place])
}

impl HeuristicBot {
    pub fn new() -> (bot: Self) {
        HeuristicBot
    }

    fn self_player(state: &GameStateView) -> (player: &PlayerPublicState)
        requires
            state.well_formed(),
        ensures
            state.own_place() matches Some(place) && 0 <= place < state.players@.len() && *player
                == state.players@[place],
    {
        own_player(state)
    }

    fn card_priority(card: Card) -> (priority: i32)
        ensures
            priority == priority_of(card),
    {
        card_priority(card)
    }

    /// Score how good it is to play a given card onto a specific build pile.
    fn score_play(state: &GameStateView, source: CardSource, build_pile: usize) -> (score: i32)
        requires
            state.well_formed(),
        ensures
            state.own_place() matches Some(place) && score == basic_play_score(
                state,
                &state.players@[place],
                source,
                build_pile,
            ),
    {
        let player = Self::self_player(state);
        if build_pile >= 4 {
            return UNSCORED;
        }
        let pile = &state.build_piles[build_pile];
        assert(state.build_piles[build_pile as int].cards@.len() <= COUNT_LIMIT);
        let card = match source_card(state, player, source) {
            Some(card) => card,
            None => {
                return UNSCORED;
            },
        };
        let source_bonus: i32 = match source {
            CardSource::Stock => 10_000,
            CardSource::Discard(_) => 4_000,
            CardSource::Hand(_) => 2_000,
        };
        let value_score: i32 = Self::card_priority(card) * 60;
        let progress_bonus: i32 = (pile.cards.len() as i32) * 40;
        let closeness_bonus: i32 = (pile.next_value as i32) * 25;
        let completion_bonus: i32 = if pile.next_value == MAX_CARD_VALUE {
            1_000
        } else {
            0
        };
        let wild_bonus: i32 = if card.is_skip_bo() {
            300
        } else {
            0
        };
        source_bonus + value_score + progress_bonus + closeness_bonus + completion_bonus
            + wild_bonus
    }

    /// Score how good it is to discard a specific hand card onto a chosen discard pile.
    fn score_discard(state: &GameStateView, hand_index: usize, discard_pile: usize) -> (score: i32)
        requires
            state.well_formed(),
        ensures
            state.own_place() matches Some(place) && score == basic_discard_score(
                state,
                &state.players@[place],
                hand_index,
                discard_pile,
            ),
    {
        if hand_index >= state.hand.len() {
            return UNSCORED;
        }
        let card = state.hand[hand_index];
        let player = Self::self_player(state);
        proof {
            state.lemma_own_place();
        }
        let existing_top = source_card(state, player, CardSource::Discard(discard_pile));
        let duplicate_bonus: i32 = match existing_top {
            Some(top) => if top == card {
                600
            } else {
                0
            },
            None => 0,
        };
        let pile_depth: i32 = if discard_pile < 4 {
            assert(player.discard_counts[discard_pile as int] <= COUNT_LIMIT);
            player.discard_counts[discard_pile] as i32
        } else {
            0
        };
        let priority: i32 = Self::card_priority(card) * 12;
        let spacing_penalty: i32 = pile_depth * 20;
        1_000 + duplicate_bonus + priority - spacing_penalty - (hand_index as i32 * 10)
    }

    /// The score of an action.
    fn score_action(state: &GameStateView, action: &Action) -> (score: i32)
        requires
            state.well_formed(),
        ensures
            state.own_place() matches Some(place) && score == basic_score(
                state,
                &state.players@[place],
                *action,
            ),
    {
        match action {
            Action::Play { source, build_pile } => Self::score_play(state, *source, *build_pile),
            Action::Discard { hand_index, discard_pile } => Self::score_discard(
                state,
                *hand_index,
                *discard_pile,
            ),
            Action::EndTurn => -5_000,
        }
    }
}

impl Default for HeuristicBot {
    fn default() -> (bot: Self) {
        HeuristicBot
    }
}

impl Bot for HeuristicBot {
    fn select_action(&mut self, state: &GameStateView, legal_actions: &[Action]) -> (action:
        Action)
        ensures
            state.own_place() matches Some(place) && exists|at: int|
                #[trigger] is_last_best_at(state, &state.players@[place], legal_actions@, at)
                    && action == legal_actions@[at],
    {
        let ghost player = &state.players@[state.own_place()->Some_0];
        let mut best: usize = 0;
        let mut best_score: i32 = Self::score_action(state, &legal_actions[0]);
        let mut index: usize = 1;
        while index < legal_actions.len()
            invariant
                1 <= index <= legal_actions@.len(),
                0 <= best < index,
                state.well_formed(),
                player == &state.players@[state.own_place()->Some_0],
                best_score == basic_score(state, player, legal_actions@[best as int]),
                forall|i: int|
                    0 <= i < index ==> basic_score(state, player, #[trigger] legal_actions@[i])
                        <= best_score,
                forall|i: int|
                    best < i < index ==> basic_score(state, player, #[trigger] legal_actions@[i])
                        < best_score,
            decreases legal_actions@.len() - index,
        {
            let score = Self::score_action(state, &legal_actions[index]);
            if score >= best_score {
                best = index;
                best_score = score;
            }
            index = index + 1;
        }
        proof {
            assert(is_last_best_at(state, player, legal_actions@, best as int));
        }
        legal_actions[best]
    }
}

} // verus!
