//! An agent that manages its discards and picks the stock play with the best
//! follow-ups.

use vstd::prelude::*;
use crate::action::{Action, CardSource};
use crate::bot::{
    card_priority, find_kind, first_of_kind, kind_of, lemma_first_of_kind, own_player,
    priority_of, ActionKind, Bot, UNSCORED,
};
use crate::bots::heuristic_16::{discard_score, is_best_discard, Heuristic16Bot};
use crate::card::{Card, MAX_CARD_VALUE};
use crate::state::{GameStateView, PlayerPublicState, COUNT_LIMIT};

verus! {

/// "Discard-aware planner": the discard manager with a stock-play chooser that leans
/// on the discard tops and hand cards that could follow.
pub struct Heuristic18Bot;

/// How many of the cards match a value.
pub open spec fn matching_count(cards: Seq<Card>, value: int) -> nat
    decreases cards.len(),
{
    if cards.len() == 0 {
        0
    } else {
        matching_count(cards.drop_last(), value) + if cards.last().matches(value) {
            1nat
        } else {
            0
        }
    }
}

/// Whether a discard top is there and matches a value, as a count.
pub open spec fn top_matches(top: Option<Card>, value: int) -> nat {
    match top {
        Some(card) => if card.matches(value) {
            1
        } else {
            0
        },
        None => 0,
    }
}

/// How many of the player's discard tops match a value.
pub open spec fn matching_tops(player: &PlayerPublicState, value: int) -> nat {
    top_matches(player.discard_tops[0], value) + top_matches(player.discard_tops[1], value)
        + top_matches(player.discard_tops[2], value) + top_matches(player.discard_tops[3], value)
}

/// The value a build pile asks for after the value `target` has been played.
pub open spec fn value_after(target: int) -> int {
    if target == MAX_CARD_VALUE {
        1
    } else {
        target + 1
    }
}

/// The score of playing the stock top onto build pile `build_pile`, for a stock top that
/// matches: higher for a pile with more cards, for a pile that asks for a higher value
/// and most for one about to be completed, for a stock card of high value, and for
/// every discard top and hand card that could be played next.
pub open spec fn stock_play_score(
    state: &GameStateView,
    player: &PlayerPublicState,
    build_pile: usize,
) -> int {
    match player.stock_top {
        None => UNSCORED as int,
        Some(stock_card) => if build_pile >= 4 {
            UNSCORED as int
        } else {
            let pile = state.build_piles[build_pile as int];
            let target = pile.next_value as int;
            if !stock_card.matches(target) {
                UNSCORED as int
            } else {
                12000 + pile.cards@.len() * 220 + target * 65 + (if target == MAX_CARD_VALUE {
                    900int
                } else {
                    0
                }) + (match stock_card {
                    Card::Number(value) => value * 30,
                    Card::SkipBo => (MAX_CARD_VALUE + 1) * 30,
                }) + matching_tops(player, value_after(target)) * 650 + matching_count(
                    state.hand@,
                    value_after(target),
                ) * 180 - build_pile * 3
            }
        },
    }
}

/// `best` is the stock play of the list with the highest score, and among those the
/// one onto the earliest build pile, or nothing where the list holds no stock play.
pub open spec fn is_best_stock_play(
    state: &GameStateView,
    player: &PlayerPublicState,
    actions: Seq<Action>,
    best: Option<Action>,
) -> bool {
    match best {
        Some(action) => {
            &&& actions.contains(action)
            &&& kind_of(action) == ActionKind::StockPlay
            &&& forall|i: int|
                0 <= i < actions.len() && kind_of(#[trigger] actions[i]) == ActionKind::StockPlay
                    ==> {
                    let other = stock_play_score(state, player, actions[i]->build_pile);
                    let own = stock_play_score(state, player, action->build_pile);
                    other < own || (other == own && actions[i]->build_pile >= action->build_pile)
                }
        },
        None => forall|i: int|
            0 <= i < actions.len() ==> kind_of(#[trigger] actions[i]) != ActionKind::StockPlay,
    }
}

/// `action` is what the planner takes from a list: the best play from the stock, else
/// the first play from a discard pile, else the first from the hand, else the end of
/// the turn, else the best discard.
pub open spec fn is_planner_choice(
    state: &GameStateView,
    player: &PlayerPublicState,
    actions: Seq<Action>,
    action: Action,
) -> bool {
    if first_of_kind(actions, ActionKind::StockPlay) is Some {
        is_best_stock_play(state, player, actions, Some(action))
    } else if let Some(first) = first_of_kind(actions, ActionKind::DiscardPlay) {
        action == first
    } else if let Some(first) = first_of_kind(actions, ActionKind::HandPlay) {
        action == first
    } else if let Some(first) = first_of_kind(actions, ActionKind::EndTurn) {
        action == first
    } else {
        is_best_discard(state, player, actions, Some(action))
    }
}

impl Heuristic18Bot {
    pub fn new() -> (bot: Self) {
        Heuristic18Bot
    }

    fn self_player(state: &GameStateView) -> (player: &PlayerPublicState)
        requires
            state.well_formed(),
        ensures
            state.own_place() matches Some(place) && 0 <= place < state.players@.len() && *player
                == state.players@[place],
    {
        own_player(state)
    }

    fn card_priority(card: Card) -> (priority: i32)
        ensures
            priority == priority_of(card),
    {
        card_priority(card)
    }

    /// Reuse discard scoring from the discard manager to keep piles tidy.
    fn score_discard(
        state: &GameStateView,
        player: &PlayerPublicState,
        hand_index: usize,
        discard_pile: usize,
    ) -> (score: i32)
        requires
            state.well_formed(),
            state.own_place() matches Some(place) && *player == state.players@[place],
        ensures
            score == discard_score(state, player, hand_index, discard_pile),
    {
        Heuristic16Bot::score_discard(state, player, hand_index, discard_pile)
    }

    fn best_discard_action(state: &GameStateView, legal_actions: &[Action]) -> (best: Option<
        Action,
    >)
        requires
            state.well_formed(),
        ensures
            state.own_place() matches Some(place) && is_best_discard(
                state,
                &state.players@[place],
                legal_actions@,
                best,
            ),
    {
        Heuristic16Bot::best_discard_action(state, legal_actions)
    }

    /// How many hand cards match a value.
    fn count_matching(cards: &Vec<Card>, value: u8) -> (count: usize)
        ensures
            count == matching_count(cards@, value as int),
            count <= cards@.len(),
    {
        let mut count: usize = 0;
        let mut index: usize = 0;
        while index < cards.len()
            invariant
                0 <= index <= cards@.len(),
                count == matching_count(cards@.take(index as int), value as int),
                count <= index,
            decreases cards@.len() - index,
        {
            proof {
                assert(cards@.take(index + 1).drop_last() =~= cards@.take(index as int));
            }
            if cards[index].matches_value(value) {
                count = count + 1;
            }
            index = index + 1;
        }
        proof {
            assert(cards@.take(index as int) =~= cards@);
        }
        count
    }

    /// How many of the player's discard tops match a value.
    fn count_matching_tops(player: &PlayerPublicState, value: u8) -> (count: usize)
        ensures
            count == matching_tops(player, value as int),
            count <= 4,
    {
        let mut count: usize = 0;
        let mut pile: usize = 0;
        while pile < 4
            invariant
                0 <= pile <= 4,
                count <= pile,
                count == (if pile > 0 {
                    top_matches(player.discard_tops[0], value as int)
                } else {
                    0
                }) + (if pile > 1 {
                    top_matches(player.discard_tops[1], value as int)
                } else {
                    0
                }) + (if pile > 2 {
                    top_matches(player.discard_tops[2], value as int)
                } else {
                    0
                }) + (if pile > 3 {
                    top_matches(player.discard_tops[3], value as int)
                } else {
                    0
                }),
            decreases 4 - pile,
        {
            match player.discard_tops[pile] {
                Some(card) => {
                    if card.matches_value(value) {
                        count = count + 1;
                    }
                },
                None => {},
            }
            pile = pile + 1;
        }
        count
    }

    /// Evaluate stock plays by considering pile progress and immediate follow-ups.
    fn score_stock_play(state: &GameStateView, player: &PlayerPublicState, build_pile: usize) -> (score:
        i32)
        requires
            state.well_formed(),
        ensures
            score == stock_play_score(state, player, build_pile),
            score >= UNSCORED,
    {
        let stock_card = match player.stock_top {
            Some(card) => card,
            None => {
                return UNSCORED;
            },
        };
        if build_pile >= 4 {
            return UNSCORED;
        }
        let pile = &state.build_piles[build_pile];
        assert(state.build_piles[build_pile as int].cards@.len() <= COUNT_LIMIT);
        let target_value = pile.next_value;
        if !stock_card.matches_value(target_value) {
            return UNSCORED;
        }
        let progress_bonus: i32 = (pile.cards.len() as i32) * 220;
        let closeness_bonus: i32 = (target_value as i32) * 65;
        let completion_bonus: i32 = if target_value == MAX_CARD_VALUE {
            900
        } else {
            0
        };
        let stock_priority: i32 = match stock_card {
            Card::Number(value) => value as i32 * 30,
            Card::SkipBo => (MAX_CARD_VALUE as i32 + 1) * 30,
        };
        let next_value_after: u8 = if target_value == MAX_CARD_VALUE {
            1
        } else {
            target_value + 1
        };
        let discard_synergy: i32 = Self::count_matching_tops(player, next_value_after) as i32;
        let hand_synergy: i32 = Self::count_matching(&state.hand, next_value_after) as i32;
        12_000 + progress_bonus + closeness_bonus + completion_bonus + stock_priority
            + discard_synergy * 650 + hand_synergy * 180 - (build_pile as i32 * 3)
    }

    fn best_stock_play(state: &GameStateView, legal_actions: &[Action]) -> (best: Option<Action>)
        requires
            state.well_formed(),
        ensures
            state.own_place() matches Some(place) && is_best_stock_play(
                state,
                &state.players@[place],
                legal_actions@,
                best,
            ),
    {
        let player = Self::self_player(state);
        let mut best_action: Option<Action> = None;
        let mut best_score: i32 = i32::MIN;
        let mut best_build: usize = usize::MAX;
        let mut index: usize = 0;
        while index < legal_actions.len()
            invariant
                0 <= index <= legal_actions@.len(),
                state.well_formed(),
                state.own_place() matches Some(place) && *player == state.players@[place],
                best_action is None ==> best_score == i32::MIN,
                best_action matches Some(action) ==> kind_of(action) == ActionKind::StockPlay
                    && best_score == stock_play_score(state, player, action->build_pile)
                    && best_build == action->build_pile,
                is_best_stock_play(state, player, legal_actions@.take(index as int), best_action),
            decreases legal_actions@.len() - index,
        {
            let ghost seen = legal_actions@.take(index as int);
            let ghost next = legal_actions@.take(index + 1);
            let action = legal_actions[index];
            assert(next =~= seen.push(action));
            assert forall|i: int| 0 <= i < seen.len() implies seen[i] == next[i] by {}
            let ghost previous = best_action;
            let mut replaced = false;
            match action {
                Action::Play { source, build_pile } => {
                    match source {
                        CardSource::Stock => {
                            let score = Self::score_stock_play(state, player, build_pile);
                            let is_better = if score > best_score {
                                true
                            } else if score == best_score {
                                build_pile < best_build
                            } else {
                                false
                            };
                            if is_better {
                                best_score = score;
                                best_build = build_pile;
                                best_action = Some(action);
                                replaced = true;
                            }
                        },
                        _ => {},
                    }
                },
                _ => {},
            }
            proof {
                if replaced {
                    assert(next[index as int] == action);
                } else if previous is Some {
                    let kept = previous->Some_0;
                    let at = choose|i: int| 0 <= i < seen.len() && seen[i] == kept;
                    assert(next[at] == kept);
                }
            }
            index = index + 1;
        }
        assert(legal_actions@.take(index as int) =~= legal_actions@);
        best_action
    }
}

impl Default for Heuristic18Bot {
    fn default() -> (bot: Self) {
        Heuristic18Bot
    }
}

impl Bot for Heuristic18Bot {
    fn select_action(&mut self, state: &GameStateView, legal_actions: &[Action]) -> (action:
        Action)
        ensures
            state.own_place() matches Some(place) && is_planner_choice(
                state,
                &state.players@[place],
                legal_actions@,
                action,
            ),
    {
        proof {
            lemma_first_of_kind(legal_actions@, ActionKind::StockPlay);
            lemma_first_of_kind(legal_actions@, ActionKind::DiscardPlay);
            lemma_first_of_kind(legal_actions@, ActionKind::HandPlay);
            lemma_first_of_kind(legal_actions@, ActionKind::EndTurn);
        }
        if let Some(action) = Self::best_stock_play(state, legal_actions) {
            return action;
        }
        if let Some(action) = find_kind(legal_actions, ActionKind::DiscardPlay) {
            return action;
        }
        if let Some(action) = find_kind(legal_actions, ActionKind::HandPlay) {
            return action;
        }
        if let Some(action) = find_kind(legal_actions, ActionKind::EndTurn) {
            return action;
        }
        proof {
            // An action that is no play and not the end of the turn is a discard.
            assert(kind_of(legal_actions@[0]) == ActionKind::Discard);
        }
        Self::best_discard_action(state, legal_actions).unwrap()
    }
}

} // verus!
