//! An agent that plays whenever it can and picks the most promising build pile.

use vstd::prelude::*;
use crate::action::{Action, CardSource};
use crate::bot::{
    action_kind, find_kind, first_of_kind, kind_of, lemma_first_of_kind, own_player, shown_card,
    source_card, ActionKind, Bot, UNSCORED,
};
use crate::card::{Card, MAX_CARD_VALUE};
use crate::state::{GameStateView, PlayerPublicState, COUNT_LIMIT};

verus! {

/// "Build-pile chooser": plays from the stock before the hand before the discard
/// piles, and among the plays of a kind picks the one with the best score.
pub struct Heuristic17Bot;

/// The score of playing the card at `source` onto build pile `build_pile`: higher for a
/// pile with more cards, for a pile that asks for a higher value and most for one
/// about to be completed, and for a card of high value.
pub open spec fn play_score(
    state: &GameStateView,
    player: &PlayerPublicState,
    source: CardSource,
    build_pile: usize,
) -> int {
    if build_pile >= 4 {
        UNSCORED as int
    } else {
        match shown_card(state, player, source) {
            None => UNSCORED as int,
            Some(card) => {
                let pile = state.build_piles[build_pile as int];
                pile.cards@.len() * 150 + pile.next_value * 60 + (if pile.next_value
                    == MAX_CARD_VALUE {
                    500int
                } else {
                    0
                }) + (match card {
                    Card::Number(value) => value * 30,
                    Card::SkipBo => (MAX_CARD_VALUE + 2) * 30,
                }) - build_pile
            },
        }
    }
}

/// The hand index by which ties between plays are broken: the index of a hand card,
/// and the largest number for the other sources.
pub open spec fn tie_index(source: CardSource) -> usize {
    match source {
        CardSource::Hand(index) => index,
        _ => usize::MAX,
    }
}

/// Play `a` is preferred to play `b`: its score is higher, or the scores are equal and
/// it goes to an earlier build pile, or to the same pile from an earlier hand index.
pub open spec fn play_preferred(
    state: &GameStateView,
    player: &PlayerPublicState,
    a: Action,
    b: Action,
) -> bool {
    let score_a = play_score(state, player, a->source, a->build_pile);
    let score_b = play_score(state, player, b->source, b->build_pile);
    score_a > score_b || (score_a == score_b && (a->build_pile < b->build_pile || (a->build_pile
        == b->build_pile && tie_index(a->source) < tie_index(b->source))))
}

/// The action at `place` is the best play of a kind in the list: no play of the kind is
/// preferred to it, and it is preferred to every play of the kind listed before it.
pub open spec fn is_best_play_at(
    state: &GameStateView,
    player: &PlayerPublicState,
    actions: Seq<Action>,
    kind: ActionKind,
    place: int,
) -> bool {
    &&& 0 <= place < actions.len()
    &&& kind_of(actions[place]) == kind
    &&& forall|i: int|
        0 <= i < actions.len() && kind_of(#[trigger] actions[i]) == kind ==> !play_preferred(
            state,
            player,
            actions[i],
            actions[place],
        )
    &&& forall|i: int|
        0 <= i < place && kind_of(#[trigger] actions[i]) == kind ==> play_preferred(
            state,
            player,
            actions[place],
            actions[i],
        )
}

/// `best` is the best play of a kind in the list, or nothing where the list holds no
/// play of the kind.
pub open spec fn is_best_play(
    state: &GameStateView,
    player: &PlayerPublicState,
    actions: Seq<Action>,
    kind: ActionKind,
    best: Option<Action>,
) -> bool {
    match best {
        Some(action) => exists|place: int|
            #[trigger] is_best_play_at(state, player, actions, kind, place) && actions[place]
                == action,
        None => forall|i: int| 0 <= i < actions.len() ==> kind_of(#[trigger] actions[i]) != kind,
    }
}

/// `action` is what the build-pile chooser takes from a list: the best play from the
/// stock, else the best from the hand, else the best from a discard pile, else the end
/// of the turn, else the first discard.
pub open spec fn is_chooser_choice(
    state: &GameStateView,
    player: &PlayerPublicState,
    actions: Seq<Action>,
    action: Action,
) -> bool {
    if first_of_kind(actions, ActionKind::StockPlay) is Some {
        is_best_play(state, player, actions, ActionKind::StockPlay, Some(action))
    } else if first_of_kind(actions, ActionKind::HandPlay) is Some {
        is_best_play(state, player, actions, ActionKind::HandPlay, Some(action))
    } else if first_of_kind(actions, ActionKind::DiscardPlay) is Some {
        is_best_play(state, player, actions, ActionKind::DiscardPlay, Some(action))
    } else if let Some(first) = first_of_kind(actions, ActionKind::EndTurn) {
        action == first
    } else if let Some(first) = first_of_kind(actions, ActionKind::Discard) {
        action == first
    } else {
        action == actions[0]
    }
}

impl Heuristic17Bot {
    pub fn new() -> (bot: Self) {
        Heuristic17Bot
    }

    fn self_player(state: &GameStateView) -> (player: &PlayerPublicState)
        requires
            state.well_formed(),
        ensures
            state.own_place() matches Some(place) && 0 <= place < state.players@.len() && *player
                == state.players@[place],
    {
        own_player(state)
    }

    fn card_from_source(state: &GameStateView, source: CardSource) -> (card: Option<Card>)
        requires
            state.well_formed(),
        ensures
            state.own_place() matches Some(place) && card == shown_card(
                state,
                &state.players@[place],
                source,
            ),
    {
        source_card(state, Self::self_player(state), source)
    }

    /// Simple positional scoring: prefer piles with more progress and those about to
    /// recycle.
    fn score_play(state: &GameStateView, source: CardSource, build_pile: usize) -> (score: i32)
        requires
            state.well_formed(),
        ensures
            state.own_place() matches Some(place) && score == play_score(
                state,
                &state.players@[place],
                source,
                build_pile,
            ),
            score >= UNSCORED,
    {
        if build_pile >= 4 {
            return UNSCORED;
        }
        let card = match Self::card_from_source(state, source) {
            Some(card) => card,
            None => {
                return UNSCORED;
            },
        };
        let pile = &state.build_piles[build_pile];
        assert(state.build_piles[build_pile as int].cards@.len() <= COUNT_LIMIT);
        let progress_bonus: i32 = (pile.cards.len() as i32) * 150;
        let closeness_bonus: i32 = (pile.next_value as i32) * 60;
        let completion_bonus: i32 = if pile.next_value == MAX_CARD_VALUE {
            500
        } else {
            0
        };
        let card_value: i32 = match card {
            Card::Number(value) => value as i32 * 30,
            Card::SkipBo => (MAX_CARD_VALUE as i32 + 2) * 30,
        };
        progress_bonus + closeness_bonus + completion_bonus + card_value - (build_pile as i32)
    }

    /// The best play of a kind in the list.
    fn choose_best_play(state: &GameStateView, legal_actions: &[Action], kind: ActionKind) -> (best:
        Option<Action>)
        requires
            state.well_formed(),
            kind == ActionKind::StockPlay || kind == ActionKind::HandPlay || kind
                == ActionKind::DiscardPlay,
        ensures
            state.own_place() matches Some(place) && is_best_play(
                state,
                &state.players@[place],
                legal_actions@,
                kind,
                best,
            ),
            best matches Some(action) ==> legal_actions@.contains(action),
    {
        let ghost player = &state.players@[state.own_place()->Some_0];
        let mut best_action: Option<Action> = None;
        let mut best_score: i32 = i32::MIN;
        let mut best_build: usize = usize::MAX;
        let mut best_hand: usize = usize::MAX;
        let ghost mut best_place: int = 0;
        let mut index: usize = 0;
        while index < legal_actions.len()
            invariant
                0 <= index <= legal_actions@.len(),
                state.well_formed(),
                kind == ActionKind::StockPlay || kind == ActionKind::HandPlay || kind
                    == ActionKind::DiscardPlay,
                player == &state.players@[state.own_place()->Some_0],
                best_action is None ==> best_score == i32::MIN && forall|i: int|
                    0 <= i < index ==> kind_of(#[trigger] legal_actions@[i]) != kind,
                best_action matches Some(action) ==> {
                    &&& 0 <= best_place < index
                    &&& legal_actions@[best_place] == action
                    &&& kind_of(action) == kind
                    &&& best_score == play_score(state, player, action->source, action->build_pile)
                    &&& best_build == action->build_pile
                    &&& best_hand == tie_index(action->source)
                    &&& forall|i: int|
                        0 <= i < index && kind_of(#[trigger] legal_actions@[i]) == kind
                            ==> !play_preferred(state, player, legal_actions@[i], action)
                    &&& forall|i: int|
                        0 <= i < best_place && kind_of(#[trigger] legal_actions@[i]) == kind
                            ==> play_preferred(state, player, action, legal_actions@[i])
                },
            decreases legal_actions@.len() - index,
        {
            let action = legal_actions[index];
            if action_kind(&action) == kind {
                match action {
                    Action::Play { source, build_pile } => {
                        let score = Self::score_play(state, source, build_pile);
                        let hand_index: usize = match source {
                            CardSource::Hand(index) => index,
                            _ => usize::MAX,
                        };
                        let is_better = if score > best_score {
                            true
                        } else if score == best_score {
                            build_pile < best_build || (build_pile == best_build && hand_index
                                < best_hand)
                        } else {
                            false
                        };
                        if is_better {
                            best_score = score;
                            best_build = build_pile;
                            best_hand = hand_index;
                            best_action = Some(action);
                            proof {
                                best_place = index as int;
                            }
                        }
                    },
                    _ => {},
                }
            }
            index = index + 1;
        }
        proof {
            if best_action is Some {
                assert(is_best_play_at(state, player, legal_actions@, kind, best_place));
            }
        }
        best_action
    }

    fn best_stock_play(state: &GameStateView, legal_actions: &[Action]) -> (best: Option<Action>)
        requires
            state.well_formed(),
        ensures
            state.own_place() matches Some(place) && is_best_play(
                state,
                &state.players@[place],
                legal_actions@,
                ActionKind::StockPlay,
                best,
            ),
            best matches Some(action) ==> legal_actions@.contains(action),
    {
        Self::choose_best_play(state, legal_actions, ActionKind::StockPlay)
    }

    fn best_hand_play(state: &GameStateView, legal_actions: &[Action]) -> (best: Option<Action>)
        requires
            state.well_formed(),
        ensures
            state.own_place() matches Some(place) && is_best_play(
                state,
                &state.players@[place],
                legal_actions@,
                ActionKind::HandPlay,
                best,
            ),
            best matches Some(action) ==> legal_actions@.contains(action),
    {
        Self::choose_best_play(state, legal_actions, ActionKind::HandPlay)
    }

    fn best_discard_play(state: &GameStateView, legal_actions: &[Action]) -> (best: Option<Action>)
        requires
            state.well_formed(),
        ensures
            state.own_place() matches Some(place) && is_best_play(
                state,
                &state.players@[place],
                legal_actions@,
                ActionKind::DiscardPlay,
                best,
            ),
            best matches Some(action) ==> legal_actions@.contains(action),
    {
        Self::choose_best_play(state, legal_actions, ActionKind::DiscardPlay)
    }
}

impl Default for Heuristic17Bot {
    fn default() -> (bot: Self) {
        Heuristic17Bot
    }
}

impl Bot for Heuristic17Bot {
    fn select_action(&mut self, state: &GameStateView, legal_actions: &[Action]) -> (action:
        Action)
        ensures
            state.own_place() matches Some(place) && is_chooser_choice(
                state,
                &state.players@[place],
                legal_actions@,
                action,
            ),
    {
        proof {
            lemma_first_of_kind(legal_actions@, ActionKind::StockPlay);
            lemma_first_of_kind(legal_actions@, ActionKind::HandPlay);
            lemma_first_of_kind(legal_actions@, ActionKind::DiscardPlay);
        }
        if let Some(action) = Self::best_stock_play(state, legal_actions) {
            return action;
        }
        if let Some(action) = Self::best_hand_play(state, legal_actions) {
            return action;
        }
        if let Some(action) = Self::best_discard_play(state, legal_actions) {
            return action;
        }
        if let Some(action) = find_kind(legal_actions, ActionKind::EndTurn) {
            return action;
        }
        if let Some(action) = find_kind(legal_actions, ActionKind::Discard) {
            return action;
        }
        legal_actions[0]
    }
}

} // verus!
