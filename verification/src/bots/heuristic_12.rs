//! An agent that works towards playing its stock card or its whole hand.

use vstd::prelude::*;
use crate::action::Action;
use crate::bot::{own_player, Bot};
use crate::bots::planning::{
    breaks_pair, breaks_pair_duplication, can_play_all_hand, can_play_stock,
    feeds_next_player, hand_plan, is_stock_first_choice, next_player, next_seat,
    played_card_value, played_value, required_values, required_values_for_pile,
    should_block_play, stacking_discard_score, stacking_score_discard, stock_first_action,
    stock_plan, Avoid, Policy, Scoring,
};
use crate::card::{Card, MAX_CARD_VALUE, MIN_CARD_VALUE};
use crate::state::{is_deck_card, GameStateView, PlayerPublicState};

verus! {

/// Stock-first planner that also looks for a way to play the whole hand.
///
/// 1. Where the stock card can be played this turn with the cards at hand, the agent
///    takes the first step of the shortest way there.
/// 2. Otherwise, where every card of the hand can be played in some order, it takes the
///    first play of such an order.
/// 3. Otherwise it plays a numbered card only if its value is above that of the stock
///    card and at least 6, and never onto one of exactly two build piles that ask for
///    the same value.
/// 4. Otherwise it discards: best onto a pile whose top is the same card or the card
///    one above, and rather onto a shallow pile than a deep one.
/// 5. Otherwise it takes the first action that does not feed the next player's stock
///    card.
pub struct Heuristic12Bot;

impl Heuristic12Bot {
    pub fn new() -> (bot: Self) {
        Heuristic12Bot
    }

    /// What tells this agent apart from the other stock-first agents.
    pub open spec fn policy() -> Policy {
        Policy {
            guard: false,
            search_hand: true,
            floor: Some(6),
            with_stock: true,
            avoid: Avoid::PairBreaking,
            scoring: Scoring::Stacking,
            spare_next: true,
        }
    }

    /// What tells this agent apart from the other stock-first agents.
    fn own_policy() -> (policy: Policy)
        ensures
            policy == Self::policy(),
    {
        Policy {
            guard: false,
            search_hand: true,
            floor: Some(6),
            with_stock: true,
            avoid: Avoid::PairBreaking,
            scoring: Scoring::Stacking,
            spare_next: true,
        }
    }

    fn self_player(state: &GameStateView) -> (player: &PlayerPublicState)
        requires
            state.well_formed(),
        ensures
            state.own_place() matches Some(place) && 0 <= place < state.players@.len() && *player
                == state.players@[place],
    {
        own_player(state)
    }

    /// Discard scoring that favours stacking a card on its like or on the card one
    /// above, and a shallow pile over a deep one.
    fn score_discard(state: &GameStateView, hand_index: usize, discard_pile: usize) -> (score: i32)
        requires
            state.well_formed(),
        ensures
            state.own_place() matches Some(place) && score == stacking_discard_score(
                state,
                &state.players@[place],
                hand_index,
                discard_pile,
            ),
    {
        stacking_score_discard(state, hand_index, discard_pile)
    }

    /// The values that must be played onto a build pile before it asks for the stock
    /// card.
    fn required_values_for_pile(next_value: u8, stock: Card) -> (req: Vec<u8>)
        requires
            MIN_CARD_VALUE <= next_value <= MAX_CARD_VALUE,
            is_deck_card(stock),
        ensures
            req@ == required_values(next_value, stock),
    {
        required_values_for_pile(next_value, stock)
    }

    /// The first step of the shortest way to playing the stock card, where there is one.
    fn can_play_stock(state: &GameStateView, legal_actions: &[Action]) -> (first: Option<Action>)
        requires
            state.well_formed(),
        ensures
            state.own_place() matches Some(place) && first == stock_plan(
                state,
                &state.players@[place],
                legal_actions@,
                Self::policy().guard,
            ),
    {
        can_play_stock(state, legal_actions, Self::own_policy().guard)
    }

    /// Extract the numeric card tied to a legal play action, if any.
    fn played_card_value(state: &GameStateView, action: &Action) -> (value: Option<u8>)
        requires
            state.well_formed(),
        ensures
            state.own_place() matches Some(place) && value == played_value(
                state,
                &state.players@[place],
                *action,
                true,
            ),
    {
        played_card_value(state, action, true)
    }

    /// The player in the seat after the current one, where the snapshot lists one.
    fn next_player(state: &GameStateView) -> (next: Option<&PlayerPublicState>)
        requires
            state.well_formed(),
        ensures
            match next {
                Some(player) => state.place_of(next_seat(state)) matches Some(place) && *player
                    == state.players@[place],
                None => state.place_of(next_seat(state)) is None,
            },
    {
        next_player(state)
    }

    /// Returns true if the given play action would set the pile to a value that
    /// matches the next player's numeric stock-top card.
    fn should_block_play(state: &GameStateView, action: &Action) -> (block: bool)
        requires
            state.well_formed(),
        ensures
            state.own_place() matches Some(place) && block == feeds_next_player(
                state,
                &state.players@[place],
                *action,
            ),
    {
        should_block_play(state, action)
    }

    /// Whether the play goes onto one of exactly two build piles that ask for the same
    /// value.
    fn breaks_pair_duplication(state: &GameStateView, action: &Action) -> (breaks: bool)
        ensures
            breaks == breaks_pair(state, *action),
    {
        breaks_pair_duplication(state, action)
    }

    /// The first play of an order in which the whole hand can be played, where there
    /// is one.
    fn can_play_all_hand(state: &GameStateView, legal_actions: &[Action]) -> (first: Option<
        Action,
    >)
        requires
            state.well_formed(),
        ensures
            first == hand_plan(state, legal_actions@),
    {
        can_play_all_hand(state, legal_actions)
    }
}

impl Default for Heuristic12Bot {
    fn default() -> (bot: Self) {
        Heuristic12Bot
    }
}

impl Bot for Heuristic12Bot {
    fn select_action(&mut self, state: &GameStateView, legal_actions: &[Action]) -> (action:
        Action)
        ensures
            state.own_place() matches Some(place) && is_stock_first_choice(
                state,
                &state.players@[place],
                Self::policy(),
                legal_actions@,
                action,
            ),
    {
        stock_first_action(state, legal_actions, Self::own_policy())
    }
}

} // verus!
