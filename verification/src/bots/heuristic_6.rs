//! An agent that works towards playing its stock card and holds back low cards.

use vstd::prelude::*;
use crate::action::Action;
use crate::bot::{own_player, Bot};
use crate::bots::planning::{
    can_play_stock, is_stock_first_choice, plain_discard_score, plain_score_discard,
    played_card_value, played_value, required_values, required_values_for_pile,
    stock_first_action, stock_plan, Avoid, Policy, Scoring,
};
use crate::card::{Card, MAX_CARD_VALUE, MIN_CARD_VALUE};
use crate::state::{is_deck_card, GameStateView, PlayerPublicState};

verus! {

/// Stock-first planner that holds back low cards.
///
/// 1. Where the stock card can be played this turn with the cards at hand, the agent
///    takes the first step of the shortest way there.
/// 2. Otherwise it plays a numbered card only if its value is above that of the stock
///    card and at least 5; wildcards are not played under this rule.
/// 3. Otherwise it discards, by a score that ignores what the card is worth.
pub struct Heuristic6Bot;

impl Heuristic6Bot {
    pub fn new() -> (bot: Self) {
        Heuristic6Bot
    }

    /// What tells this agent apart from the other stock-first agents.
    pub open spec fn policy() -> Policy {
        Policy {
            guard: false,
            search_hand: false,
            floor: Some(5),
            with_stock: false,
            avoid: Avoid::Nothing,
            scoring: Scoring::Plain,
            spare_next: false,
        }
    }

    /// What tells this agent apart from the other stock-first agents.
    fn own_policy() -> (policy: Policy)
        ensures
            policy == Self::policy(),
    {
        Policy {
            guard: false,
            search_hand: false,
            floor: Some(5),
            with_stock: false,
            avoid: Avoid::Nothing,
            scoring: Scoring::Plain,
            spare_next: false,
        }
    }

    fn self_player(state: &GameStateView) -> (player: &PlayerPublicState)
        requires
            state.well_formed(),
        ensures
            state.own_place() matches Some(place) && 0 <= place < state.players@.len() && *player
                == state.players@[place],
    {
        own_player(state)
    }

    /// Discard scoring that ignores what the card is worth.
    fn score_discard(state: &GameStateView, hand_index: usize, discard_pile: usize) -> (score: i32)
        requires
            state.well_formed(),
        ensures
            state.own_place() matches Some(place) && score == plain_discard_score(
                state,
                &state.players@[place],
                hand_index,
                discard_pile,
            ),
    {
        plain_score_discard(state, hand_index, discard_pile)
    }

    /// The values that must be played onto a build pile before it asks for the stock
    /// card.
    fn required_values_for_pile(next_value: u8, stock: Card) -> (req: Vec<u8>)
        requires
            MIN_CARD_VALUE <= next_value <= MAX_CARD_VALUE,
            is_deck_card(stock),
        ensures
            req@ == required_values(next_value, stock),
    {
        required_values_for_pile(next_value, stock)
    }

    /// The first step of the shortest way to playing the stock card, where there is one.
    fn can_play_stock(state: &GameStateView, legal_actions: &[Action]) -> (first: Option<Action>)
        requires
            state.well_formed(),
        ensures
            state.own_place() matches Some(place) && first == stock_plan(
                state,
                &state.players@[place],
                legal_actions@,
                Self::policy().guard,
            ),
    {
        can_play_stock(state, legal_actions, Self::own_policy().guard)
    }

    /// Extract the numeric card tied to a legal play action, if any.
    fn played_card_value(state: &GameStateView, action: &Action) -> (value: Option<u8>)
        requires
            state.well_formed(),
        ensures
            state.own_place() matches Some(place) && value == played_value(
                state,
                &state.players@[place],
                *action,
                false,
            ),
    {
        played_card_value(state, action, false)
    }
}

impl Default for Heuristic6Bot {
    fn default() -> (bot: Self) {
        Heuristic6Bot
    }
}

impl Bot for Heuristic6Bot {
    fn select_action(&mut self, state: &GameStateView, legal_actions: &[Action]) -> (action:
        Action)
        ensures
            state.own_place() matches Some(place) && is_stock_first_choice(
                state,
                &state.players@[place],
                Self::policy(),
                legal_actions@,
                action,
            ),
    {
        stock_first_action(state, legal_actions, Self::own_policy())
    }
}

} // verus!
