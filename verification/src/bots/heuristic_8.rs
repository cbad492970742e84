//! An agent that works towards playing its stock card without helping the next
//! player.

use vstd::prelude::*;
use crate::action::Action;
use crate::bot::{own_player, Bot};
use crate::bots::planning::{
    can_play_stock, feeds_next_player, is_stock_first_choice, next_player, next_seat,
    plain_discard_score, plain_score_discard, played_card_value, played_value,
    required_values, required_values_for_pile, should_block_play, stock_first_action,
    stock_plan, Avoid, Policy, Scoring,
};
use crate::card::{Card, MAX_CARD_VALUE, MIN_CARD_VALUE};
use crate::state::{is_deck_card, GameStateView, PlayerPublicState};

verus! {

/// Stock-first planner that does not feed the next player.
///
/// The agent does not play a card onto a build pile if that would leave the pile
/// asking for the very value of the next player's stock card.
///
/// 1. Where the stock card can be played this turn with the cards at hand, by plays
///    that do not feed the next player, the agent takes the first step of the shortest
///    way there.
/// 2. Otherwise it plays a numbered card only if its value is above that of the stock
///    card and at least 6, and the play does not feed the next player.
/// 3. Otherwise it discards, by a score that ignores what the card is worth.
/// 4. Otherwise it takes the first action that does not feed the next player.
pub struct Heuristic8Bot;

impl Heuristic8Bot {
    pub fn new() -> (bot: Self) {
        Heuristic8Bot
    }

    /// What tells this agent apart from the other stock-first agents.
    pub open spec fn policy() -> Policy {
        Policy {
            guard: true,
            search_hand: false,
            floor: Some(6),
            with_stock: true,
            avoid: Avoid::Feeding,
            scoring: Scoring::Plain,
            spare_next: true,
        }
    }

    /// What tells this agent apart from the other stock-first agents.
    fn own_policy() -> (policy: Policy)
        ensures
            policy == Self::policy(),
    {
        Policy {
            guard: true,
            search_hand: false,
            floor: Some(6),
            with_stock: true,
            avoid: Avoid::Feeding,
            scoring: Scoring::Plain,
            spare_next: true,
        }
    }

    fn self_player(state: &GameStateView) -> (player: &PlayerPublicState)
        requires
            state.well_formed(),
        ensures
            state.own_place() matches Some(place) && 0 <= place < state.players@.len() && *player
                == state.players@[place],
    {
        own_player(state)
    }

    /// Discard scoring that ignores what the card is worth.
    fn score_discard(state: &GameStateView, hand_index: usize, discard_pile: usize) -> (score: i32)
        requires
            state.well_formed(),
        ensures
            state.own_place() matches Some(place) && score == plain_discard_score(
                state,
                &state.players@[place],
                hand_index,
                discard_pile,
            ),
    {
        plain_score_discard(state, hand_index, discard_pile)
    }

    /// The values that must be played onto a build pile before it asks for the stock
    /// card.
    fn required_values_for_pile(next_value: u8, stock: Card) -> (req: Vec<u8>)
        requires
            MIN_CARD_VALUE <= next_value <= MAX_CARD_VALUE,
            is_deck_card(stock),
        ensures
            req@ == required_values(next_value, stock),
    {
        required_values_for_pile(next_value, stock)
    }

    /// The first step of the shortest way to playing the stock card, where there is one.
    fn can_play_stock(state: &GameStateView, legal_actions: &[Action]) -> (first: Option<Action>)
        requires
            state.well_formed(),
        ensures
            state.own_place() matches Some(place) && first == stock_plan(
                state,
                &state.players@[place],
                legal_actions@,
                Self::policy().guard,
            ),
    {
        can_play_stock(state, legal_actions, Self::own_policy().guard)
    }

    /// Extract the numeric card tied to a legal play action, if any.
    fn played_card_value(state: &GameStateView, action: &Action) -> (value: Option<u8>)
        requires
            state.well_formed(),
        ensures
            state.own_place() matches Some(place) && value == played_value(
                state,
                &state.players@[place],
                *action,
                true,
            ),
    {
        played_card_value(state, action, true)
    }

    /// The player in the seat after the current one, where the snapshot lists one.
    fn next_player(state: &GameStateView) -> (next: Option<&PlayerPublicState>)
        requires
            state.well_formed(),
        ensures
            match next {
                Some(player) => state.place_of(next_seat(state)) matches Some(place) && *player
                    == state.players@[place],
                None => state.place_of(next_seat(state)) is None,
            },
    {
        next_player(state)
    }

    /// Returns true if the given play action would set the pile to a value that
    /// matches the next player's numeric stock-top card.
    fn should_block_play(state: &GameStateView, action: &Action) -> (block: bool)
        requires
            state.well_formed(),
        ensures
            state.own_place() matches Some(place) && block == feeds_next_player(
                state,
                &state.players@[place],
                *action,
            ),
    {
        should_block_play(state, action)
    }
}

impl Default for Heuristic8Bot {
    fn default() -> (bot: Self) {
        Heuristic8Bot
    }
}

impl Bot for Heuristic8Bot {
    fn select_action(&mut self, state: &GameStateView, legal_actions: &[Action]) -> (action:
        Action)
        ensures
            state.own_place() matches Some(place) && is_stock_first_choice(
                state,
                &state.players@[place],
                Self::policy(),
                legal_actions@,
                action,
            ),
    {
        stock_first_action(state, legal_actions, Self::own_policy())
    }
}

} // verus!
