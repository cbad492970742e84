//! Rules engine for a multi-player card-stacking game.
//!
//! Players empty a private stock pile onto shared build piles by playing cards in
//! ascending order, from the hand, the stock top or the top of a discard pile. The
//! [`Game`] is a turn-based state machine; [`model::GameModel`] is its mathematical
//! model, and [`laws`] holds what is proved of every game.
//!
//! Around the engine stand the agents that pick actions ([`bot`], [`bots`]), the
//! scoring of a finished game ([`score`]), the numbering of actions and features for
//! learning agents ([`ml`]), and the rendering of snapshots as text ([`visualize`]).

pub mod action;
pub mod bot;
pub mod bots;
pub mod card;
pub mod error;
pub mod game;
pub mod laws;
pub mod ml;
pub mod model;
pub mod pile;
pub mod player;
pub mod rng;
pub mod score;
pub mod seed;
pub mod state;
pub mod text;
pub mod visualize;

pub use crate::action::{Action, CardSource};
pub use crate::bot::Bot;
pub use crate::bots::{label_for_spec, HeuristicBot, RandomBot};
pub use crate::card::Card;
pub use crate::error::{GameError, InvalidAction};
pub use crate::game::{Game, GameBuilder, GameConfig};
pub use crate::ml::{ActionSpace, StateEncoder};
pub use crate::score::winner_points;
pub use crate::state::{
    BuildPileView, GameSettings, GameStateView, GameStatus, PlayerPublicState, TurnPhase,
};
pub use crate::visualize::{describe_action, render_state, DescribeOptions, VisualOptions};
