//! An agent that picks an action at random.

use vstd::prelude::*;
use rand::rngs::StdRng;
use crate::action::Action;
use crate::bot::Bot;
use crate::rng::choose_action;
use crate::state::GameStateView;

verus! {

/// Baseline agent that samples uniformly from the listed actions.
pub struct RandomBot {
    rng: StdRng,
}

impl RandomBot {
    /// The generator the agent draws its choices from.
    pub closed spec fn generator(&self) -> StdRng {
        self.rng
    }

    /// An agent that draws its choices from the given generator.
    pub fn new(rng: StdRng) -> (bot: Self)
        ensures
            bot.generator() == rng,
    {
        RandomBot { rng }
    }
}

impl Bot for RandomBot {
    fn select_action(&mut self, state: &GameStateView, legal_actions: &[Action]) -> (action:
        Action) {
        match choose_action(legal_actions, &mut self.rng) {
            Some(action) => action,
            None => legal_actions[0],
        }
    }
}

} // verus!
