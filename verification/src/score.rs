//! Scoring of a finished game.
//!
//! Only the winner scores: 25 points for the win and 5 for every card left in an
//! opponent's stock.

use vstd::prelude::*;
use crate::action::PlayerId;
use crate::state::{GameStateView, PlayerPublicState};

verus! {

/// Points for winning a game.
pub const BASE_SCORE: usize = 25;

/// Points for each card left in an opponent's stock.
pub const CARD_BONUS: usize = 5;

/// The number of stock cards held by the players other than `winner`.
pub open spec fn opponents_stock(players: Seq<PlayerPublicState>, winner: PlayerId) -> nat
    decreases players.len(),
{
    if players.len() == 0 {
        0
    } else {
        let last = players.last();
        opponents_stock(players.drop_last(), winner) + if last.id != winner {
            last.stock_count as nat
        } else {
            0
        }
    }
}

/// The winner's points: the base score and the bonus for each card the opponents hold.
pub open spec fn winner_score(players: Seq<PlayerPublicState>, winner: PlayerId) -> nat {
    BASE_SCORE as nat + CARD_BONUS as nat * opponents_stock(players, winner)
}

/// The opponents among the first players of a list hold no more than all of them do.
proof fn lemma_opponents_stock_grows(players: Seq<PlayerPublicState>, winner: PlayerId, k: int)
    requires
        0 <= k <= players.len(),
    ensures
        opponents_stock(players.take(k), winner) <= opponents_stock(players, winner),
    decreases players.len() - k,
{
    if k == players.len() {
        assert(players.take(k) =~= players);
    } else {
        lemma_opponents_stock_grows(players, winner, k + 1);
        assert(players.take(k + 1).drop_last() =~= players.take(k));
    }
}

/// Compute winner's points for a finished game view.
///
/// The score must fit the machine's integers.
pub fn winner_points(state: &GameStateView, winner: PlayerId) -> (points: usize)
    requires
        winner_score(state.players@, winner) <= usize::MAX,
    ensures
        points == winner_score(state.players@, winner),
{
    let mut opponents_stock_total: usize = 0;
    let mut index: usize = 0;
    while index < state.players.len()
        invariant
            0 <= index <= state.players@.len(),
            opponents_stock_total == opponents_stock(state.players@.take(index as int), winner),
            winner_score(state.players@, winner) <= usize::MAX,
        decreases state.players@.len() - index,
    {
        proof {
            lemma_opponents_stock_grows(state.players@, winner, index + 1);
            assert(state.players@.take(index + 1).drop_last() =~= state.players@.take(
                index as int,
            ));
        }
        let p = &state.players[index];
        if p.id != winner {
            opponents_stock_total = opponents_stock_total + p.stock_count;
        }
        index = index + 1;
    }
    proof {
        assert(state.players@.take(index as int) =~= state.players@);
    }
    BASE_SCORE + CARD_BONUS * opponents_stock_total
}

} // verus!
