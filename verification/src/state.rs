//! Settings of a game and the read-only snapshot handed to decision agents.

use vstd::prelude::*;
use crate::action::PlayerId;
use crate::card::{
    Card, BUILD_PILE_COUNT, DISCARD_PILE_COUNT, HAND_SIZE, MAX_CARD_VALUE, MAX_PLAYERS,
    MIN_CARD_VALUE,
};
use crate::error::GameError;

verus! {

/// Global constants for a running game.
#[derive(Copy, Clone, Debug, PartialEq, Eq, Structural)]
pub struct GameSettings {
    pub num_players: usize,
    pub stock_size: usize,
    pub hand_size: usize,
    pub discard_piles: usize,
    pub build_piles: usize,
}

impl GameSettings {
    /// Stock size dealt to each player when the configuration does not override it.
    pub open spec fn default_stock_size(num_players: usize) -> usize {
        if num_players <= 4 {
            30
        } else {
            20
        }
    }

    /// The settings a game with `num_players` players starts from.
    pub open spec fn standard(num_players: usize) -> GameSettings {
        GameSettings {
            num_players,
            stock_size: Self::default_stock_size(num_players),
            hand_size: HAND_SIZE,
            discard_piles: DISCARD_PILE_COUNT,
            build_piles: BUILD_PILE_COUNT,
        }
    }

    /// Whether a game can have this many players.
    pub open spec fn player_count_ok(num_players: usize) -> bool {
        2 <= num_players <= MAX_PLAYERS
    }

    /// Settings under which a game can run: a valid player count, a positive
    /// stock size and the fixed hand, discard and build pile counts.
    pub open spec fn valid(self) -> bool {
        &&& Self::player_count_ok(self.num_players)
        &&& self.stock_size >= 1
        &&& self.hand_size == HAND_SIZE
        &&& self.discard_piles == DISCARD_PILE_COUNT
        &&& self.build_piles == BUILD_PILE_COUNT
    }

    /// Derives the settings from the player count; rejects counts outside 2..=6.
    pub fn new(num_players: usize) -> (r: Result<Self, GameError>)
        ensures
            Self::player_count_ok(num_players) ==> r is Ok && r->Ok_0 == Self::standard(num_players)
                && r->Ok_0.valid(),
            !Self::player_count_ok(num_players) ==> (r matches Err(
                GameError::InvalidConfiguration(reason),
            ) && reason@ == "players must be between 2 and 6"@),
    {
        if num_players < 2 || num_players > MAX_PLAYERS {
            return Err(GameError::InvalidConfiguration("players must be between 2 and 6"));
        }
        let stock_size: usize = if num_players <= 4 {
            30
        } else {
            20
        };
        Ok(
            GameSettings {
                num_players,
                stock_size,
                hand_size: HAND_SIZE,
                discard_piles: DISCARD_PILE_COUNT,
                build_piles: BUILD_PILE_COUNT,
            },
        )
    }
}

/// Public information regarding a build pile.
#[derive(Clone, Debug, PartialEq, Eq)]
pub struct BuildPileView {
    pub cards: Vec<Card>,
    pub next_value: u8,
}

impl BuildPileView {
    /// The view of a pile that holds no card: it asks for a 1.
    pub fn empty() -> (view: Self)
        ensures
            view.cards@ == Seq::<Card>::empty(),
            view.next_value == 1,
    {
        BuildPileView { cards: Vec::new(), next_value: 1 }
    }
}

/// Public portion of a player's state that all opponents may observe.
#[derive(Clone, Debug, PartialEq, Eq)]
pub struct PlayerPublicState {
    pub id: PlayerId,
    pub stock_count: usize,
    pub stock_top: Option<Card>,
    pub discard_tops: [Option<Card>; 4],
    pub discard_counts: [usize; 4],
    pub hand_size: usize,
    pub is_current: bool,
    pub has_won: bool,
}

/// Status of the entire game.
#[derive(Copy, Clone, Debug, PartialEq, Eq, Structural)]
pub enum GameStatus {
    /// The game is being played.
    Ongoing,
    /// A player has emptied the stock and won.
    Finished { winner: PlayerId },
    /// The game is stuck: every player in a row could do nothing but end the turn,
    /// with nothing left to draw.
    Draw,
}

/// Current phase of the active turn.
#[derive(Copy, Clone, Debug, PartialEq, Eq, Structural)]
pub enum TurnPhase {
    /// The active player is to act.
    AwaitingAction,
    /// The game has ended, with a winner or in a draw.
    GameOver,
}

/// Game state snapshot tailored for decision agents.
#[derive(Clone, Debug, PartialEq, Eq)]
pub struct GameStateView {
    pub settings: GameSettings,
    pub phase: TurnPhase,
    pub status: GameStatus,
    pub self_player: PlayerId,
    pub current_player: PlayerId,
    pub draw_pile_count: usize,
    pub recycle_pile_count: usize,
    pub build_piles: [BuildPileView; 4],
    pub players: Vec<PlayerPublicState>,
    pub hand: Vec<Card>,
}

/// Largest count in a snapshot for which the rule-based agents compute their scores.
pub const COUNT_LIMIT: usize = 1_000_000;

/// A card of the deck: a numbered card with a value between 1 and 12, or the wildcard.
pub open spec fn is_deck_card(card: Card) -> bool {
    match card {
        Card::Number(value) => MIN_CARD_VALUE <= value <= MAX_CARD_VALUE,
        Card::SkipBo => true,
    }
}

/// A card that is missing or a card of the deck.
pub open spec fn is_deck_card_or_none(card: Option<Card>) -> bool {
    match card {
        Some(card) => is_deck_card(card),
        None => true,
    }
}

/// Whether a card is a card of the deck.
pub fn check_deck_card(card: Card) -> (ok: bool)
    ensures
        ok == is_deck_card(card),
{
    match card {
        Card::Number(value) => MIN_CARD_VALUE <= value && value <= MAX_CARD_VALUE,
        Card::SkipBo => true,
    }
}

impl GameStateView {
    /// The place of the first player with the given id in the list of players, looking
    /// from place `from` on.
    pub open spec fn place_of_from(&self, id: PlayerId, from: int) -> Option<int>
        decreases self.players@.len() - from,
    {
        if from < 0 || from >= self.players@.len() {
            None
        } else if self.players@[from].id == id {
            Some(from)
        } else {
            self.place_of_from(id, from + 1)
        }
    }

    /// The place of the first player with the given id in the list of players.
    pub open spec fn place_of(&self, id: PlayerId) -> Option<int> {
        self.place_of_from(id, 0)
    }

    /// The place of the snapshot's own player in the list of players: the first
    /// player whose id is `self_player`.
    pub open spec fn own_place(&self) -> Option<int> {
        self.place_of(self.self_player)
    }

    /// A snapshot an agent can work on: its own player is among the players, the
    /// current player is one of the seats, every build pile asks for a value between 1
    /// and 12, every card shown in the hand and on
    /// top of a stock or a discard pile is a card of the deck, and no hand, build pile
    /// or discard pile is larger than [`COUNT_LIMIT`].
    pub open spec fn well_formed(&self) -> bool {
        &&& self.own_place() is Some
        &&& self.current_player < self.settings.num_players
        &&& self.hand@.len() <= COUNT_LIMIT
        &&& forall|h: int| 0 <= h < self.hand@.len() ==> is_deck_card(#[trigger] self.hand@[h])
        &&& forall|p: int|
            0 <= p < self.players@.len() ==> is_deck_card_or_none(
                (#[trigger] self.players@[p]).stock_top,
            )
        &&& forall|p: int, d: int|
            0 <= p < self.players@.len() && 0 <= d < 4 ==> is_deck_card_or_none(
                #[trigger] self.players@[p].discard_tops[d],
            )
        &&& forall|b: int|
            0 <= b < 4 ==> (#[trigger] self.build_piles[b]).cards@.len() <= COUNT_LIMIT && 1
                <= self.build_piles[b].next_value <= 12
        &&& forall|p: int, d: int|
            0 <= p < self.players@.len() && 0 <= d < 4 ==> (
            #[trigger] self.players@[p].discard_counts[d]) <= COUNT_LIMIT
    }

    /// The first place from `from` on holds a player with the id, if any place does.
    pub proof fn lemma_place_of_from(&self, id: PlayerId, from: int)
        requires
            0 <= from,
        ensures
            match self.place_of_from(id, from) {
                Some(p) => from <= p < self.players@.len() && self.players@[p].id == id
                    && forall|q: int| from <= q < p ==> (#[trigger] self.players@[q]).id != id,
                None => forall|q: int|
                    from <= q < self.players@.len() ==> (#[trigger] self.players@[q]).id != id,
            },
        decreases self.players@.len() - from,
    {
        if from < self.players@.len() && self.players@[from].id != id {
            self.lemma_place_of_from(id, from + 1);
        }
    }

    /// The own player stands where `own_place` says, and no earlier player has its id.
    pub proof fn lemma_own_place(&self)
        ensures
            match self.own_place() {
                Some(p) => 0 <= p < self.players@.len() && self.players@[p].id
                    == self.self_player,
                None => forall|q: int|
                    0 <= q < self.players@.len() ==> (#[trigger] self.players@[q]).id
                        != self.self_player,
            },
    {
        self.lemma_place_of_from(self.self_player, 0);
    }

    /// Where the first player with the given id stands in the list of players.
    pub fn index_of_player(&self, id: PlayerId) -> (place: Option<usize>)
        ensures
            match place {
                Some(p) => self.place_of(id) == Some(p as int) && p < self.players@.len()
                    && self.players@[p as int].id == id,
                None => self.place_of(id) is None,
            },
    {
        let mut index: usize = 0;
        while index < self.players.len()
            invariant
                0 <= index <= self.players@.len(),
                self.place_of(id) == self.place_of_from(id, index as int),
            decreases self.players@.len() - index,
        {
            if self.players[index].id == id {
                return Some(index);
            }
            index = index + 1;
        }
        None
    }

    /// Where the snapshot's own player stands in the list of players.
    pub fn own_index(&self) -> (place: Option<usize>)
        ensures
            match place {
                Some(p) => self.own_place() == Some(p as int),
                None => self.own_place() is None,
            },
    {
        self.index_of_player(self.self_player)
    }

    /// Whether the snapshot is one an agent can work on.
    pub fn is_well_formed(&self) -> (ok: bool)
        ensures
            ok == self.well_formed(),
    {
        if self.own_index().is_none() {
            return false;
        }
        if self.current_player >= self.settings.num_players {
            return false;
        }
        if self.hand.len() > COUNT_LIMIT {
            return false;
        }
        let mut h: usize = 0;
        while h < self.hand.len()
            invariant
                0 <= h <= self.hand@.len(),
                forall|i: int| 0 <= i < h ==> is_deck_card(#[trigger] self.hand@[i]),
            decreases self.hand@.len() - h,
        {
            if !check_deck_card(self.hand[h]) {
                return false;
            }
            h = h + 1;
        }
        let mut b: usize = 0;
        while b < 4
            invariant
                0 <= b <= 4,
                forall|c: int|
                    0 <= c < b ==> (#[trigger] self.build_piles[c]).cards@.len() <= COUNT_LIMIT
                        && 1 <= self.build_piles[c].next_value <= 12,
            decreases 4 - b,
        {
            if self.build_piles[b].cards.len() > COUNT_LIMIT {
                return false;
            }
            if self.build_piles[b].next_value < 1 || self.build_piles[b].next_value > 12 {
                return false;
            }
            b = b + 1;
        }
        let mut p: usize = 0;
        while p < self.players.len()
            invariant
                0 <= p <= self.players@.len(),
                forall|q: int| 0 <= q < p ==> is_deck_card_or_none(
                    (#[trigger] self.players@[q]).stock_top,
                ),
                forall|q: int, d: int|
                    0 <= q < p && 0 <= d < 4 ==> is_deck_card_or_none(
                        #[trigger] self.players@[q].discard_tops[d],
                    ),
                forall|q: int, d: int|
                    0 <= q < p && 0 <= d < 4 ==> (#[trigger] self.players@[q].discard_counts[d])
                        <= COUNT_LIMIT,
            decreases self.players@.len() - p,
        {
            match self.players[p].stock_top {
                Some(card) => {
                    if !check_deck_card(card) {
                        return false;
                    }
                },
                None => {},
            }
            let mut d: usize = 0;
            while d < 4
                invariant
                    0 <= d <= 4,
                    0 <= p < self.players@.len(),
                    forall|e: int|
                        0 <= e < d ==> is_deck_card_or_none(
                            #[trigger] self.players@[p as int].discard_tops[e],
                        ),
                    forall|e: int|
                        0 <= e < d ==> (#[trigger] self.players@[p as int].discard_counts[e])
                            <= COUNT_LIMIT,
                decreases 4 - d,
            {
                if self.players[p].discard_counts[d] > COUNT_LIMIT {
                    return false;
                }
                match self.players[p].discard_tops[d] {
                    Some(card) => {
                        if !check_deck_card(card) {
                            return false;
                        }
                    },
                    None => {},
                }
                d = d + 1;
            }
            p = p + 1;
        }
        true
    }
}

} // verus!
