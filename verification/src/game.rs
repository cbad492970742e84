//! The game: setup, legality, applying actions, turn order and how a game ends.

use vstd::prelude::*;
use rand::rngs::StdRng;
use crate::action::{Action, CardSource, PlayerId};
use crate::card::{
    full_deck, full_deck_cards, Card, BUILD_PILE_COUNT, DECK_SIZE, DISCARD_PILE_COUNT,
};
use crate::error::{GameError, InvalidAction};
use crate::laws::{
    lemma_next_seat, lemma_opening, lemma_shares_fit, lemma_step_conserves_cards,
    lemma_step_valid,
};
use crate::model::{
    action_rank, dealt, dealt_player, is_shuffle, next_value, opening, rank_before, source_rank,
    GameModel, PlayerModel,
};
use crate::pile::BuildPile;
use crate::player::PlayerState;
use crate::rng::{seeded_rng, shuffle_cards};
use crate::state::{GameSettings, GameStateView, GameStatus, PlayerPublicState, TurnPhase};

verus! {

/// Seed of a game whose builder is given none.
pub const DEFAULT_SEED: u64 = 0x5EED_5EED_5EED_5EED;

/// Configuration required to bootstrap a game instance.
#[derive(Clone, Copy, Debug)]
pub struct GameConfig {
    pub num_players: usize,
    pub seed: u64,
    pub stock_size: Option<usize>,
}

impl GameConfig {
    /// The settings of a game with this configuration: the standard ones for the
    /// player count, with the stock size replaced where the configuration names one.
    pub open spec fn settings(self) -> GameSettings {
        GameSettings {
            stock_size: match self.stock_size {
                Some(size) => size,
                None => GameSettings::default_stock_size(self.num_players),
            },
            ..GameSettings::standard(self.num_players)
        }
    }

    /// Why no game can be set up with this configuration from a deck of `deck_len`
    /// cards, if none can: the player count is out of range, the stock size is zero, or
    /// the deck is too small to deal every stock.
    pub open spec fn refusal(self, deck_len: int) -> Option<Seq<char>> {
        if !GameSettings::player_count_ok(self.num_players) {
            Some("players must be between 2 and 6"@)
        } else if self.stock_size == Some(0usize) {
            Some("stock size must be positive"@)
        } else if deck_len < self.num_players * self.settings().stock_size {
            Some("deck does not contain enough cards to deal stocks"@)
        } else {
            None
        }
    }

    /// A configuration with the standard stock size; rejects player counts outside 2..=6.
    pub fn new(num_players: usize, seed: u64) -> (r: Result<Self, GameError>)
        ensures
            match r {
                Ok(config) => GameSettings::player_count_ok(num_players) && config == (GameConfig {
                    num_players,
                    seed,
                    stock_size: None,
                }),
                Err(e) => !GameSettings::player_count_ok(num_players) && (e matches GameError::InvalidConfiguration(
                    reason,
                ) && reason@ == "players must be between 2 and 6"@),
            },
    {
        match GameSettings::new(num_players) {
            Ok(_) => Ok(GameConfig { num_players, seed, stock_size: None }),
            Err(e) => Err(e),
        }
    }
}

/// Builder that enables deterministic deck injection.
pub struct GameBuilder {
    config: GameConfig,
    deck: Option<Vec<Card>>,
}

impl GameBuilder {
    /// The configuration collected so far.
    pub closed spec fn configured(&self) -> GameConfig {
        self.config
    }

    /// The deck the game is to be dealt from, where one has been supplied.
    pub closed spec fn supplied_deck(&self) -> Option<Seq<Card>> {
        match self.deck {
            Some(deck) => Some(deck@),
            None => None,
        }
    }

    /// Whether `deck` is a deck the game may be dealt from: the supplied deck as it
    /// stands, or else the full deck in some order.
    pub open spec fn deals_from(&self, deck: Seq<Card>) -> bool {
        match self.supplied_deck() {
            Some(supplied) => deck == supplied,
            None => is_shuffle(deck, full_deck_cards()),
        }
    }

    /// The number of cards of the deck the game is dealt from.
    pub open spec fn deck_len(&self) -> int {
        match self.supplied_deck() {
            Some(supplied) => supplied.len() as int,
            None => DECK_SIZE as int,
        }
    }

    /// A builder for `num_players` players, with the default seed, the standard
    /// stock size and no deck of its own.
    pub fn new(num_players: usize) -> (r: Result<Self, GameError>)
        ensures
            match r {
                Ok(builder) => GameSettings::player_count_ok(num_players) && builder.configured()
                    == (GameConfig { num_players, seed: DEFAULT_SEED, stock_size: None })
                    && builder.supplied_deck() is None,
                Err(e) => !GameSettings::player_count_ok(num_players) && (e matches GameError::InvalidConfiguration(
                    reason,
                ) && reason@ == "players must be between 2 and 6"@),
            },
    {
        match GameConfig::new(num_players, DEFAULT_SEED) {
            Ok(config) => Ok(GameBuilder { config, deck: None }),
            Err(e) => Err(e),
        }
    }

    /// Sets the seed of the game's random number generator.
    pub fn with_seed(self, seed: u64) -> (builder: Self)
        ensures
            builder.configured() == (GameConfig { seed, ..self.configured() }),
            builder.supplied_deck() == self.supplied_deck(),
    {
        let mut builder = self;
        builder.config.seed = seed;
        builder
    }

    /// Supplies the deck to deal from, in place of a shuffled full deck.
    pub fn with_deck(self, deck: Vec<Card>) -> (builder: Self)
        ensures
            builder.configured() == self.configured(),
            builder.supplied_deck() == Some(deck@),
    {
        let mut builder = self;
        builder.deck = Some(deck);
        builder
    }

    /// Override the default stock size (per player). When not set, the standard
    /// rules apply: 30 cards for up to 4 players, otherwise 20.
    pub fn with_stock_size(self, stock_size: usize) -> (builder: Self)
        ensures
            builder.configured() == (GameConfig {
                stock_size: Some(stock_size),
                ..self.configured()
            }),
            builder.supplied_deck() == self.supplied_deck(),
    {
        let mut builder = self;
        builder.config.stock_size = Some(stock_size);
        builder
    }

    /// Sets the game up: deals the stocks and fills the first hand.
    ///
    /// The game is refused when the player count is out of range, when the stock size
    /// is zero, or when the deck cannot supply every stock. Otherwise it starts as
    /// [`opening`] says, from the supplied deck or from the full deck in the order the
    /// seeded generator gives it.
    pub fn build(self) -> (r: Result<Game, GameError>)
        ensures
            match r {
                Ok(game) => self.configured().refusal(self.deck_len()) is None && game.wf()
                    && game@.card_count() == self.deck_len() && exists|deck: Seq<Card>| #[trigger]
                    self.deals_from(deck) && game@ == opening(self.configured().settings(), deck),
                Err(e) => self.configured().refusal(self.deck_len()) matches Some(why) && (
                e matches GameError::InvalidConfiguration(reason) && reason@ == why),
            },
    {
        Game::from_builder(self)
    }
}

/// The game engine.
pub struct Game {
    settings: GameSettings,
    status: GameStatus,
    current_player: PlayerId,
    players: Vec<PlayerState>,
    build_piles: [BuildPile; 4],
    draw_pile: Vec<Card>,
    recycle_pile: Vec<Card>,
    turn_phase: TurnPhase,
    idle_turns: usize,
    rng: StdRng,
}

impl View for Game {
    type V = GameModel;

    closed spec fn view(&self) -> GameModel {
        GameModel {
            settings: self.settings,
            status: self.status,
            phase: self.turn_phase,
            current: self.current_player as int,
            players: Seq::new(self.players@.len(), |p: int| self.players@[p]@),
            piles: Seq::new(4, |b: int| self.build_piles[b]@),
            draw: self.draw_pile@,
            recycle: self.recycle_pile@,
            idle_turns: self.idle_turns as int,
        }
    }
}

impl Game {
    /// The invariant every game keeps.
    pub open spec fn wf(&self) -> bool {
        self@.valid()
    }

    /// A builder for a game of `num_players` players.
    pub fn builder(num_players: usize) -> (r: Result<GameBuilder, GameError>)
        ensures
            match r {
                Ok(builder) => GameSettings::player_count_ok(num_players) && builder.configured()
                    == (GameConfig { num_players, seed: DEFAULT_SEED, stock_size: None })
                    && builder.supplied_deck() is None,
                Err(e) => !GameSettings::player_count_ok(num_players) && (e matches GameError::InvalidConfiguration(
                    reason,
                ) && reason@ == "players must be between 2 and 6"@),
            },
    {
        GameBuilder::new(num_players)
    }

    /// Sets a game up from a configuration, dealing from a shuffled full deck.
    pub fn new(config: GameConfig) -> (r: Result<Self, GameError>)
        ensures
            match r {
                Ok(game) => config.refusal(DECK_SIZE as int) is None && game.wf()
                    && game@.card_count() == DECK_SIZE && exists|deck: Seq<Card>| #[trigger]
                    is_shuffle(deck, full_deck_cards()) && game@ == opening(
                        config.settings(),
                        deck,
                    ),
                Err(e) => config.refusal(DECK_SIZE as int) matches Some(why) && (
                e matches GameError::InvalidConfiguration(reason) && reason@ == why),
            },
    {
        let builder = GameBuilder { config, deck: None };
        let r = builder.build();
        proof {
            if r is Ok {
                let deck = choose|deck: Seq<Card>| #[trigger]
                    builder.deals_from(deck) && r->Ok_0@ == opening(config.settings(), deck);
                assert(is_shuffle(deck, full_deck_cards()));
            }
        }
        r
    }

    /// Deals one stock of `stock_size` cards off the end of the deck.
    fn deal_stock(deck: &mut Vec<Card>, stock_size: usize) -> (stock: Vec<Card>)
        requires
            stock_size <= old(deck)@.len(),
        ensures
            final(deck)@ == old(deck)@.take(old(deck)@.len() - stock_size),
            stock@ == old(deck)@.skip(old(deck)@.len() - stock_size).reverse(),
    {
        let mut stock: Vec<Card> = Vec::with_capacity(stock_size);
        let ghost top = deck@.len() as int;
        let mut count: usize = 0;
        while count < stock_size
            invariant
                0 <= count <= stock_size <= top,
                top == old(deck)@.len(),
                deck@ == old(deck)@.take(top - count),
                stock@ == old(deck)@.skip(top - count).reverse(),
            decreases stock_size - count,
        {
            let card = deck.pop().unwrap();
            stock.push(card);
            count = count + 1;
            proof {
                assert(deck@ =~= old(deck)@.take(top - count));
                assert(stock@ =~= old(deck)@.skip(top - count).reverse());
            }
        }
        stock
    }

    /// Sets the game up as the builder says.
    fn from_builder(builder: GameBuilder) -> (r: Result<Self, GameError>)
        ensures
            match r {
                Ok(game) => builder.configured().refusal(builder.deck_len()) is None && game.wf()
                    && game@.card_count() == builder.deck_len() && exists|deck: Seq<Card>| #[trigger]
                    builder.deals_from(deck) && game@ == opening(
                        builder.configured().settings(),
                        deck,
                    ),
                Err(e) => builder.configured().refusal(builder.deck_len()) matches Some(why) && (
                e matches GameError::InvalidConfiguration(reason) && reason@ == why),
            },
    {
        let GameBuilder { config, deck } = builder;
        let mut settings = match GameSettings::new(config.num_players) {
            Ok(settings) => settings,
            Err(e) => {
                return Err(e);
            },
        };
        match config.stock_size {
            Some(custom_stock) => {
                if custom_stock == 0 {
                    return Err(GameError::InvalidConfiguration("stock size must be positive"));
                }
                settings.stock_size = custom_stock;
            },
            None => {},
        }
        assert(settings == config.settings());
        let mut rng = seeded_rng(config.seed);
        let mut deck = match deck {
            Some(deck) => deck,
            None => {
                let mut deck = full_deck();
                shuffle_cards(&mut deck, &mut rng);
                proof {
                    deck@.to_multiset_ensures();
                    full_deck_cards().to_multiset_ensures();
                }
                deck
            },
        };
        let ghost full = deck@;
        assert(builder.deals_from(full));
        assert(full.len() == builder.deck_len());
        assert(0 <= settings.stock_size * settings.num_players == settings.num_players
            * settings.stock_size) by (nonlinear_arith);
        let product = settings.stock_size.checked_mul(settings.num_players);
        let enough = match product {
            Some(required_stock_cards) => deck.len() >= required_stock_cards,
            None => false,
        };
        if !enough {
            assert(deck.len() < settings.num_players * settings.stock_size);
            return Err(
                GameError::InvalidConfiguration(
                    "deck does not contain enough cards to deal stocks",
                ),
            );
        }
        let ghost size = settings.stock_size as int;
        let ghost n = settings.num_players as int;
        let mut players: Vec<PlayerState> = Vec::with_capacity(settings.num_players);
        let mut seat: usize = 0;
        while seat < settings.num_players
            invariant
                0 <= seat <= settings.num_players,
                size == settings.stock_size,
                n == settings.num_players,
                0 <= size,
                n * size <= full.len(),
                deck@ == full.take(full.len() - seat * size),
                players@.len() == seat,
                forall|p: int|
                    0 <= p < seat ==> (#[trigger] players@[p])@ == dealt_player(full, size, p),
            decreases settings.num_players - seat,
        {
            proof {
                lemma_shares_fit(size, seat as int, n);
                lemma_shares_fit(size, seat as int + 1, n);
            }
            let stock = Self::deal_stock(&mut deck, settings.stock_size);
            let player = PlayerState::new(stock);
            proof {
                let low = full.len() - (seat + 1) * size;
                let high = full.len() - seat * size;
                assert(full.take(high).skip(low) =~= full.subrange(low, high));
                assert(deck@ =~= full.take(low));
                assert(player@.discards =~= dealt_player(full, size, seat as int).discards);
                assert(player@ == dealt_player(full, size, seat as int));
            }
            players.push(player);
            seat = seat + 1;
        }
        let mut game = Game {
            settings,
            status: GameStatus::Ongoing,
            current_player: 0,
            players,
            build_piles: [BuildPile::new(), BuildPile::new(), BuildPile::new(), BuildPile::new()],
            draw_pile: deck,
            recycle_pile: Vec::new(),
            turn_phase: TurnPhase::AwaitingAction,
            idle_turns: 0,
            rng,
        };
        let ghost start = game@;
        proof {
            assert(start.players =~= dealt(settings, full).players);
            assert(start.piles =~= dealt(settings, full).piles);
            assert(start == dealt(settings, full));
        }
        game.begin_turn();
        proof {
            let s = choose|s: Seq<Card>| #[trigger]
                is_shuffle(s, start.recycle) && game@ == (GameModel {
                    phase: TurnPhase::AwaitingAction,
                    ..start
                }).refill(s);
            s.to_multiset_ensures();
            start.recycle.to_multiset_ensures();
            assert(s =~= Seq::<Card>::empty());
            assert(game@ == opening(settings, full));
            lemma_opening(settings, full);
        }
        Ok(game)
    }

    /// The status of the game.
    pub fn status(&self) -> (status: GameStatus)
        ensures
            status == self@.status,
    {
        self.status
    }

    /// The settings the game runs under.
    pub fn settings(&self) -> (settings: GameSettings)
        ensures
            settings == self@.settings,
    {
        self.settings
    }

    /// The player whose turn it is.
    pub fn current_player(&self) -> (player: PlayerId)
        ensures
            player == self@.current,
    {
        self.current_player
    }

    /// The phase of the active turn.
    pub fn turn_phase(&self) -> (phase: TurnPhase)
        ensures
            phase == self@.phase,
    {
        self.turn_phase
    }

    /// Whether the game has ended, with a winner or in a draw.
    pub fn is_finished(&self) -> (finished: bool)
        ensures
            finished == (self@.status != GameStatus::Ongoing),
    {
        match self.status {
            GameStatus::Ongoing => false,
            _ => true,
        }
    }

    /// The winner, if the game has one.
    pub fn winner(&self) -> (winner: Option<PlayerId>)
        ensures
            winner == match self@.status {
                GameStatus::Finished { winner } => Some(winner),
                _ => None::<PlayerId>,
            },
    {
        match self.status {
            GameStatus::Finished { winner } => Some(winner),
            _ => None,
        }
    }

    /// Shuffles the recycle pile and makes it the draw pile.
    fn reshuffle_recycle(&mut self)
        requires
            old(self)@.draw.len() == 0,
        ensures
            is_shuffle(final(self)@.draw, old(self)@.recycle),
            final(self)@ == (GameModel {
                draw: final(self)@.draw,
                recycle: Seq::empty(),
                ..old(self)@
            }),
    {
        shuffle_cards(&mut self.recycle_pile, &mut self.rng);
        self.draw_pile.append(&mut self.recycle_pile);
    }

    /// Draws the card at the end of the draw pile. When the draw pile is empty, the
    /// recycle pile is shuffled into it first; when both are empty, nothing is drawn.
    fn draw_card(&mut self) -> (card: Option<Card>)
        ensures
            old(self)@.draw.len() > 0 ==> card == Some(old(self)@.draw.last()) && final(self)@ == (
            GameModel { draw: old(self)@.draw.drop_last(), ..old(self)@ }),
            old(self)@.draw.len() == 0 && old(self)@.recycle.len() > 0 ==> card is Some
                && is_shuffle(final(self)@.draw.push(card->Some_0), old(self)@.recycle)
                && final(self)@ == (GameModel {
                draw: final(self)@.draw,
                recycle: Seq::empty(),
                ..old(self)@
            }),
            old(self)@.supply() == 0 ==> card is None && final(self)@ == old(self)@,
    {
        if self.draw_pile.len() > 0 {
            return self.draw_pile.pop();
        }
        if self.recycle_pile.len() == 0 {
            return None;
        }
        self.reshuffle_recycle();
        proof {
            self.draw_pile@.to_multiset_ensures();
            old(self).recycle_pile@.to_multiset_ensures();
        }
        let ghost shuffled = self.draw_pile@;
        let card = self.draw_pile.pop();
        assert(self.draw_pile@.push(card->Some_0) =~= shuffled);
        card
    }

    /// Looks at the card a play from `source` would move.
    fn peek_source(player: &PlayerState, source: CardSource) -> (r: Result<Card, GameError>)
        ensures
            match r {
                Ok(card) => player@.source_card(source) == Some(card),
                Err(e) => player@.source_card(source) is None && e == GameError::InvalidAction(
                    player@.source_error(source),
                ),
            },
    {
        match source {
            CardSource::Hand(index) => {
                if index >= player.hand.len() {
                    return Err(GameError::InvalidAction(InvalidAction::HandIndex(index)));
                }
                Ok(player.hand[index])
            },
            CardSource::Stock => match player.stock_top() {
                Some(card) => Ok(card),
                None => Err(GameError::InvalidAction(InvalidAction::NoCardAvailable)),
            },
            CardSource::Discard(index) => {
                if index >= DISCARD_PILE_COUNT {
                    Err(GameError::InvalidAction(InvalidAction::DiscardIndex(index)))
                } else {
                    match player.discard_top(index) {
                        Some(card) => Ok(card),
                        None => Err(GameError::InvalidAction(InvalidAction::NoCardAvailable)),
                    }
                }
            },
        }
    }

    /// Removes the card at `source` from the player's holdings and hands it out.
    fn take_from_source(player: &mut PlayerState, source: CardSource) -> (r: Result<
        Card,
        GameError,
    >)
        ensures
            match r {
                Ok(card) => old(player)@.source_card(source) == Some(card) && final(player)@
                    == old(player)@.without(source),
                Err(e) => old(player)@.source_card(source) is None && e
                    == GameError::InvalidAction(old(player)@.source_error(source))
                    && final(player)@ == old(player)@,
            },
    {
        match source {
            CardSource::Hand(index) => {
                if index >= player.hand.len() {
                    return Err(GameError::InvalidAction(InvalidAction::HandIndex(index)));
                }
                let card = player.hand.remove(index);
                assert(player@.discards =~= old(player)@.discards);
                Ok(card)
            },
            CardSource::Stock => {
                let popped = player.stock.pop();
                assert(player@.discards =~= old(player)@.discards);
                match popped {
                    Some(card) => Ok(card),
                    None => Err(GameError::InvalidAction(InvalidAction::NoCardAvailable)),
                }
            },
            CardSource::Discard(index) => {
                if index >= DISCARD_PILE_COUNT {
                    Err(GameError::InvalidAction(InvalidAction::DiscardIndex(index)))
                } else {
                    let popped = player.discard_piles[index].pop();
                    match popped {
                        Some(card) => {
                            assert(player@.discards =~= old(player)@.discards.update(
                                index as int,
                                old(player)@.discards[index as int].drop_last(),
                            ));
                            Ok(card)
                        },
                        None => {
                            assert(player@.discards =~= old(player)@.discards);
                            Err(GameError::InvalidAction(InvalidAction::NoCardAvailable))
                        },
                    }
                }
            },
        }
    }

    /// Moves hand card `hand_index` of the active player onto discard pile `discard_index`.
    fn discard_card(&mut self, hand_index: usize, discard_index: usize) -> (r: Result<
        (),
        GameError,
    >)
        requires
            old(self)@.current < old(self)@.players.len(),
        ensures
            match r {
                Ok(()) => old(self)@.legal(
                    Action::Discard { hand_index, discard_pile: discard_index },
                ) && final(self)@ == old(self)@.after_discard(
                    hand_index as int,
                    discard_index as int,
                ),
                Err(e) => old(self)@.action_fault(
                    Action::Discard { hand_index, discard_pile: discard_index },
                ) matches Some(fault) && e == GameError::InvalidAction(fault) && final(self)@
                    == old(self)@,
            },
    {
        if discard_index >= DISCARD_PILE_COUNT {
            return Err(GameError::InvalidAction(InvalidAction::DiscardIndex(discard_index)));
        }
        let current = self.current_player;
        if hand_index >= self.players[current].hand.len() {
            return Err(GameError::InvalidAction(InvalidAction::HandIndex(hand_index)));
        }
        let card = self.players[current].hand.remove(hand_index);
        self.players[current].discard_piles[discard_index].push(card);
        self.idle_turns = 0;
        proof {
            let before = old(self)@.active();
            let after = before.discarding(hand_index as int, discard_index as int);
            assert(self.players[current as int]@.discards =~= after.discards);
            assert(self@.players =~= old(self)@.players.update(current as int, after));
        }
        Ok(())
    }

    /// Plays the active player's card at `source` onto build pile `build_pile_idx`.
    fn play_card(&mut self, build_pile_idx: usize, source: CardSource) -> (r: Result<
        (),
        GameError,
    >)
        requires
            old(self).wf(),
            old(self)@.status == GameStatus::Ongoing,
        ensures
            match r {
                Ok(()) => old(self)@.legal(Action::Play { source, build_pile: build_pile_idx })
                    && old(self)@.leads_to(
                    Action::Play { source, build_pile: build_pile_idx },
                    final(self)@,
                ),
                Err(e) => old(self)@.action_fault(
                    Action::Play { source, build_pile: build_pile_idx },
                ) matches Some(fault) && e == GameError::InvalidAction(fault) && final(self)@
                    == old(self)@,
            },
    {
        let ghost pre = self@;
        let ghost action = Action::Play { source, build_pile: build_pile_idx };
        if build_pile_idx >= BUILD_PILE_COUNT {
            return Err(GameError::InvalidAction(InvalidAction::BuildPileIndex(build_pile_idx)));
        }
        let current = self.current_player;
        let required_value = self.build_piles[build_pile_idx].next_value();
        match Self::peek_source(&self.players[current], source) {
            Ok(card) => {
                if !card.matches_value(required_value) {
                    return Err(
                        GameError::InvalidAction(
                            InvalidAction::CardMismatch { required: required_value },
                        ),
                    );
                }
            },
            Err(e) => {
                return Err(e);
            },
        }
        let card = match Self::take_from_source(&mut self.players[current], source) {
            Ok(card) => card,
            Err(e) => {
                return Err(e);
            },
        };
        self.build_piles[build_pile_idx].push(card);
        if self.build_piles[build_pile_idx].is_complete() {
            let mut completed = self.build_piles[build_pile_idx].take_cards();
            self.recycle_pile.append(&mut completed);
        }
        self.idle_turns = 0;
        let ghost mid = pre.after_play(source, build_pile_idx as int);
        proof {
            assert(self@.players =~= mid.players);
            assert(self@.piles =~= mid.piles);
            assert(self@ == mid);
        }
        if self.players[current].stock.len() == 0 {
            self.players[current].has_won = true;
            self.status = GameStatus::Finished { winner: current };
            self.turn_phase = TurnPhase::GameOver;
            proof {
                assert(self.players[current as int]@.discards =~= mid.active().discards);
                assert(self@.players =~= mid.won().players);
                assert(self@ == pre.step(action, pre.shuffle_base(action)));
                assert(is_shuffle(pre.shuffle_base(action), pre.shuffle_base(action)));
            }
        } else {
            let refill = match source {
                CardSource::Hand(_) => self.players[current].hand.len() == 0,
                _ => false,
            };
            if refill {
                self.refill_hand();
                proof {
                    let s = choose|s: Seq<Card>| #[trigger]
                        is_shuffle(s, mid.recycle) && self@ == mid.refill(s);
                    assert(is_shuffle(s, pre.shuffle_base(action)));
                    assert(self@ == pre.step(action, s));
                }
            } else {
                proof {
                    assert(self@ == pre.step(action, pre.shuffle_base(action)));
                    assert(is_shuffle(pre.shuffle_base(action), pre.shuffle_base(action)));
                }
            }
        }
        Ok(())
    }

    /// Hands the turn to the next player and refills that player's hand.
    fn advance_turn(&mut self)
        requires
            old(self)@.current < old(self)@.players.len(),
        ensures
            exists|s: Seq<Card>| #[trigger]
                is_shuffle(s, old(self)@.recycle) && final(self)@ == old(self)@.rotated().refill(
                    s,
                ),
    {
        proof {
            lemma_next_seat(self@);
            assert(self@.players.len() == self.players.len());
        }
        self.current_player = (self.current_player + 1) % self.players.len();
        let ghost turned = self@;
        self.begin_turn();
        proof {
            let s = choose|s: Seq<Card>| #[trigger]
                is_shuffle(s, turned.recycle) && self@ == (GameModel {
                    phase: TurnPhase::AwaitingAction,
                    ..turned
                }).refill(s);
            assert(is_shuffle(s, old(self)@.recycle) && self@ == old(self)@.rotated().refill(s));
        }
    }

    /// Opens the active player's turn: the hand is refilled up to the hand size, as far
    /// as the supply reaches.
    fn begin_turn(&mut self)
        requires
            old(self)@.current < old(self)@.players.len(),
        ensures
            exists|s: Seq<Card>| #[trigger]
                is_shuffle(s, old(self)@.recycle) && final(self)@ == (GameModel {
                    phase: TurnPhase::AwaitingAction,
                    ..old(self)@
                }).refill(s),
    {
        self.turn_phase = TurnPhase::AwaitingAction;
        let ghost open = self@;
        self.refill_hand();
        proof {
            let s = choose|s: Seq<Card>| #[trigger]
                is_shuffle(s, open.recycle) && self@ == open.refill(s);
            assert(is_shuffle(s, old(self)@.recycle) && self@ == (GameModel {
                phase: TurnPhase::AwaitingAction,
                ..old(self)@
            }).refill(s));
        }
    }

    /// Whether one of the four required values is matched by the card.
    fn matches_any(card: Card, required: &[u8; 4]) -> (matched: bool)
        ensures
            matched == exists|b: int| 0 <= b < 4 && card.matches(#[trigger] required[b] as int),
    {
        card.matches_value(required[0]) || card.matches_value(required[1]) || card.matches_value(
            required[2],
        ) || card.matches_value(required[3])
    }

    /// Whether the active player can do nothing but end the turn.
    fn active_is_stuck(&self) -> (stuck: bool)
        requires
            self.wf(),
        ensures
            stuck == self@.stuck(self@.current),
    {
        let player = &self.players[self.current_player];
        let ghost p = self@.current;
        if player.hand.len() > 0 {
            return false;
        }
        let required = self.required_values();
        match player.stock_top() {
            Some(card) => {
                if Self::matches_any(card, &required) {
                    proof {
                        let b = choose|b: int| 0 <= b < 4 && card.matches(
                            #[trigger] required[b] as int,
                        );
                        assert(self@.playable_by(p, CardSource::Stock, b));
                    }
                    return false;
                }
            },
            None => {},
        }
        let mut d: usize = 0;
        while d < DISCARD_PILE_COUNT
            invariant
                0 <= d <= DISCARD_PILE_COUNT,
                self.wf(),
                p == self@.current,
                *player == self.players[p],
                forall|b: int| 0 <= b < 4 ==> #[trigger] required[b] == next_value(self@.piles[b]),
                forall|e: usize, b: int|
                    e < d ==> !#[trigger] self@.playable_by(p, CardSource::Discard(e), b),
            decreases DISCARD_PILE_COUNT - d,
        {
            match player.discard_top(d) {
                Some(card) => {
                    if Self::matches_any(card, &required) {
                        proof {
                            let b = choose|b: int| 0 <= b < 4 && card.matches(
                                #[trigger] required[b] as int,
                            );
                            assert(self@.playable_by(p, CardSource::Discard(d), b));
                        }
                        return false;
                    }
                },
                None => {},
            }
            proof {
                assert forall|b: int| !#[trigger] self@.playable_by(
                    p,
                    CardSource::Discard(d),
                    b,
                ) by {
                    if 0 <= b < 4 {
                        assert(required[b] == next_value(self@.piles[b]));
                    }
                }
            }
            d = d + 1;
        }
        proof {
            assert forall|source: CardSource, b: int| !#[trigger] self@.playable_by(
                p,
                source,
                b,
            ) by {
                if 0 <= b < 4 {
                    assert(required[b] == next_value(self@.piles[b]));
                }
                match source {
                    CardSource::Discard(e) => {
                        if e < DISCARD_PILE_COUNT {
                            assert(!self@.playable_by(p, CardSource::Discard(e), b));
                        }
                    },
                    _ => {},
                }
            }
        }
        true
    }

    /// What everybody may know of player `index`.
    fn public_state(&self, index: usize) -> (seen: PlayerPublicState)
        requires
            index < self@.players.len(),
        ensures
            self@.player_seen_as(index as int, seen),
    {
        let player = &self.players[index];
        PlayerPublicState {
            id: index,
            stock_count: player.stock.len(),
            stock_top: player.stock_top(),
            discard_tops: player.discard_tops(),
            discard_counts: player.discard_counts(),
            hand_size: player.hand.len(),
            is_current: index == self.current_player,
            has_won: player.has_won,
        }
    }

    /// The snapshot of the game for player `perspective`: everything that is public,
    /// and the hand of `perspective` alone.
    pub fn state_view(&self, perspective: PlayerId) -> (r: Result<GameStateView, GameError>)
        ensures
            match r {
                Ok(seen) => perspective < self@.players.len() && self@.seen_as(
                    perspective as int,
                    seen,
                ),
                Err(e) => perspective >= self@.players.len() && e == GameError::InvalidPlayer(
                    perspective,
                ),
            },
    {
        if perspective >= self.players.len() {
            return Err(GameError::InvalidPlayer(perspective));
        }
        let build_piles = [
            self.build_piles[0].as_view(),
            self.build_piles[1].as_view(),
            self.build_piles[2].as_view(),
            self.build_piles[3].as_view(),
        ];
        let mut players: Vec<PlayerPublicState> = Vec::new();
        let mut index: usize = 0;
        while index < self.players.len()
            invariant
                0 <= index <= self.players.len(),
                players@.len() == index,
                forall|p: int| 0 <= p < index ==> self@.player_seen_as(p, #[trigger] players@[p]),
            decreases self.players.len() - index,
        {
            let seen = self.public_state(index);
            players.push(seen);
            index = index + 1;
        }
        let seen = GameStateView {
            settings: self.settings,
            phase: self.turn_phase,
            status: self.status,
            self_player: perspective,
            current_player: self.current_player,
            draw_pile_count: self.draw_pile.len(),
            recycle_pile_count: self.recycle_pile.len(),
            build_piles,
            players,
            hand: self.players[perspective].hand.clone(),
        };
        Ok(seen)
    }

    /// Appends the legal plays of the card at `source`, one for each build pile that
    /// asks for it.
    fn push_plays(
        &self,
        actions: &mut Vec<Action>,
        source: CardSource,
        card: Card,
        required: &[u8; 4],
    )
        requires
            self.wf(),
            self@.active().source_card(source) == Some(card),
            forall|b: int| 0 <= b < 4 ==> #[trigger] required[b] == next_value(self@.piles[b]),
            listed_up_to(
                self@,
                old(actions)@,
                (source_rank(source).0, source_rank(source).1, 0),
            ),
        ensures
            listed_up_to(
                self@,
                final(actions)@,
                (source_rank(source).0, source_rank(source).1, 4),
            ),
    {
        let ghost group = source_rank(source).0;
        let ghost place = source_rank(source).1;
        let mut build_index: usize = 0;
        while build_index < BUILD_PILE_COUNT
            invariant
                0 <= build_index <= BUILD_PILE_COUNT,
                self.wf(),
                self@.active().source_card(source) == Some(card),
                group == source_rank(source).0,
                place == source_rank(source).1,
                forall|b: int| 0 <= b < 4 ==> #[trigger] required[b] == next_value(self@.piles[b]),
                listed_up_to(self@, actions@, (group, place, build_index as int)),
            decreases BUILD_PILE_COUNT - build_index,
        {
            let action = Action::Play { source, build_pile: build_index };
            let ghost here = (group, place, build_index as int);
            let ghost next = (group, place, build_index as int + 1);
            assert(required[build_index as int] == next_value(self@.piles[build_index as int]));
            if card.matches_value(required[build_index]) {
                proof {
                    assert forall|x: Action|
                        self@.legal(x) && rank_before(action_rank(x), next) implies rank_before(
                        action_rank(x),
                        here,
                    ) || x == action by {
                        lemma_rank_of_source(x, source);
                    }
                    lemma_list_push(self@, actions@, here, action, next);
                }
                actions.push(action);
            } else {
                proof {
                    assert forall|x: Action|
                        self@.legal(x) && rank_before(action_rank(x), next) implies rank_before(
                        action_rank(x),
                        here,
                    ) by {
                        lemma_rank_of_source(x, source);
                    }
                    lemma_list_skip(self@, actions@, here, next);
                }
            }
            build_index = build_index + 1;
        }
    }

    /// Lists the actions `player` may take.
    ///
    /// Once the game is over the list is empty, whoever asks. In an ongoing game only the
    /// active player may ask. The list holds every legal action and no other, each once:
    /// the plays by source (hand cards by index, then the stock, then the discard piles)
    /// and build pile, then, for a hand that holds cards, every discard by discard pile
    /// and hand index, or, for an empty hand, the end of the turn.
    pub fn legal_actions(&self, player: PlayerId) -> (r: Result<Vec<Action>, GameError>)
        requires
            self.wf(),
        ensures
            match r {
                Ok(actions) => if self@.status != GameStatus::Ongoing {
                    actions@.len() == 0
                } else {
                    player == self@.current && self@.lists_legal(actions@)
                },
                Err(e) => self@.status == GameStatus::Ongoing && player != self@.current && e == (
                if player >= self@.players.len() {
                    GameError::InvalidPlayer(player)
                } else {
                    GameError::NotPlayersTurn
                }),
            },
    {
        match self.status {
            GameStatus::Ongoing => {},
            _ => {
                return Ok(Vec::new());
            },
        }
        if player >= self.players.len() {
            return Err(GameError::InvalidPlayer(player));
        }
        if player != self.current_player {
            return Err(GameError::NotPlayersTurn);
        }
        let ghost m = self@;
        let player_state = &self.players[player];
        let hand_len = player_state.hand.len();
        let mut actions: Vec<Action> = Vec::new();
        let required = self.required_values();
        assert(m.active() == player_state@);

        let mut hand_index: usize = 0;
        while hand_index < hand_len
            invariant
                0 <= hand_index <= hand_len,
                hand_len == player_state.hand.len(),
                self.wf(),
                m == self@,
                m.active() == player_state@,
                forall|b: int| 0 <= b < 4 ==> #[trigger] required[b] == next_value(m.piles[b]),
                listed_up_to(m, actions@, (0, hand_index as int, 0)),
            decreases hand_len - hand_index,
        {
            let card = player_state.hand[hand_index];
            self.push_plays(&mut actions, CardSource::Hand(hand_index), card, &required);
            proof {
                lemma_list_skip(
                    m,
                    actions@,
                    (0, hand_index as int, 4),
                    (0, hand_index as int + 1, 0),
                );
            }
            hand_index = hand_index + 1;
        }
        proof {
            lemma_list_skip(m, actions@, (0, hand_len as int, 0), (1, 0, 0));
        }
        match player_state.stock_top() {
            Some(card) => {
                self.push_plays(&mut actions, CardSource::Stock, card, &required);
                proof {
                    lemma_list_skip(m, actions@, (1, 0, 4), (2, 0, 0));
                }
            },
            None => {
                proof {
                    lemma_list_skip(m, actions@, (1, 0, 0), (2, 0, 0));
                }
            },
        }
        let mut discard_index: usize = 0;
        while discard_index < DISCARD_PILE_COUNT
            invariant
                0 <= discard_index <= DISCARD_PILE_COUNT,
                self.wf(),
                m == self@,
                m.active() == player_state@,
                forall|b: int| 0 <= b < 4 ==> #[trigger] required[b] == next_value(m.piles[b]),
                listed_up_to(m, actions@, (2, discard_index as int, 0)),
            decreases DISCARD_PILE_COUNT - discard_index,
        {
            match player_state.discard_top(discard_index) {
                Some(card) => {
                    self.push_plays(
                        &mut actions,
                        CardSource::Discard(discard_index),
                        card,
                        &required,
                    );
                    proof {
                        lemma_list_skip(
                            m,
                            actions@,
                            (2, discard_index as int, 4),
                            (2, discard_index as int + 1, 0),
                        );
                    }
                },
                None => {
                    proof {
                        lemma_list_skip(
                            m,
                            actions@,
                            (2, discard_index as int, 0),
                            (2, discard_index as int + 1, 0),
                        );
                    }
                },
            }
            discard_index = discard_index + 1;
        }
        proof {
            lemma_list_skip(m, actions@, (2, 4, 0), (3, 0, 0));
        }
        if hand_len > 0 {
            let mut discard_pile: usize = 0;
            while discard_pile < DISCARD_PILE_COUNT
                invariant
                    0 <= discard_pile <= DISCARD_PILE_COUNT,
                    hand_len == m.active().hand.len(),
                    hand_len > 0,
                    listed_up_to(m, actions@, (3, discard_pile as int, 0)),
                decreases DISCARD_PILE_COUNT - discard_pile,
            {
                let mut index: usize = 0;
                while index < hand_len
                    invariant
                        0 <= index <= hand_len,
                        0 <= discard_pile < DISCARD_PILE_COUNT,
                        hand_len == m.active().hand.len(),
                        listed_up_to(m, actions@, (3, discard_pile as int, index as int)),
                    decreases hand_len - index,
                {
                    let action = Action::Discard { hand_index: index, discard_pile };
                    proof {
                        lemma_list_push(
                            m,
                            actions@,
                            (3, discard_pile as int, index as int),
                            action,
                            (3, discard_pile as int, index as int + 1),
                        );
                    }
                    actions.push(action);
                    index = index + 1;
                }
                proof {
                    lemma_list_skip(
                        m,
                        actions@,
                        (3, discard_pile as int, hand_len as int),
                        (3, discard_pile as int + 1, 0),
                    );
                }
                discard_pile = discard_pile + 1;
            }
            proof {
                lemma_list_skip(m, actions@, (3, 4, 0), (5, 0, 0));
            }
        } else {
            proof {
                lemma_list_skip(m, actions@, (3, 0, 0), (4, 0, 0));
                lemma_list_push(m, actions@, (4, 0, 0), Action::EndTurn, (5, 0, 0));
            }
            actions.push(Action::EndTurn);
        }
        proof {
            lemma_list_complete(m, actions@);
        }
        Ok(actions)
    }

    /// Applies `action` on behalf of `player`.
    ///
    /// The action is turned down, and the game left as it was, when the game is over,
    /// when `player` is no seat at the table or not the active one, or when the action
    /// does not fit the state. Otherwise the game moves on as [`GameModel::step`] says:
    ///
    /// - A play moves the card onto the build pile; a pile of twelve cards goes to the
    ///   recycle pile. A play that empties the stock wins the game on the spot. A play
    ///   that empties the hand refills it at once.
    /// - A discard parks the hand card and ends the turn.
    /// - The turn can be ended only with an empty hand. The game is a draw once every
    ///   player in a row has ended the turn for want of any other action.
    /// - When a turn ends, the next player's hand is refilled. Where the draw pile runs
    ///   out, the recycle pile is shuffled and becomes the draw pile.
    ///
    /// No card is made or lost.
    pub fn apply_action(&mut self, player: PlayerId, action: Action) -> (r: Result<(), GameError>)
        requires
            old(self).wf(),
        ensures
            final(self).wf(),
            match r {
                Ok(()) => old(self)@.rejection(player, action) is None && old(self)@.leads_to(
                    action,
                    final(self)@,
                ),
                Err(e) => old(self)@.rejection(player, action) == Some(e) && final(self)@ == old(
                    self,
                )@,
            },
            r is Ok ==> final(self)@.cards() == old(self)@.cards(),
    {
        let ghost pre = self@;
        match self.status {
            GameStatus::Ongoing => {},
            _ => {
                return Err(GameError::GameOver);
            },
        }
        if player >= self.players.len() {
            return Err(GameError::InvalidPlayer(player));
        }
        if player != self.current_player {
            return Err(GameError::NotPlayersTurn);
        }
        match action {
            Action::Play { source, build_pile } => {
                match self.play_card(build_pile, source) {
                    Ok(()) => {},
                    Err(e) => {
                        return Err(e);
                    },
                }
            },
            Action::Discard { hand_index, discard_pile } => {
                match self.discard_card(hand_index, discard_pile) {
                    Ok(()) => {},
                    Err(e) => {
                        return Err(e);
                    },
                }
                let ghost parked = self@;
                self.advance_turn();
                proof {
                    let s = choose|s: Seq<Card>| #[trigger]
                        is_shuffle(s, parked.recycle) && self@ == parked.rotated().refill(s);
                    assert(self@ == pre.step(action, s));
                    assert(is_shuffle(s, pre.shuffle_base(action)));
                }
            },
            Action::EndTurn => {
                if self.players[player].hand.len() > 0 {
                    return Err(GameError::InvalidAction(InvalidAction::MustDiscard));
                }
                if self.active_is_stuck() {
                    self.idle_turns = self.idle_turns + 1;
                } else {
                    self.idle_turns = 0;
                }
                let ghost counted = self@;
                assert(counted == pre.counted());
                self.advance_turn();
                let ghost turned = self@;
                if self.idle_turns >= self.players.len() {
                    self.status = GameStatus::Draw;
                    self.turn_phase = TurnPhase::GameOver;
                }
                proof {
                    let s = choose|s: Seq<Card>| #[trigger]
                        is_shuffle(s, counted.recycle) && turned == counted.rotated().refill(s);
                    assert(self@ == turned.settled());
                    assert(self@ == pre.step(action, s));
                    assert(is_shuffle(s, pre.shuffle_base(action)));
                }
            },
        }
        proof {
            let s = choose|s: Seq<Card>| #[trigger]
                is_shuffle(s, pre.shuffle_base(action)) && self@ == pre.step(action, s);
            lemma_step_valid(pre, action, s);
            lemma_step_conserves_cards(pre, action, s);
        }
        Ok(())
    }

    /// The value each build pile asks for.
    fn required_values(&self) -> (required: [u8; 4])
        ensures
            forall|b: int| 0 <= b < 4 ==> #[trigger] required[b] == next_value(self@.piles[b]),
    {
        [
            self.build_piles[0].next_value(),
            self.build_piles[1].next_value(),
            self.build_piles[2].next_value(),
            self.build_piles[3].next_value(),
        ]
    }

    /// Refills the active player's hand up to the hand size, as far as the supply reaches.
    fn refill_hand(&mut self)
        requires
            old(self)@.current < old(self)@.players.len(),
        ensures
            exists|s: Seq<Card>| #[trigger]
                is_shuffle(s, old(self)@.recycle) && final(self)@ == old(self)@.refill(s),
    {
        let current = self.current_player;
        let hand_target = self.settings.hand_size;
        let ghost pre = self@;
        let ghost mut s: Seq<Card> = pre.recycle;
        let ghost mut drawn: int = 0;
        proof {
            lemma_drawn_zero(pre, s);
        }
        loop
            invariant_except_break
                current == self.current_player,
                current < self.players.len(),
                self.players.len() == pre.players.len(),
                hand_target == self.settings.hand_size,
                pre.current == current,
                pre.settings == self.settings,
                is_shuffle(s, pre.recycle),
                0 <= drawn <= pre.draw.len() + s.len(),
                self@ == drawn_state(pre, s, drawn),
                self.players[current as int]@.hand.len() == pre.active().hand.len() + drawn,
                drawn > 0 ==> pre.active().hand.len() + drawn <= hand_target,
            ensures
                is_shuffle(s, pre.recycle),
                self@ == pre.refill(s),
            decreases hand_target - self.players[current as int].hand.len(),
        {
            if self.players[current].hand.len() >= hand_target {
                proof {
                    lemma_refill_done(pre, s, drawn);
                }
                break ;
            }
            let ghost before = self@;
            proof {
                s.to_multiset_ensures();
                pre.recycle.to_multiset_ensures();
            }
            match self.draw_card() {
                Some(card) => {
                    proof {
                        if before.draw.len() == 0 {
                            s = self@.draw.push(card);
                        }
                        assert(self@.players.len() == before.players.len());
                    }
                    let ghost mid = self@;
                    self.players[current].hand.push(card);
                    proof {
                        assert(self@.players =~~= mid.players.update(
                            current as int,
                            PlayerModel { hand: mid.active().hand.push(card), ..mid.active() },
                        ));
                        lemma_drawn_next(pre, s, drawn, before, card, self@);
                        drawn = drawn + 1;
                    }
                },
                None => {
                    proof {
                        lemma_refill_dry(pre, s, drawn);
                    }
                    break ;
                },
            }
        }
    }
}

/// `actions` lists, in the order of their ranks, the legal actions whose rank comes
/// before `bound`.
spec fn listed_up_to(m: GameModel, actions: Seq<Action>, bound: (int, int, int)) -> bool {
    &&& forall|i: int, j: int|
        0 <= i < j < actions.len() ==> rank_before(
            action_rank(#[trigger] actions[i]),
            action_rank(#[trigger] actions[j]),
        )
    &&& forall|i: int|
        0 <= i < actions.len() ==> m.legal(#[trigger] actions[i]) && rank_before(
            action_rank(actions[i]),
            bound,
        )
    &&& forall|a: Action|
        m.legal(a) && rank_before(action_rank(a), bound) ==> #[trigger] actions.contains(a)
}

/// A list that reaches past every rank lists the legal actions.
proof fn lemma_list_complete(m: GameModel, actions: Seq<Action>)
    requires
        listed_up_to(m, actions, (5, 0, 0)),
    ensures
        m.lists_legal(actions),
{
    assert forall|a: Action| #[trigger] actions.contains(a) <==> m.legal(a) by {
        if actions.contains(a) {
            let i = choose|i: int| 0 <= i < actions.len() && actions[i] == a;
            assert(m.legal(actions[i]));
        }
        if m.legal(a) {
            assert(rank_before(action_rank(a), (5, 0, 0)));
        }
    }
}

/// A play has the rank of its source only if it is from that source.
proof fn lemma_rank_of_source(x: Action, source: CardSource)
    ensures
        action_rank(x).0 == source_rank(source).0 && action_rank(x).1 == source_rank(source).1
            && action_rank(x).0 <= 2 ==> (x matches Action::Play { source: other, .. } && other
            == source),
{
}

/// A legal action that comes next in rank can be appended to the list.
proof fn lemma_list_push(
    m: GameModel,
    actions: Seq<Action>,
    bound: (int, int, int),
    action: Action,
    next: (int, int, int),
)
    requires
        listed_up_to(m, actions, bound),
        m.legal(action),
        !rank_before(action_rank(action), bound),
        rank_before(action_rank(action), next),
        forall|x: Action|
            m.legal(x) && rank_before(action_rank(x), next) ==> rank_before(action_rank(x), bound)
                || x == action,
    ensures
        listed_up_to(m, actions.push(action), next),
{
    let longer = actions.push(action);
    assert forall|i: int, j: int| 0 <= i < j < longer.len() implies rank_before(
        action_rank(#[trigger] longer[i]),
        action_rank(#[trigger] longer[j]),
    ) by {
        if j == actions.len() {
            assert(m.legal(actions[i]) && rank_before(action_rank(actions[i]), bound));
        } else {
            assert(rank_before(action_rank(actions[i]), action_rank(actions[j])));
        }
    }
    assert forall|i: int| 0 <= i < longer.len() implies m.legal(#[trigger] longer[i])
        && rank_before(action_rank(longer[i]), next) by {
        if i < actions.len() {
            assert(m.legal(actions[i]) && rank_before(action_rank(actions[i]), bound));
        }
    }
    assert forall|a: Action| m.legal(a) && rank_before(action_rank(a), next) implies #[trigger]
        longer.contains(a) by {
        if a == action {
            assert(longer[actions.len() as int] == a);
        } else {
            assert(actions.contains(a));
            let i = choose|i: int| 0 <= i < actions.len() && actions[i] == a;
            assert(longer[i] == a);
        }
    }
}

/// Where no legal action has a rank between two bounds, the list reaches the later one.
proof fn lemma_list_skip(
    m: GameModel,
    actions: Seq<Action>,
    bound: (int, int, int),
    next: (int, int, int),
)
    requires
        listed_up_to(m, actions, bound),
        rank_before(bound, next) || bound == next,
        forall|x: Action|
            m.legal(x) && rank_before(action_rank(x), next) ==> rank_before(action_rank(x), bound),
    ensures
        listed_up_to(m, actions, next),
{
    assert forall|i: int| 0 <= i < actions.len() implies m.legal(#[trigger] actions[i])
        && rank_before(action_rank(actions[i]), next) by {
        assert(m.legal(actions[i]) && rank_before(action_rank(actions[i]), bound));
    }
}

/// The state after `drawn` cards have gone from the supply of `pre` to the active
/// player's hand, where `s` is the order the recycle pile takes when it is reshuffled.
spec fn drawn_state(pre: GameModel, s: Seq<Card>, drawn: int) -> GameModel {
    let player = pre.active();
    if drawn <= pre.draw.len() {
        let keep = pre.draw.len() - drawn;
        GameModel {
            draw: pre.draw.take(keep),
            players: pre.players.update(
                pre.current,
                PlayerModel { hand: player.hand + pre.draw.skip(keep).reverse(), ..player },
            ),
            ..pre
        }
    } else {
        let keep = s.len() - (drawn - pre.draw.len());
        GameModel {
            draw: s.take(keep),
            recycle: Seq::empty(),
            players: pre.players.update(
                pre.current,
                PlayerModel {
                    hand: player.hand + pre.draw.reverse() + s.skip(keep).reverse(),
                    ..player
                },
            ),
            ..pre
        }
    }
}

/// Before any card is drawn the state is the one the refill starts from.
proof fn lemma_drawn_zero(pre: GameModel, s: Seq<Card>)
    requires
        0 <= pre.current < pre.players.len(),
    ensures
        drawn_state(pre, s, 0) == pre,
{
    assert(pre.draw.take(pre.draw.len() as int) =~= pre.draw);
    assert(pre.draw.skip(pre.draw.len() as int).reverse() =~= Seq::<Card>::empty());
    assert(pre.active().hand + Seq::<Card>::empty() =~= pre.active().hand);
    assert(drawn_state(pre, s, 0).players =~= pre.players);
}

/// A hand that has reached the hand size is the refilled hand.
proof fn lemma_refill_done(pre: GameModel, s: Seq<Card>, drawn: int)
    requires
        0 <= pre.current < pre.players.len(),
        0 <= drawn <= pre.draw.len() + s.len(),
        is_shuffle(s, pre.recycle),
        pre.active().hand.len() + drawn >= pre.settings.hand_size,
        drawn > 0 ==> pre.active().hand.len() + drawn == pre.settings.hand_size,
    ensures
        drawn_state(pre, s, drawn) == pre.refill(s),
{
    if drawn == 0 {
        lemma_drawn_zero(pre, s);
    }
}

/// A supply that has run dry before the hand is full leaves the refilled hand.
proof fn lemma_refill_dry(pre: GameModel, s: Seq<Card>, drawn: int)
    requires
        0 <= pre.current < pre.players.len(),
        0 <= drawn <= pre.draw.len() + s.len(),
        is_shuffle(s, pre.recycle),
        pre.active().hand.len() + drawn < pre.settings.hand_size,
        drawn_state(pre, s, drawn).supply() == 0,
    ensures
        drawn_state(pre, s, drawn) == pre.refill(s),
{
    s.to_multiset_ensures();
    pre.recycle.to_multiset_ensures();
    if drawn <= pre.draw.len() {
        assert(s.len() == 0);
        assert(drawn == pre.draw.len());
        assert(pre.draw.skip(0) =~= pre.draw);
        assert(s.skip(0).reverse() =~= Seq::<Card>::empty());
        assert(pre.active().hand + pre.draw.reverse() + Seq::<Card>::empty()
            =~= pre.active().hand + pre.draw.reverse());
        assert(pre.draw.take(0) =~= s.take(0));
        assert(pre.recycle =~= Seq::<Card>::empty());
    }
}

/// Drawing one more card moves on to the next drawn state.
proof fn lemma_drawn_next(
    pre: GameModel,
    s: Seq<Card>,
    drawn: int,
    before: GameModel,
    card: Card,
    after: GameModel,
)
    requires
        0 <= pre.current < pre.players.len(),
        0 <= drawn <= pre.draw.len() + s.len(),
        is_shuffle(s, pre.recycle),
        before == drawn_state(pre, s, drawn),
        before.draw.len() > 0 ==> card == before.draw.last() && after == (GameModel {
            draw: before.draw.drop_last(),
            players: before.players.update(
                pre.current,
                PlayerModel { hand: before.active().hand.push(card), ..before.active() },
            ),
            ..before
        }),
        before.draw.len() == 0 ==> drawn == pre.draw.len() && pre.recycle.len() > 0 && s
            == after.draw.push(card) && after == (GameModel {
            draw: after.draw,
            recycle: Seq::empty(),
            players: before.players.update(
                pre.current,
                PlayerModel { hand: before.active().hand.push(card), ..before.active() },
            ),
            ..pre
        }),
    ensures
        after == drawn_state(pre, s, drawn + 1),
        drawn + 1 <= pre.draw.len() + s.len(),
{
    let next = drawn_state(pre, s, drawn + 1);
    let player = pre.active();
    if before.draw.len() > 0 {
        if drawn < pre.draw.len() {
            let keep = pre.draw.len() - drawn;
            assert(pre.draw.take(keep).drop_last() =~= pre.draw.take(keep - 1));
            assert((player.hand + pre.draw.skip(keep).reverse()).push(pre.draw[keep - 1])
                =~= player.hand + pre.draw.skip(keep - 1).reverse());
            assert(after.players =~= next.players);
        } else {
            let keep = s.len() - (drawn - pre.draw.len());
            if drawn == pre.draw.len() {
                assert(before.draw =~= pre.draw.take(0));
            }
            assert(drawn > pre.draw.len());
            assert(before.draw == s.take(keep));
            assert(0 < keep <= s.len());
            assert(s.take(keep).drop_last() =~= s.take(keep - 1));
            assert((player.hand + pre.draw.reverse() + s.skip(keep).reverse()).push(s[keep - 1])
                =~= player.hand + pre.draw.reverse() + s.skip(keep - 1).reverse());
            assert(after.players =~= next.players);
        }
    } else {
        let keep = s.len() - 1;
        assert(s.take(keep) =~= after.draw);
        assert(pre.draw.skip(0) =~= pre.draw);
        assert((player.hand + pre.draw.reverse()).push(card) =~= player.hand
            + pre.draw.reverse() + s.skip(keep).reverse());
        assert(after.players =~= next.players);
    }
}

} // verus!
