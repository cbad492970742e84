//! Mathematical model of a game.
//!
//! A game is modelled as a value of [`GameModel`]: sequences of cards for every zone,
//! the settings, the status and whose turn it is. The rules are spec functions from a
//! model to the next model. The only thing the rules leave open is the order in which
//! the recycle pile comes back as the draw pile; the functions take that order as the
//! argument `s`.

use vstd::prelude::*;
use vstd::multiset::Multiset;
use crate::action::{Action, CardSource, PlayerId};
use crate::card::{Card, BUILD_PILE_COUNT, DISCARD_PILE_COUNT, MAX_CARD_VALUE};
use crate::error::{GameError, InvalidAction};
use crate::state::{GameSettings, GameStateView, GameStatus, PlayerPublicState, TurnPhase};

verus! {

/// The value a build pile with these cards asks for next.
pub open spec fn next_value(pile: Seq<Card>) -> int {
    (pile.len() as int) % (MAX_CARD_VALUE as int) + 1
}

/// `s` holds the same cards as `of`, each as often, in any order.
pub open spec fn is_shuffle(s: Seq<Card>, of: Seq<Card>) -> bool {
    s.to_multiset() == of.to_multiset()
}

/// The cards held by four piles together.
pub open spec fn piles_cards(piles: Seq<Seq<Card>>) -> Multiset<Card> {
    piles[0].to_multiset().add(piles[1].to_multiset()).add(piles[2].to_multiset()).add(
        piles[3].to_multiset(),
    )
}

/// Where a source stands in the order in which legal actions are listed: hand cards
/// first, by index, then the stock, then the discard piles, by index.
pub open spec fn source_rank(source: CardSource) -> (int, int) {
    match source {
        CardSource::Hand(i) => (0, i as int),
        CardSource::Stock => (1, 0),
        CardSource::Discard(d) => (2, d as int),
    }
}

/// Where an action stands in the order in which legal actions are listed: plays by
/// source and then by build pile, then discards by discard pile and then by hand
/// index, then the end of the turn.
pub open spec fn action_rank(action: Action) -> (int, int, int) {
    match action {
        Action::Play { source, build_pile } => (
            source_rank(source).0,
            source_rank(source).1,
            build_pile as int,
        ),
        Action::Discard { hand_index, discard_pile } => (3, discard_pile as int, hand_index as int),
        Action::EndTurn => (4, 0, 0),
    }
}

/// The first rank comes before the second one.
pub open spec fn rank_before(a: (int, int, int), b: (int, int, int)) -> bool {
    a.0 < b.0 || (a.0 == b.0 && (a.1 < b.1 || (a.1 == b.1 && a.2 < b.2)))
}

/// What one player holds.
pub struct PlayerModel {
    /// The stock pile; its top is the last element.
    pub stock: Seq<Card>,
    /// The hand, in index order.
    pub hand: Seq<Card>,
    /// The four discard piles; the top of each is its last element.
    pub discards: Seq<Seq<Card>>,
    /// Whether the player has emptied the stock.
    pub has_won: bool,
}

impl PlayerModel {
    /// Four discard piles, a hand within its capacity, and the win flag set exactly
    /// when the stock is empty.
    pub open spec fn valid(self, hand_size: int) -> bool {
        &&& self.discards.len() == DISCARD_PILE_COUNT
        &&& self.hand.len() <= hand_size
        &&& self.has_won == (self.stock.len() == 0)
    }

    /// The card a play from `source` would move, if the source holds one.
    pub open spec fn source_card(self, source: CardSource) -> Option<Card> {
        match source {
            CardSource::Hand(i) => if i < self.hand.len() {
                Some(self.hand[i as int])
            } else {
                None
            },
            CardSource::Stock => if self.stock.len() > 0 {
                Some(self.stock.last())
            } else {
                None
            },
            CardSource::Discard(d) => if d < DISCARD_PILE_COUNT && self.discards[d as int].len()
                > 0 {
                Some(self.discards[d as int].last())
            } else {
                None
            },
        }
    }

    /// Why `source` yields no card, for a source that yields none.
    pub open spec fn source_error(self, source: CardSource) -> InvalidAction {
        match source {
            CardSource::Hand(i) => InvalidAction::HandIndex(i),
            CardSource::Stock => InvalidAction::NoCardAvailable,
            CardSource::Discard(d) => if d >= DISCARD_PILE_COUNT {
                InvalidAction::DiscardIndex(d)
            } else {
                InvalidAction::NoCardAvailable
            },
        }
    }

    /// The player after the card at `source` has left. A hand card leaves its index and
    /// the later cards move down by one; a stock or discard card leaves the top.
    pub open spec fn without(self, source: CardSource) -> PlayerModel {
        match source {
            CardSource::Hand(i) => PlayerModel { hand: self.hand.remove(i as int), ..self },
            CardSource::Stock => PlayerModel { stock: self.stock.drop_last(), ..self },
            CardSource::Discard(d) => PlayerModel {
                discards: self.discards.update(d as int, self.discards[d as int].drop_last()),
                ..self
            },
        }
    }

    /// The player after hand card `h` has been put on top of discard pile `d`.
    pub open spec fn discarding(self, h: int, d: int) -> PlayerModel {
        PlayerModel {
            hand: self.hand.remove(h),
            discards: self.discards.update(d, self.discards[d].push(self.hand[h])),
            ..self
        }
    }

    /// The number of cards the player holds: the stock, the hand and the four discard
    /// piles.
    pub open spec fn count(self) -> nat {
        self.stock.len() + self.hand.len() + self.discards[0].len() + self.discards[1].len()
            + self.discards[2].len() + self.discards[3].len()
    }

    /// All cards the player holds.
    pub open spec fn cards(self) -> Multiset<Card> {
        self.stock.to_multiset().add(self.hand.to_multiset()).add(piles_cards(self.discards))
    }
}

/// The number of cards held by the players of a sequence, zone by zone.
pub open spec fn players_count(players: Seq<PlayerModel>) -> nat
    decreases players.len(),
{
    if players.len() == 0 {
        0
    } else {
        players_count(players.drop_last()) + players.last().count()
    }
}

/// All cards held by the players of a sequence.
pub open spec fn players_cards(players: Seq<PlayerModel>) -> Multiset<Card>
    decreases players.len(),
{
    if players.len() == 0 {
        Multiset::empty()
    } else {
        players_cards(players.drop_last()).add(players.last().cards())
    }
}

/// A player who has been dealt seat `seat`'s share of `deck` as the stock: the cards
/// come off the end of the deck one by one, seat 0 first, `stock_size` cards a seat,
/// so the last card dealt to a seat is the top of its stock.
pub open spec fn dealt_player(deck: Seq<Card>, stock_size: int, seat: int) -> PlayerModel {
    PlayerModel {
        stock: deck.subrange(
            deck.len() - (seat + 1) * stock_size,
            deck.len() - seat * stock_size,
        ).reverse(),
        hand: Seq::empty(),
        discards: Seq::new(DISCARD_PILE_COUNT as nat, |d: int| Seq::<Card>::empty()),
        has_won: false,
    }
}

/// The game right after the stocks have been dealt from `deck`: what is left of the
/// deck is the draw pile, and it is the turn of seat 0.
pub open spec fn dealt(settings: GameSettings, deck: Seq<Card>) -> GameModel {
    GameModel {
        settings,
        status: GameStatus::Ongoing,
        phase: TurnPhase::AwaitingAction,
        current: 0,
        players: Seq::new(
            settings.num_players as nat,
            |seat: int| dealt_player(deck, settings.stock_size as int, seat),
        ),
        piles: Seq::new(BUILD_PILE_COUNT as nat, |b: int| Seq::<Card>::empty()),
        draw: deck.take(deck.len() - settings.num_players * settings.stock_size),
        recycle: Seq::empty(),
        idle_turns: 0,
    }
}

/// The game as it starts from `deck`: the stocks dealt and the hand of seat 0 filled.
pub open spec fn opening(settings: GameSettings, deck: Seq<Card>) -> GameModel {
    dealt(settings, deck).refill(Seq::empty())
}

/// The whole state of a game.
pub struct GameModel {
    pub settings: GameSettings,
    pub status: GameStatus,
    pub phase: TurnPhase,
    /// The active player.
    pub current: int,
    pub players: Seq<PlayerModel>,
    /// The four build piles, each in the order its cards were played.
    pub piles: Seq<Seq<Card>>,
    /// The draw pile; cards are drawn from its end.
    pub draw: Seq<Card>,
    /// The recycle pile; completed build piles are appended to it.
    pub recycle: Seq<Card>,
    /// How many turns in a row have just ended without the player having had any
    /// choice but to end it.
    pub idle_turns: int,
}

impl GameModel {
    /// The active player's holdings.
    pub open spec fn active(self) -> PlayerModel {
        self.players[self.current]
    }

    /// The state with the active player's holdings replaced.
    pub open spec fn with_active(self, player: PlayerModel) -> GameModel {
        GameModel { players: self.players.update(self.current, player), ..self }
    }

    /// Number of cards that can still be drawn.
    pub open spec fn supply(self) -> nat {
        self.draw.len() + self.recycle.len()
    }

    /// The seat after the active one.
    pub open spec fn next_seat(self) -> int {
        (self.current + 1) % (self.players.len() as int)
    }

    /// How many seats lie from `p` forward to the active seat, counting the active
    /// seat itself as a full round.
    pub open spec fn seats_until_current(self, p: int) -> int {
        if p < self.current {
            self.current - p
        } else {
            self.current - p + self.players.len()
        }
    }

    /// Whether player `p` could play the card at `source` onto build pile `pile`.
    pub open spec fn playable_by(self, p: int, source: CardSource, pile: int) -> bool {
        &&& 0 <= pile < BUILD_PILE_COUNT
        &&& self.players[p].source_card(source) matches Some(card)
        &&& card.matches(next_value(self.piles[pile]))
    }

    /// Player `p` holds no hand card and can play neither the stock top nor any
    /// discard top: on their turn they can only end it.
    pub open spec fn stuck(self, p: int) -> bool {
        &&& self.players[p].hand.len() == 0
        &&& forall|source: CardSource, pile: int| !#[trigger] self.playable_by(p, source, pile)
    }

    /// Nobody can ever act again but by ending the turn: nothing is left to draw and every
    /// player is stuck.
    pub open spec fn deadlocked(self) -> bool {
        &&& self.supply() == 0
        &&& forall|p: int| 0 <= p < self.players.len() ==> #[trigger] self.stuck(p)
    }

    /// All cards of the game, over every zone.
    pub open spec fn cards(self) -> Multiset<Card> {
        self.draw.to_multiset().add(self.recycle.to_multiset()).add(piles_cards(self.piles)).add(
            players_cards(self.players),
        )
    }

    /// Number of cards of the game, over every zone.
    pub open spec fn card_count(self) -> nat {
        self.cards().len()
    }

    /// The sizes of all zones added up: the draw pile, the recycle pile, the four build
    /// piles, and every player's stock, hand and discard piles.
    pub open spec fn zone_total(self) -> nat {
        self.draw.len() + self.recycle.len() + self.piles[0].len() + self.piles[1].len()
            + self.piles[2].len() + self.piles[3].len() + players_count(self.players)
    }

    /// What player `perspective` may know of the game is the same in `self` and in
    /// `other`: the two differ at most in the order of the draw and recycle piles, in
    /// the other players' hands, and in what lies below the top of a stock or a
    /// discard pile.
    pub open spec fn looks_like(self, other: GameModel, perspective: int) -> bool {
        &&& self.settings == other.settings
        &&& self.status == other.status
        &&& self.phase == other.phase
        &&& self.current == other.current
        &&& self.draw.len() == other.draw.len()
        &&& self.recycle.len() == other.recycle.len()
        &&& self.piles == other.piles
        &&& self.players.len() == other.players.len()
        &&& self.players[perspective].hand == other.players[perspective].hand
        &&& forall|p: int|
            0 <= p < self.players.len() ==> {
                let mine = #[trigger] self.players[p];
                let theirs = other.players[p];
                &&& mine.stock.len() == theirs.stock.len()
                &&& mine.source_card(CardSource::Stock) == theirs.source_card(CardSource::Stock)
                &&& mine.hand.len() == theirs.hand.len()
                &&& mine.has_won == theirs.has_won
                &&& forall|d: int|
                    0 <= d < DISCARD_PILE_COUNT ==> (#[trigger] mine.discards[d]).len()
                        == theirs.discards[d].len() && mine.source_card(
                        CardSource::Discard(d as usize),
                    ) == theirs.source_card(CardSource::Discard(d as usize))
            }
    }

    /// The invariant of a game.
    pub open spec fn valid(self) -> bool {
        &&& self.settings.valid()
        &&& self.players.len() == self.settings.num_players
        &&& 0 <= self.current < self.players.len()
        &&& self.piles.len() == BUILD_PILE_COUNT
        &&& forall|b: int|
            0 <= b < BUILD_PILE_COUNT ==> (#[trigger] self.piles[b]).len() < MAX_CARD_VALUE
        &&& forall|p: int|
            0 <= p < self.players.len() ==> (#[trigger] self.players[p]).valid(
                self.settings.hand_size as int,
            )
        &&& 0 <= self.idle_turns <= self.players.len()
        &&& forall|p: int|
            0 <= p < self.players.len() && self.seats_until_current(p) <= self.idle_turns
                ==> #[trigger] self.stuck(p)
        &&& self.idle_turns >= 1 ==> self.active().hand.len() >= self.settings.hand_size
            || self.supply() == 0
        &&& match self.status {
            GameStatus::Ongoing => {
                &&& self.phase == TurnPhase::AwaitingAction
                &&& self.idle_turns < self.players.len()
                &&& forall|p: int|
                    0 <= p < self.players.len() ==> (#[trigger] self.players[p]).stock.len() > 0
            },
            GameStatus::Finished { winner } => {
                &&& self.phase == TurnPhase::GameOver
                &&& winner == self.current
                &&& self.active().stock.len() == 0
                &&& forall|p: int|
                    0 <= p < self.players.len() && p != winner ==> (
                    #[trigger] self.players[p]).stock.len() > 0
            },
            GameStatus::Draw => {
                &&& self.phase == TurnPhase::GameOver
                &&& self.idle_turns == self.players.len()
                &&& forall|p: int|
                    0 <= p < self.players.len() ==> (#[trigger] self.players[p]).stock.len() > 0
            },
        }
    }

    /// `seen` is what everybody may know of player `p`.
    pub open spec fn player_seen_as(self, p: int, seen: PlayerPublicState) -> bool {
        let player = self.players[p];
        &&& seen.id == p
        &&& seen.stock_count == player.stock.len()
        &&& seen.stock_top == player.source_card(CardSource::Stock)
        &&& forall|d: int|
            0 <= d < DISCARD_PILE_COUNT ==> #[trigger] seen.discard_tops[d] == player.source_card(
                CardSource::Discard(d as usize),
            )
        &&& forall|d: int|
            0 <= d < DISCARD_PILE_COUNT ==> #[trigger] seen.discard_counts[d]
                == player.discards[d].len()
        &&& seen.hand_size == player.hand.len()
        &&& seen.is_current == (p == self.current)
        &&& seen.has_won == player.has_won
    }

    /// `seen` is the snapshot of the game for player `perspective`: the settings, the
    /// status and the turn, the sizes of the draw and recycle piles, the build piles in
    /// full, what everybody may know of each player, and the hand of `perspective` alone.
    pub open spec fn seen_as(self, perspective: int, seen: GameStateView) -> bool {
        &&& seen.settings == self.settings
        &&& seen.phase == self.phase
        &&& seen.status == self.status
        &&& seen.self_player == perspective
        &&& seen.current_player == self.current
        &&& seen.draw_pile_count == self.draw.len()
        &&& seen.recycle_pile_count == self.recycle.len()
        &&& forall|b: int|
            0 <= b < BUILD_PILE_COUNT ==> (#[trigger] seen.build_piles[b]).cards@ == self.piles[b]
                && seen.build_piles[b].next_value == next_value(self.piles[b])
        &&& seen.players@.len() == self.players.len()
        &&& forall|p: int|
            0 <= p < self.players.len() ==> self.player_seen_as(p, #[trigger] seen.players@[p])
        &&& seen.hand@ == self.players[perspective].hand
    }

    /// What is wrong with `action` for the active player, if anything.
    pub open spec fn action_fault(self, action: Action) -> Option<InvalidAction> {
        match action {
            Action::Play { source, build_pile } => {
                if build_pile >= BUILD_PILE_COUNT {
                    Some(InvalidAction::BuildPileIndex(build_pile))
                } else {
                    match self.active().source_card(source) {
                        None => Some(self.active().source_error(source)),
                        Some(card) => {
                            let required = next_value(self.piles[build_pile as int]);
                            if card.matches(required) {
                                None
                            } else {
                                Some(InvalidAction::CardMismatch { required: required as u8 })
                            }
                        },
                    }
                }
            },
            Action::Discard { hand_index, discard_pile } => {
                if discard_pile >= DISCARD_PILE_COUNT {
                    Some(InvalidAction::DiscardIndex(discard_pile))
                } else if hand_index >= self.active().hand.len() {
                    Some(InvalidAction::HandIndex(hand_index))
                } else {
                    None
                }
            },
            Action::EndTurn => {
                if self.active().hand.len() > 0 {
                    Some(InvalidAction::MustDiscard)
                } else {
                    None
                }
            },
        }
    }

    /// Whether the active player may take `action`.
    pub open spec fn legal(self, action: Action) -> bool {
        self.action_fault(action) is None
    }

    /// `actions` lists the legal actions: every legal action and no other, each once,
    /// in the order of their ranks.
    pub open spec fn lists_legal(self, actions: Seq<Action>) -> bool {
        &&& forall|a: Action| #[trigger] actions.contains(a) <==> self.legal(a)
        &&& forall|i: int, j: int|
            0 <= i < j < actions.len() ==> rank_before(
                action_rank(#[trigger] actions[i]),
                action_rank(#[trigger] actions[j]),
            )
    }

    /// The error with which `action` by `player` is turned down, if it is.
    pub open spec fn rejection(self, player: PlayerId, action: Action) -> Option<GameError> {
        if self.status != GameStatus::Ongoing {
            Some(GameError::GameOver)
        } else if player >= self.players.len() {
            Some(GameError::InvalidPlayer(player))
        } else if player != self.current {
            Some(GameError::NotPlayersTurn)
        } else {
            match self.action_fault(action) {
                Some(fault) => Some(GameError::InvalidAction(fault)),
                None => None,
            }
        }
    }

    /// The state after the active player's hand has been refilled up to the hand size,
    /// as far as the supply reaches. Cards come off the end of the draw pile. When the
    /// draw pile runs out and more are needed, the recycle pile becomes the draw pile in
    /// the order `s`.
    pub open spec fn refill(self, s: Seq<Card>) -> GameModel {
        let player = self.active();
        let need = self.settings.hand_size - player.hand.len();
        if need <= 0 {
            self
        } else if need <= self.draw.len() {
            let keep = self.draw.len() - need;
            GameModel {
                draw: self.draw.take(keep),
                players: self.players.update(
                    self.current,
                    PlayerModel { hand: player.hand + self.draw.skip(keep).reverse(), ..player },
                ),
                ..self
            }
        } else {
            let missing = need - self.draw.len();
            let taken = if missing <= s.len() {
                missing
            } else {
                s.len() as int
            };
            let keep = s.len() - taken;
            GameModel {
                draw: s.take(keep),
                recycle: Seq::empty(),
                players: self.players.update(
                    self.current,
                    PlayerModel {
                        hand: player.hand + self.draw.reverse() + s.skip(keep).reverse(),
                        ..player
                    },
                ),
                ..self
            }
        }
    }

    /// The state after the active player has moved the card at `source` onto build pile
    /// `pile`. A pile that reaches twelve cards goes to the end of the recycle pile, in
    /// the order it was built, and starts over empty.
    pub open spec fn after_play(self, source: CardSource, pile: int) -> GameModel {
        let card = self.active().source_card(source)->Some_0;
        let built = self.piles[pile].push(card);
        let moved = self.with_active(self.active().without(source));
        if built.len() == MAX_CARD_VALUE {
            GameModel {
                piles: self.piles.update(pile, Seq::empty()),
                recycle: self.recycle + built,
                idle_turns: 0,
                ..moved
            }
        } else {
            GameModel { piles: self.piles.update(pile, built), idle_turns: 0, ..moved }
        }
    }

    /// The state with the active player declared the winner.
    pub open spec fn won(self) -> GameModel {
        GameModel {
            status: GameStatus::Finished { winner: self.current as usize },
            phase: TurnPhase::GameOver,
            players: self.players.update(
                self.current,
                PlayerModel { has_won: true, ..self.active() },
            ),
            ..self
        }
    }

    /// The state after the active player has discarded hand card `h` onto discard pile `d`.
    pub open spec fn after_discard(self, h: int, d: int) -> GameModel {
        GameModel { idle_turns: 0, ..self.with_active(self.active().discarding(h, d)) }
    }

    /// The state with the turn handed to the next seat.
    pub open spec fn rotated(self) -> GameModel {
        GameModel { current: self.next_seat(), phase: TurnPhase::AwaitingAction, ..self }
    }

    /// The state with the idle turns counted up if the active player is stuck, and
    /// reset if not.
    pub open spec fn counted(self) -> GameModel {
        GameModel {
            idle_turns: if self.stuck(self.current) {
                self.idle_turns + 1
            } else {
                0
            },
            ..self
        }
    }

    /// The state with the game declared a draw once every player in a row has been stuck.
    pub open spec fn settled(self) -> GameModel {
        if self.idle_turns >= self.players.len() {
            GameModel { status: GameStatus::Draw, phase: TurnPhase::GameOver, ..self }
        } else {
            self
        }
    }

    /// The recycle pile as it stands at the moment `action` may have to reshuffle it.
    pub open spec fn shuffle_base(self, action: Action) -> Seq<Card> {
        match action {
            Action::Play { source, build_pile } => self.after_play(
                source,
                build_pile as int,
            ).recycle,
            _ => self.recycle,
        }
    }

    /// The state after the active player has taken the legal action `action`, where
    /// `s` is the order in which the recycle pile comes back if it is reshuffled.
    ///
    /// A play that empties the stock wins on the spot. A play that empties the hand
    /// refills it. A discard ends the turn. Ending a turn while stuck counts towards a
    /// draw, which is declared when every player in a row has been stuck.
    pub open spec fn step(self, action: Action, s: Seq<Card>) -> GameModel {
        match action {
            Action::Play { source, build_pile } => {
                let mid = self.after_play(source, build_pile as int);
                if mid.active().stock.len() == 0 {
                    mid.won()
                } else if source is Hand && mid.active().hand.len() == 0 {
                    mid.refill(s)
                } else {
                    mid
                }
            },
            Action::Discard { hand_index, discard_pile } => self.after_discard(
                hand_index as int,
                discard_pile as int,
            ).rotated().refill(s),
            Action::EndTurn => self.counted().rotated().refill(s).settled(),
        }
    }

    /// `post` is a state that `action` can lead to: the outcome of [`Self::step`] for
    /// some order of the reshuffled recycle pile.
    pub open spec fn leads_to(self, action: Action, post: GameModel) -> bool {
        exists|s: Seq<Card>| #[trigger]
            is_shuffle(s, self.shuffle_base(action)) && post == self.step(action, s)
    }
}

} // verus!
