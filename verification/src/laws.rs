//! What holds of every game: the rules keep the invariant, no card is ever made or
//! lost, and the facts about wins, refills, build piles and stalemates that follow.

use vstd::prelude::*;
use vstd::multiset::Multiset;
use crate::action::{Action, CardSource};
use crate::card::{
    full_deck_cards, Card, BUILD_PILE_COUNT, DECK_SIZE, DISCARD_PILE_COUNT, MAX_CARD_VALUE,
};
use crate::error::GameError;
use crate::model::{
    action_rank, players_count, rank_before, dealt, dealt_player, is_shuffle, next_value, opening, piles_cards, players_cards, GameModel,
    PlayerModel,
};
use crate::state::{
    is_deck_card, is_deck_card_or_none, GameSettings, GameStateView, GameStatus, TurnPhase,
    COUNT_LIMIT,
};

verus! {

/// Replacing one of four piles replaces its cards among the cards of all four.
pub proof fn lemma_piles_cards_update(piles: Seq<Seq<Card>>, i: int, pile: Seq<Card>)
    requires
        piles.len() == 4,
        0 <= i < 4,
    ensures
        piles_cards(piles.update(i, pile)).add(piles[i].to_multiset()) == piles_cards(piles).add(
            pile.to_multiset(),
        ),
{
    assert(piles_cards(piles.update(i, pile)).add(piles[i].to_multiset()) =~= piles_cards(piles).add(
        pile.to_multiset(),
    ));
}

/// Replacing one player replaces that player's cards among the cards of all players.
pub proof fn lemma_players_cards_update(players: Seq<PlayerModel>, i: int, player: PlayerModel)
    requires
        0 <= i < players.len(),
    ensures
        players_cards(players.update(i, player)).add(players[i].cards()) == players_cards(
            players,
        ).add(player.cards()),
    decreases players.len(),
{
    let updated = players.update(i, player);
    if i == players.len() - 1 {
        assert(updated.drop_last() =~= players.drop_last());
        assert(updated.last() == player);
        assert(players_cards(updated).add(players[i].cards()) =~= players_cards(players).add(
            player.cards(),
        ));
    } else {
        let rest = players.drop_last();
        lemma_players_cards_update(rest, i, player);
        assert(updated.drop_last() =~= rest.update(i, player));
        assert(updated.last() == players.last());
        assert(rest[i] == players[i]);
        let lhs = players_cards(rest.update(i, player)).add(players[i].cards());
        let rhs = players_cards(rest).add(player.cards());
        assert(lhs == rhs);
        assert(players_cards(updated) == players_cards(rest.update(i, player)).add(
            players.last().cards(),
        ));
        assert(players_cards(players) == players_cards(rest).add(players.last().cards()));
        assert(players_cards(updated).add(players[i].cards()) =~= lhs.add(players.last().cards()));
        assert(players_cards(players).add(player.cards()) =~= rhs.add(players.last().cards()));
    }
}

/// An empty sequence holds no card.
proof fn lemma_no_cards()
    ensures
        Seq::<Card>::empty().to_multiset() == Multiset::<Card>::empty(),
{
    Seq::<Card>::empty().to_multiset_ensures();
    vstd::multiset::lemma_multiset_empty_len(Seq::<Card>::empty().to_multiset());
    assert(Seq::<Card>::empty().to_multiset() =~= Multiset::<Card>::empty());
}

/// Splitting a sequence in two keeps its cards.
proof fn lemma_split_cards(cards: Seq<Card>, keep: int)
    requires
        0 <= keep <= cards.len(),
    ensures
        cards.to_multiset() == cards.take(keep).to_multiset().add(
            cards.skip(keep).reverse().to_multiset(),
        ),
{
    assert(cards =~= cards.take(keep) + cards.skip(keep));
    vstd::seq_lib::lemma_multiset_commutative(cards.take(keep), cards.skip(keep));
    cards.skip(keep).lemma_reverse_to_multiset();
}

/// The smaller of two numbers.
pub open spec fn smaller(a: int, b: int) -> int {
    if a <= b {
        a
    } else {
        b
    }
}

/// What a refill does: the active player's hand grows to the hand size or by the whole
/// supply, whichever is less; the cards that arrive come out of the supply; nothing else
/// changes and no card is made or lost. A hand that is full, or a supply that is empty,
/// leaves the state as it is.
pub proof fn lemma_refill(m: GameModel, s: Seq<Card>)
    requires
        0 <= m.current < m.players.len(),
        is_shuffle(s, m.recycle),
    ensures
        ({
            let r = m.refill(s);
            &&& r.settings == m.settings
            &&& r.status == m.status
            &&& r.phase == m.phase
            &&& r.current == m.current
            &&& r.piles == m.piles
            &&& r.idle_turns == m.idle_turns
            &&& r.players.len() == m.players.len()
            &&& forall|p: int|
                0 <= p < m.players.len() && p != m.current ==> #[trigger] r.players[p]
                    == m.players[p]
            &&& r.active().stock == m.active().stock
            &&& r.active().discards == m.active().discards
            &&& r.active().has_won == m.active().has_won
            &&& m.active().hand.len() <= m.settings.hand_size ==> r.active().hand.len() == smaller(
                m.settings.hand_size as int,
                (m.active().hand.len() + m.supply()) as int,
            )
            &&& r.active().hand.len() + r.supply() == m.active().hand.len() + m.supply()
            &&& r.active().hand.len() >= m.settings.hand_size || r.supply() == 0
            &&& r.cards() == m.cards()
            &&& (m.active().hand.len() >= m.settings.hand_size || m.supply() == 0) ==> r == m
        }),
{
    let r = m.refill(s);
    let player = m.active();
    let need = m.settings.hand_size - player.hand.len();
    s.to_multiset_ensures();
    m.recycle.to_multiset_ensures();
    assert(s.len() == m.recycle.len());
    if need <= 0 {
    } else if need <= m.draw.len() {
        let keep = m.draw.len() - need;
        let hand = player.hand + m.draw.skip(keep).reverse();
        let grown = PlayerModel { hand, ..player };
        assert(r.active() == grown);
        lemma_split_cards(m.draw, keep);
        vstd::seq_lib::lemma_multiset_commutative(player.hand, m.draw.skip(keep).reverse());
        lemma_players_cards_update(m.players, m.current, grown);
        assert(grown.cards() =~= player.cards().add(m.draw.skip(keep).reverse().to_multiset()));
        let before = players_cards(m.players).add(grown.cards());
        let after = players_cards(r.players).add(player.cards());
        assert(before == after);
        assert forall|c: Card| r.cards().count(c) == m.cards().count(c) by {
            assert(before.count(c) == after.count(c));
        }
        assert(r.cards() =~= m.cards());
    } else {
        let missing = need - m.draw.len();
        let taken = smaller(missing, s.len() as int);
        let keep = s.len() - taken;
        let hand = player.hand + m.draw.reverse() + s.skip(keep).reverse();
        let grown = PlayerModel { hand, ..player };
        assert(r.active() == grown);
        lemma_split_cards(s, keep);
        m.draw.lemma_reverse_to_multiset();
        vstd::seq_lib::lemma_multiset_commutative(player.hand, m.draw.reverse());
        vstd::seq_lib::lemma_multiset_commutative(
            player.hand + m.draw.reverse(),
            s.skip(keep).reverse(),
        );
        lemma_players_cards_update(m.players, m.current, grown);
        assert(grown.cards() =~= player.cards().add(m.draw.to_multiset()).add(
            s.skip(keep).reverse().to_multiset(),
        ));
        lemma_no_cards();
        let before = players_cards(m.players).add(grown.cards());
        let after = players_cards(r.players).add(player.cards());
        assert(before == after);
        assert forall|c: Card| r.cards().count(c) == m.cards().count(c) by {
            assert(before.count(c) == after.count(c));
        }
        assert(r.cards() =~= m.cards());
        if m.supply() == 0 {
            assert(s.take(0) =~= m.draw);
            assert(m.recycle =~= Seq::<Card>::empty());
            assert(hand =~= player.hand);
            assert(r.players =~= m.players);
        }
    }
}

/// The first `seats` players dealt from a deck.
pub open spec fn dealt_players(deck: Seq<Card>, stock_size: int, seats: int) -> Seq<PlayerModel> {
    Seq::new(seats as nat, |seat: int| dealt_player(deck, stock_size, seat))
}

/// The share of the deck that goes to the first `seats` stocks lies within the share of
/// `all` of them, and grows by one stock with each seat.
pub proof fn lemma_shares_fit(stock_size: int, seats: int, all: int)
    requires
        0 <= stock_size,
        0 <= seats <= all,
    ensures
        0 <= seats * stock_size <= all * stock_size,
        (seats + 1) * stock_size == seats * stock_size + stock_size,
{
    assert(0 <= seats * stock_size <= all * stock_size) by (nonlinear_arith)
        requires
            0 <= stock_size,
            0 <= seats <= all,
    ;
    assert((seats + 1) * stock_size == seats * stock_size + stock_size) by (nonlinear_arith);
}

/// The players dealt from a deck hold the cards that came off its end.
proof fn lemma_dealt_cards(deck: Seq<Card>, stock_size: int, seats: int)
    requires
        0 <= stock_size,
        0 <= seats,
        seats * stock_size <= deck.len(),
    ensures
        players_cards(dealt_players(deck, stock_size, seats)) == deck.skip(
            deck.len() - seats * stock_size,
        ).to_multiset(),
    decreases seats,
{
    let players = dealt_players(deck, stock_size, seats);
    lemma_no_cards();
    if seats == 0 {
        lemma_shares_fit(stock_size, 0, 0);
        assert(deck.skip(deck.len() as int) =~= Seq::<Card>::empty());
        assert(players.len() == 0);
    } else {
        lemma_shares_fit(stock_size, seats - 1, seats);
        let low = deck.len() - seats * stock_size;
        let high = deck.len() - (seats - 1) * stock_size;
        lemma_dealt_cards(deck, stock_size, seats - 1);
        assert(players.drop_last() =~= dealt_players(deck, stock_size, seats - 1));
        let last = players.last();
        assert(last == dealt_player(deck, stock_size, seats - 1));
        let share = deck.subrange(low, high);
        assert(last.stock == share.reverse());
        share.lemma_reverse_to_multiset();
        assert(piles_cards(last.discards) =~= Multiset::<Card>::empty());
        assert(last.cards() =~= share.to_multiset());
        assert(deck.skip(low) =~= share + deck.skip(high));
        vstd::seq_lib::lemma_multiset_commutative(share, deck.skip(high));
        assert(players_cards(players) =~= deck.skip(low).to_multiset());
    }
}

/// **A game starts valid and with the whole deck.** Dealing the stocks and filling the
/// first hand from a deck that can supply the stocks gives a valid, ongoing game whose
/// cards are the cards of the deck; every stock holds the stock size, seat 0 holds a
/// hand of the hand size or of what the deck had left, and what then remains is the
/// draw pile.
pub proof fn lemma_opening(settings: GameSettings, deck: Seq<Card>)
    requires
        settings.valid(),
        settings.num_players * settings.stock_size <= deck.len(),
    ensures
        opening(settings, deck).valid(),
        opening(settings, deck).status == GameStatus::Ongoing,
        opening(settings, deck).current == 0,
        opening(settings, deck).cards() == deck.to_multiset(),
        opening(settings, deck).card_count() == deck.len(),
        forall|p: int|
            0 <= p < settings.num_players ==> (#[trigger] opening(
                settings,
                deck,
            ).players[p]).stock.len() == settings.stock_size,
        forall|p: int|
            1 <= p < settings.num_players ==> (#[trigger] opening(
                settings,
                deck,
            ).players[p]).hand.len() == 0,
        opening(settings, deck).players[0].hand.len() == smaller(
            settings.hand_size as int,
            deck.len() - settings.num_players * settings.stock_size,
        ),
        opening(settings, deck).draw.len() + opening(settings, deck).players[0].hand.len()
            == deck.len() - settings.num_players * settings.stock_size,
        opening(settings, deck).recycle.len() == 0,
{
    let start = dealt(settings, deck);
    let open = opening(settings, deck);
    let n = settings.num_players as int;
    let size = settings.stock_size as int;
    lemma_shares_fit(size, n, n);
    lemma_no_cards();
    assert forall|p: int| 0 <= p < n implies (#[trigger] start.players[p]).stock.len() == size
        && start.players[p].valid(settings.hand_size as int) by {
        lemma_shares_fit(size, p, n);
        lemma_shares_fit(size, p + 1, n);
    }
    lemma_refill(start, Seq::empty());
    assert forall|p: int| 0 <= p < n implies (#[trigger] open.players[p]).stock.len() == size
        && open.players[p].valid(settings.hand_size as int) by {
        if p != 0 {
            assert(open.players[p] == start.players[p]);
        } else {
            assert(start.players[0].stock.len() == size);
        }
    }
    lemma_dealt_cards(deck, size, n);
    assert(start.players =~= dealt_players(deck, size, n));
    let cut = deck.len() - n * size;
    assert(deck =~= deck.take(cut) + deck.skip(cut));
    vstd::seq_lib::lemma_multiset_commutative(deck.take(cut), deck.skip(cut));
    assert(piles_cards(start.piles) =~= Multiset::<Card>::empty());
    assert(start.cards() =~= deck.to_multiset());
    deck.to_multiset_ensures();
}

/// The seat after the last one is the first one; otherwise it is the next index.
pub proof fn lemma_next_seat(m: GameModel)
    requires
        0 <= m.current < m.players.len(),
    ensures
        m.next_seat() == if m.current + 1 == m.players.len() {
            0
        } else {
            m.current + 1
        },
        0 <= m.next_seat() < m.players.len(),
{
    let n = m.players.len() as int;
    if m.current + 1 == n {
        vstd::arithmetic::div_mod::lemma_mod_self_0(n);
    } else {
        vstd::arithmetic::div_mod::lemma_small_mod((m.current + 1) as nat, n as nat);
    }
}

/// Whether a player is stuck depends on that player's holdings and the build piles only.
pub proof fn lemma_stuck_frame(a: GameModel, b: GameModel, p: int)
    requires
        a.players[p] == b.players[p],
        a.piles == b.piles,
    ensures
        a.stuck(p) == b.stuck(p),
{
    assert forall|source: CardSource, pile: int|
        a.playable_by(p, source, pile) == b.playable_by(p, source, pile) by {}
    if a.stuck(p) {
        assert forall|source: CardSource, pile: int| !#[trigger] b.playable_by(
            p,
            source,
            pile,
        ) by {
            assert(!a.playable_by(p, source, pile));
        }
    }
    if b.stuck(p) {
        assert forall|source: CardSource, pile: int| !#[trigger] a.playable_by(
            p,
            source,
            pile,
        ) by {
            assert(!b.playable_by(p, source, pile));
        }
    }
}

/// A legal play leaves a valid state.
pub proof fn lemma_play_valid(m: GameModel, source: CardSource, pile: usize, s: Seq<Card>)
    requires
        m.valid(),
        m.status == GameStatus::Ongoing,
        m.legal(Action::Play { source, build_pile: pile }),
        is_shuffle(s, m.after_play(source, pile as int).recycle),
    ensures
        m.step(Action::Play { source, build_pile: pile }, s).valid(),
{
    let mid = m.after_play(source, pile as int);
    let post = m.step(Action::Play { source, build_pile: pile }, s);
    assert(mid.players.len() == m.players.len());
    assert(mid.active() == m.active().without(source));
    assert forall|p: int| 0 <= p < m.players.len() && p != m.current implies mid.players[p]
        == m.players[p] by {}
    assert(m.players[m.current].valid(m.settings.hand_size as int));
    assert(m.piles[pile as int].len() < MAX_CARD_VALUE);
    assert forall|b: int| 0 <= b < BUILD_PILE_COUNT implies (#[trigger] mid.piles[b]).len()
        < MAX_CARD_VALUE by {
        if b != pile {
            assert(mid.piles[b] == m.piles[b]);
        }
    }
    if mid.active().stock.len() == 0 {
        assert(post == mid.won());
        assert forall|p: int| 0 <= p < post.players.len() implies (#[trigger] post.players[p]).valid(
            post.settings.hand_size as int,
        ) by {
            if p != m.current {
                assert(post.players[p] == m.players[p]);
            }
        }
        assert forall|p: int| 0 <= p < post.players.len() && p != m.current implies (
        #[trigger] post.players[p]).stock.len() > 0 by {
            assert(post.players[p] == m.players[p]);
        }
    } else if source is Hand && mid.active().hand.len() == 0 {
        lemma_refill(mid, s);
        assert forall|p: int| 0 <= p < post.players.len() implies (#[trigger] post.players[p]).valid(
            post.settings.hand_size as int,
        ) && post.players[p].stock.len() > 0 by {
            if p != m.current {
                assert(post.players[p] == m.players[p]);
            }
        }
    } else {
        assert forall|p: int| 0 <= p < post.players.len() implies (#[trigger] post.players[p]).valid(
            post.settings.hand_size as int,
        ) && post.players[p].stock.len() > 0 by {
            if p != m.current {
                assert(post.players[p] == m.players[p]);
            }
        }
    }
}

/// A legal discard leaves a valid state.
pub proof fn lemma_discard_valid(m: GameModel, hand_index: usize, discard_pile: usize, s: Seq<Card>)
    requires
        m.valid(),
        m.status == GameStatus::Ongoing,
        m.legal(Action::Discard { hand_index, discard_pile }),
        is_shuffle(s, m.recycle),
    ensures
        m.step(Action::Discard { hand_index, discard_pile }, s).valid(),
{
    let parked = m.after_discard(hand_index as int, discard_pile as int);
    let turned = parked.rotated();
    let post = m.step(Action::Discard { hand_index, discard_pile }, s);
    lemma_next_seat(parked);
    assert(m.players[m.current].valid(m.settings.hand_size as int));
    assert forall|p: int| 0 <= p < m.players.len() implies (#[trigger] turned.players[p]).valid(
        m.settings.hand_size as int,
    ) && turned.players[p].stock.len() > 0 by {
        if p != m.current {
            assert(turned.players[p] == m.players[p]);
        }
    }
    lemma_refill(turned, s);
    assert forall|p: int| 0 <= p < post.players.len() implies (#[trigger] post.players[p]).valid(
        post.settings.hand_size as int,
    ) && post.players[p].stock.len() > 0 by {
        if p != turned.current {
            assert(post.players[p] == turned.players[p]);
        }
    }
}

/// Ending the turn with an empty hand leaves a valid state.
pub proof fn lemma_end_turn_valid(m: GameModel, s: Seq<Card>)
    requires
        m.valid(),
        m.status == GameStatus::Ongoing,
        m.legal(Action::EndTurn),
        is_shuffle(s, m.recycle),
    ensures
        m.step(Action::EndTurn, s).valid(),
{
    let counted = m.counted();
    let turned = counted.rotated();
    let filled = turned.refill(s);
    let post = m.step(Action::EndTurn, s);
    let n = m.players.len() as int;
    lemma_next_seat(counted);
    lemma_refill(turned, s);
    assert forall|p: int| 0 <= p < n implies (#[trigger] post.players[p]).valid(
        post.settings.hand_size as int,
    ) && post.players[p].stock.len() > 0 by {
        if p != turned.current {
            assert(post.players[p] == m.players[p]);
        } else {
            assert(m.players[p].valid(m.settings.hand_size as int));
        }
    }
    assert forall|p: int|
        0 <= p < n && post.seats_until_current(p) <= post.idle_turns implies #[trigger] post.stuck(
        p,
    ) by {
        assert(m.stuck(m.current));
        assert(post.idle_turns == m.idle_turns + 1);
        if p == m.current {
            assert(post.players[p] == m.players[p]);
            lemma_stuck_frame(m, post, p);
        } else {
            assert(m.seats_until_current(p) <= m.idle_turns);
            assert(m.stuck(p));
            if p == turned.current {
                assert(m.idle_turns >= 1);
                assert(m.active().hand.len() == 0);
                assert(m.supply() == 0);
                assert(filled == turned);
            }
            assert(post.players[p] == m.players[p]);
            lemma_stuck_frame(m, post, p);
        }
    }
}

/// A card that leaves its source is the one card the player no longer holds.
pub proof fn lemma_without_cards(player: PlayerModel, source: CardSource)
    requires
        player.discards.len() == DISCARD_PILE_COUNT,
        player.source_card(source) is Some,
    ensures
        player.cards() == player.without(source).cards().insert(player.source_card(source)->Some_0),
{
    let card = player.source_card(source)->Some_0;
    let rest = player.without(source);
    match source {
        CardSource::Hand(i) => {
            vstd::seq_lib::to_multiset_remove(player.hand, i as int);
            player.hand.to_multiset_ensures();
            assert(player.hand.to_multiset().count(card) > 0);
            assert(player.hand.to_multiset() =~= rest.hand.to_multiset().insert(card));
        },
        CardSource::Stock => {
            assert(player.stock =~= rest.stock.push(card));
            vstd::seq_lib::to_multiset_build(rest.stock, card);
        },
        CardSource::Discard(d) => {
            let pile = player.discards[d as int];
            assert(pile =~= pile.drop_last().push(card));
            vstd::seq_lib::to_multiset_build(pile.drop_last(), card);
            lemma_piles_cards_update(player.discards, d as int, pile.drop_last());
            let before = piles_cards(rest.discards).add(pile.to_multiset());
            let after = piles_cards(player.discards).add(pile.drop_last().to_multiset());
            assert(before == after);
            assert forall|c: Card| player.cards().count(c) == rest.cards().insert(card).count(
                c,
            ) by {
                assert(before.count(c) == after.count(c));
            }
        },
    }
    assert(player.cards() =~= rest.cards().insert(card));
}

/// A player who discards holds the same cards as before.
pub proof fn lemma_discarding_cards(player: PlayerModel, h: int, d: int)
    requires
        player.discards.len() == DISCARD_PILE_COUNT,
        0 <= h < player.hand.len(),
        0 <= d < DISCARD_PILE_COUNT,
    ensures
        player.discarding(h, d).cards() == player.cards(),
{
    let card = player.hand[h];
    let after = player.discarding(h, d);
    let pile = player.discards[d];
    vstd::seq_lib::to_multiset_remove(player.hand, h);
    player.hand.to_multiset_ensures();
    assert(player.hand.to_multiset().count(card) > 0);
    assert(player.hand.to_multiset() =~= after.hand.to_multiset().insert(card));
    vstd::seq_lib::to_multiset_build(pile, card);
    lemma_piles_cards_update(player.discards, d, pile.push(card));
    let lhs = piles_cards(after.discards).add(pile.to_multiset());
    let rhs = piles_cards(player.discards).add(pile.push(card).to_multiset());
    assert(lhs == rhs);
    assert forall|c: Card| after.cards().count(c) == player.cards().count(c) by {
        assert(lhs.count(c) == rhs.count(c));
    }
    assert(after.cards() =~= player.cards());
}

/// **Card conservation.** A legal action moves cards between zones and neither makes nor
/// loses one: the cards of the game, counted with multiplicity over the draw pile,
/// the recycle pile, the build piles and every stock, hand and discard pile, are the
/// same before and after.
pub proof fn lemma_step_conserves_cards(m: GameModel, action: Action, s: Seq<Card>)
    requires
        m.valid(),
        m.status == GameStatus::Ongoing,
        m.legal(action),
        is_shuffle(s, m.shuffle_base(action)),
    ensures
        m.step(action, s).cards() == m.cards(),
        m.step(action, s).card_count() == m.card_count(),
{
    let post = m.step(action, s);
    let player = m.active();
    assert(player.valid(m.settings.hand_size as int));
    match action {
        Action::Play { source, build_pile } => {
            let pile = build_pile as int;
            let card = player.source_card(source)->Some_0;
            let mid = m.after_play(source, pile);
            let built = m.piles[pile].push(card);
            let rest = player.without(source);
            lemma_without_cards(player, source);
            lemma_players_cards_update(m.players, m.current, rest);
            vstd::seq_lib::to_multiset_build(m.piles[pile], card);
            let moved = players_cards(mid.players).add(player.cards());
            let kept = players_cards(m.players).add(rest.cards());
            assert(moved == kept);
            if built.len() == MAX_CARD_VALUE {
                lemma_no_cards();
                lemma_piles_cards_update(m.piles, pile, Seq::empty());
                vstd::seq_lib::lemma_multiset_commutative(m.recycle, built);
                let piled = piles_cards(mid.piles).add(m.piles[pile].to_multiset());
                let built_up = piles_cards(m.piles).add(Seq::<Card>::empty().to_multiset());
                assert(piled == built_up);
                assert forall|c: Card| mid.cards().count(c) == m.cards().count(c) by {
                    assert(moved.count(c) == kept.count(c));
                    assert(piled.count(c) == built_up.count(c));
                }
            } else {
                lemma_piles_cards_update(m.piles, pile, built);
                let piled = piles_cards(mid.piles).add(m.piles[pile].to_multiset());
                let built_up = piles_cards(m.piles).add(built.to_multiset());
                assert(piled == built_up);
                assert forall|c: Card| mid.cards().count(c) == m.cards().count(c) by {
                    assert(moved.count(c) == kept.count(c));
                    assert(piled.count(c) == built_up.count(c));
                }
            }
            assert(mid.cards() =~= m.cards());
            if mid.active().stock.len() == 0 {
                let winner = PlayerModel { has_won: true, ..mid.active() };
                lemma_players_cards_update(mid.players, mid.current, winner);
                let crowned = players_cards(post.players).add(mid.active().cards());
                let uncrowned = players_cards(mid.players).add(winner.cards());
                assert(crowned == uncrowned);
                assert forall|c: Card| post.cards().count(c) == mid.cards().count(c) by {
                    assert(crowned.count(c) == uncrowned.count(c));
                }
                assert(post.cards() =~= mid.cards());
            } else if source is Hand && mid.active().hand.len() == 0 {
                lemma_refill(mid, s);
            }
        },
        Action::Discard { hand_index, discard_pile } => {
            let parked = m.after_discard(hand_index as int, discard_pile as int);
            let after = player.discarding(hand_index as int, discard_pile as int);
            lemma_discarding_cards(player, hand_index as int, discard_pile as int);
            lemma_players_cards_update(m.players, m.current, after);
            let moved = players_cards(parked.players).add(player.cards());
            let kept = players_cards(m.players).add(after.cards());
            assert(moved == kept);
            assert forall|c: Card| parked.cards().count(c) == m.cards().count(c) by {
                assert(moved.count(c) == kept.count(c));
            }
            assert(parked.cards() =~= m.cards());
            lemma_next_seat(parked);
            lemma_refill(parked.rotated(), s);
        },
        Action::EndTurn => {
            lemma_next_seat(m.counted());
            lemma_refill(m.counted().rotated(), s);
        },
    }
}

/// **Every reachable state is valid.** A legal action taken in a valid, ongoing game
/// leaves a valid game.
pub proof fn lemma_step_valid(m: GameModel, action: Action, s: Seq<Card>)
    requires
        m.valid(),
        m.status == GameStatus::Ongoing,
        m.legal(action),
        is_shuffle(s, m.shuffle_base(action)),
    ensures
        m.step(action, s).valid(),
{
    match action {
        Action::Play { source, build_pile } => lemma_play_valid(m, source, build_pile, s),
        Action::Discard { hand_index, discard_pile } => lemma_discard_valid(
            m,
            hand_index,
            discard_pile,
            s,
        ),
        Action::EndTurn => lemma_end_turn_valid(m, s),
    }
}

/// **Build-pile cycle.** A legal play puts its card on the build pile. The pile then
/// asks for the next value up, unless the card was its twelfth: then all twelve cards go
/// to the end of the recycle pile, in the order they were played, the pile is empty
/// and asks for a 1 again. The other build piles stay as they are. So twelve plays
/// onto an empty pile leave it empty and the recycle pile twelve cards longer.
pub proof fn lemma_build_pile_cycle(m: GameModel, source: CardSource, pile: usize)
    requires
        m.valid(),
        m.status == GameStatus::Ongoing,
        m.legal(Action::Play { source, build_pile: pile }),
    ensures
        ({
            let played = m.active().source_card(source)->Some_0;
            let before = m.piles[pile as int];
            let after = m.after_play(source, pile as int);
            &&& played.matches(next_value(before))
            &&& 1 <= next_value(before) <= MAX_CARD_VALUE
            &&& after.piles[pile as int].len() == (before.len() + 1) as int % (MAX_CARD_VALUE as int)
            &&& before.len() + 1 < MAX_CARD_VALUE ==> {
                &&& after.piles[pile as int] == before.push(played)
                &&& next_value(after.piles[pile as int]) == next_value(before) + 1
                &&& after.recycle == m.recycle
            }
            &&& before.len() + 1 == MAX_CARD_VALUE ==> {
                &&& after.piles[pile as int].len() == 0
                &&& next_value(after.piles[pile as int]) == 1
                &&& after.recycle == m.recycle + before.push(played)
                &&& after.recycle.len() == m.recycle.len() + MAX_CARD_VALUE
            }
            &&& forall|b: int|
                0 <= b < BUILD_PILE_COUNT && b != pile ==> #[trigger] after.piles[b] == m.piles[b]
            &&& forall|s: Seq<Card>|
                (#[trigger] m.step(Action::Play { source, build_pile: pile }, s)).piles
                    == after.piles
        }),
{
    let action = Action::Play { source, build_pile: pile };
    let after = m.after_play(source, pile as int);
    assert(m.piles[pile as int].len() < MAX_CARD_VALUE);
    assert forall|s: Seq<Card>| (#[trigger] m.step(action, s)).piles == after.piles by {
        if after.active().stock.len() != 0 && source is Hand && after.active().hand.len() == 0 {
            assert(after.refill(s).piles == after.piles);
        }
    }
}

/// **Win immediacy.** A legal play of the last stock card ends the game at once: the
/// state it leads to names the active player as the winner, whatever the hand still
/// holds. A legal play that leaves a card in the stock leaves the game ongoing and the
/// turn with the same player.
pub proof fn lemma_win_is_immediate(m: GameModel, source: CardSource, pile: usize, s: Seq<Card>)
    requires
        m.valid(),
        m.status == GameStatus::Ongoing,
        m.legal(Action::Play { source, build_pile: pile }),
        is_shuffle(s, m.shuffle_base(Action::Play { source, build_pile: pile })),
    ensures
        ({
            let post = m.step(Action::Play { source, build_pile: pile }, s);
            let last_stock_card = source is Stock && m.active().stock.len() == 1;
            &&& post.current == m.current
            &&& last_stock_card ==> {
                &&& post.status == GameStatus::Finished { winner: m.current as usize }
                &&& post.phase == TurnPhase::GameOver
                &&& post.active().has_won
                &&& post.active().stock.len() == 0
                &&& post.active().hand == m.active().hand
            }
            &&& !last_stock_card ==> {
                &&& post.status == GameStatus::Ongoing
                &&& post.phase == TurnPhase::AwaitingAction
                &&& post.active().stock.len() > 0
            }
        }),
{
    let action = Action::Play { source, build_pile: pile };
    let mid = m.after_play(source, pile as int);
    assert(m.players[m.current].valid(m.settings.hand_size as int));
    assert(m.players[m.current].stock.len() > 0);
    if mid.active().stock.len() != 0 && source is Hand && mid.active().hand.len() == 0 {
        lemma_refill(mid, s);
    }
}

/// **Hand auto-refill.** A legal play of the last hand card refills the hand before
/// the action is over: the hand then holds the hand size, or all that the draw and
/// recycle piles had to give, whichever is less, and those cards have left the supply.
/// The turn stays with the same player.
pub proof fn lemma_hand_refills(m: GameModel, index: usize, pile: usize, s: Seq<Card>)
    requires
        m.valid(),
        m.status == GameStatus::Ongoing,
        m.legal(Action::Play { source: CardSource::Hand(index), build_pile: pile }),
        m.active().hand.len() == 1,
        is_shuffle(
            s,
            m.shuffle_base(Action::Play { source: CardSource::Hand(index), build_pile: pile }),
        ),
    ensures
        ({
            let action = Action::Play { source: CardSource::Hand(index), build_pile: pile };
            let played = m.after_play(CardSource::Hand(index), pile as int);
            let post = m.step(action, s);
            &&& post.status == GameStatus::Ongoing
            &&& post.current == m.current
            &&& post.active().hand.len() == smaller(
                m.settings.hand_size as int,
                played.supply() as int,
            )
            &&& post.supply() == played.supply() - post.active().hand.len()
            &&& post.active().hand.len() == m.settings.hand_size || post.supply() == 0
        }),
{
    let source = CardSource::Hand(index);
    let mid = m.after_play(source, pile as int);
    assert(m.players[m.current].valid(m.settings.hand_size as int));
    assert(m.players[m.current].stock.len() > 0);
    assert(mid.active().hand.len() == 0);
    lemma_refill(mid, s);
}

/// **Legality exclusivity.** In a list of the legal actions of a valid, ongoing game:
/// with cards in the hand, the end of the turn is not listed and every discard of a
/// hand card onto a discard pile is; with an empty hand, the end of the turn is
/// listed, as the last action, and no discard is; and when the active player is stuck,
/// the end of the turn is all there is.
pub proof fn lemma_legality_exclusive(m: GameModel, actions: Seq<Action>)
    requires
        m.valid(),
        m.lists_legal(actions),
    ensures
        m.active().hand.len() > 0 ==> {
            &&& !actions.contains(Action::EndTurn)
            &&& forall|h: usize, d: usize|
                h < m.active().hand.len() && d < DISCARD_PILE_COUNT ==> #[trigger] actions.contains(
                    Action::Discard { hand_index: h, discard_pile: d },
                )
        },
        m.active().hand.len() == 0 ==> {
            &&& actions.contains(Action::EndTurn)
            &&& actions.len() > 0 && actions.last() == Action::EndTurn
            &&& forall|h: usize, d: usize|
                !#[trigger] actions.contains(Action::Discard { hand_index: h, discard_pile: d })
        },
        m.stuck(m.current) ==> actions == seq![Action::EndTurn],
        forall|i: int|
            0 <= i < actions.len() && !((#[trigger] actions[i]) is Play) ==> (actions[i]
                == Action::EndTurn <==> m.active().hand.len() == 0),
{
    assert forall|i: int| 0 <= i < actions.len() implies m.legal(#[trigger] actions[i]) by {
        assert(actions.contains(actions[i]));
    }
    if m.active().hand.len() > 0 {
        assert(!m.legal(Action::EndTurn));
        assert forall|h: usize, d: usize|
            h < m.active().hand.len() && d < DISCARD_PILE_COUNT implies #[trigger] actions.contains(
            Action::Discard { hand_index: h, discard_pile: d },
        ) by {
            assert(m.legal(Action::Discard { hand_index: h, discard_pile: d }));
        }
    } else {
        assert(m.legal(Action::EndTurn));
        assert(actions.contains(Action::EndTurn));
        let at = choose|i: int| 0 <= i < actions.len() && actions[i] == Action::EndTurn;
        let last = actions.len() - 1;
        if at != last {
            assert(m.legal(actions[last]));
            assert(rank_before(action_rank(actions[at]), action_rank(actions[last])));
        }
        assert forall|h: usize, d: usize|
            !#[trigger] actions.contains(
                Action::Discard { hand_index: h, discard_pile: d },
            ) by {
            assert(!m.legal(Action::Discard { hand_index: h, discard_pile: d }));
        }
        if m.stuck(m.current) {
            assert forall|i: int| 0 <= i < actions.len() implies actions[i]
                == Action::EndTurn by {
                assert(m.legal(actions[i]));
                match actions[i] {
                    Action::Play { source, build_pile } => {
                        assert(m.playable_by(m.current, source, build_pile as int));
                    },
                    _ => {},
                }
            }
            if actions.len() > 1 {
                assert(rank_before(action_rank(actions[0]), action_rank(actions[1])));
            }
            assert(actions =~= seq![Action::EndTurn]);
        }
    }
}

/// **Legal means accepted.** In an ongoing game the active player's action is turned
/// down exactly when it is not legal, and then with the fault that makes it illegal;
/// anybody else's action is turned down whatever it is.
pub proof fn lemma_legal_means_accepted(m: GameModel, player: usize, action: Action)
    requires
        m.valid(),
        m.status == GameStatus::Ongoing,
    ensures
        m.rejection(player, action) is None <==> player == m.current && m.legal(action),
        player == m.current && !m.legal(action) ==> m.rejection(player, action) == Some(
            GameError::InvalidAction(m.action_fault(action)->Some_0),
        ),
{
}

/// **The list of legal actions is unique.** Two lists that both list the legal
/// actions of a state are the same list.
pub proof fn lemma_listing_unique(m: GameModel, a: Seq<Action>, b: Seq<Action>)
    requires
        m.lists_legal(a),
        m.lists_legal(b),
    ensures
        a == b,
{
    lemma_listing_prefix(m, a, b, a.len() as int);
    lemma_listing_prefix(m, b, a, b.len() as int);
    assert(a =~= b);
}

/// Two lists of the legal actions agree on their first `k` places.
proof fn lemma_listing_prefix(m: GameModel, a: Seq<Action>, b: Seq<Action>, k: int)
    requires
        m.lists_legal(a),
        m.lists_legal(b),
        0 <= k <= a.len(),
    ensures
        k <= b.len(),
        forall|i: int| 0 <= i < k ==> a[i] == b[i],
    decreases k,
{
    if k > 0 {
        lemma_listing_prefix(m, a, b, k - 1);
        let i = k - 1;
        // a[i] is legal, so b lists it, at a place not before i.
        assert(a.contains(a[i]));
        assert(b.contains(a[i]));
        let j = choose|j: int| 0 <= j < b.len() && b[j] == a[i];
        if j < i {
            assert(a[j] == b[j]);
            assert(rank_before(action_rank(a[j]), action_rank(a[i])));
        }
        assert(i < b.len());
        // b[i] is legal, so a lists it, at a place not before i.
        assert(b.contains(b[i]));
        assert(a.contains(b[i]));
        let h = choose|h: int| 0 <= h < a.len() && a[h] == b[i];
        if h < i {
            assert(a[h] == b[h]);
            assert(rank_before(action_rank(b[h]), action_rank(b[i])));
        }
        if j > i {
            assert(rank_before(action_rank(b[i]), action_rank(b[j])));
            if h > i {
                assert(rank_before(action_rank(a[i]), action_rank(a[h])));
            }
        }
    }
}

/// **A snapshot shows what its player may know and no more.** Two games that look the
/// same to a player have the same snapshots for that player, whatever the order of
/// their draw and recycle piles, the other players' hands, and the cards below the
/// tops of the stocks and the discard piles.
pub proof fn lemma_snapshot_hides(
    a: GameModel,
    b: GameModel,
    perspective: int,
    seen: GameStateView,
)
    requires
        0 <= perspective < a.players.len(),
        a.looks_like(b, perspective),
    ensures
        a.seen_as(perspective, seen) == b.seen_as(perspective, seen),
{
    assert forall|p: int| 0 <= p < a.players.len() implies a.player_seen_as(p, seen.players@[p])
        == b.player_seen_as(p, seen.players@[p]) by {
        let mine = a.players[p];
        let theirs = b.players[p];
        assert forall|d: int| 0 <= d < DISCARD_PILE_COUNT implies mine.discards[d].len()
            == theirs.discards[d].len() && mine.source_card(CardSource::Discard(d as usize))
            == theirs.source_card(CardSource::Discard(d as usize)) by {}
    }
}

/// The cards of the players of a sequence are as many as their zones hold.
proof fn lemma_players_count(players: Seq<PlayerModel>)
    requires
        forall|p: int| 0 <= p < players.len() ==> (#[trigger] players[p]).discards.len() == 4,
    ensures
        players_cards(players).len() == players_count(players),
    decreases players.len(),
{
    if players.len() > 0 {
        lemma_players_count(players.drop_last());
        let last = players.last();
        last.stock.to_multiset_ensures();
        last.hand.to_multiset_ensures();
        last.discards[0].to_multiset_ensures();
        last.discards[1].to_multiset_ensures();
        last.discards[2].to_multiset_ensures();
        last.discards[3].to_multiset_ensures();
    }
}

/// **The card count is the sum over the zones.** The number of cards of a game is the
/// size of the draw pile plus the size of the recycle pile plus the sizes of the build
/// piles plus the sizes of every player's stock, hand and discard piles. With
/// [`lemma_step_conserves_cards`] and [`lemma_opening`] this sum is the size of the
/// deck in every state a game reaches.
pub proof fn lemma_card_count_by_zone(m: GameModel)
    requires
        m.valid(),
    ensures
        m.card_count() == m.zone_total(),
{
    assert forall|p: int| 0 <= p < m.players.len() implies (#[trigger] m.players[p]).discards.len()
        == 4 by {
        assert(m.players[p].valid(m.settings.hand_size as int));
    }
    lemma_players_count(m.players);
    m.draw.to_multiset_ensures();
    m.recycle.to_multiset_ensures();
    m.piles[0].to_multiset_ensures();
    m.piles[1].to_multiset_ensures();
    m.piles[2].to_multiset_ensures();
    m.piles[3].to_multiset_ensures();
}

/// What one player holds is part of what all players hold.
proof fn lemma_player_among_players(players: Seq<PlayerModel>, p: int, card: Card)
    requires
        0 <= p < players.len(),
    ensures
        players[p].cards().count(card) <= players_cards(players).count(card),
        players[p].count() <= players_count(players),
    decreases players.len(),
{
    if p < players.len() - 1 {
        lemma_player_among_players(players.drop_last(), p, card);
    }
}

/// **A snapshot of a game can be handed to an agent.** The snapshot of a valid game
/// that holds cards of the deck only, and no more of them than the agents count, is
/// well formed.
pub proof fn lemma_snapshot_is_well_formed(
    m: GameModel,
    perspective: int,
    seen: GameStateView,
)
    requires
        m.valid(),
        0 <= perspective < m.players.len(),
        m.seen_as(perspective, seen),
        m.card_count() <= COUNT_LIMIT,
        forall|card: Card| m.cards().count(card) > 0 ==> is_deck_card(card),
    ensures
        seen.well_formed(),
{
    let n = m.players.len() as int;
    seen.lemma_place_of_from(seen.self_player, 0);
    assert(m.player_seen_as(perspective, seen.players@[perspective]));
    assert forall|q: int| 0 <= q < n implies (#[trigger] seen.players@[q]).id == q by {
        assert(m.player_seen_as(q, seen.players@[q]));
    }
    assert(seen.own_place() == Some(perspective));
    lemma_card_count_by_zone(m);
    assert forall|p: int| 0 <= p < n implies m.players[p].count() <= m.card_count()
        && m.players[p].discards.len() == 4 by {
        lemma_player_among_players(m.players, p, Card::SkipBo);
        assert(m.players[p].valid(m.settings.hand_size as int));
    }
    // A card that a player holds is a card of the game, so a card of the deck.
    assert forall|p: int, card: Card|
        0 <= p < n && m.players[p].cards().count(card) > 0 implies is_deck_card(
        card,
    ) by {
        lemma_player_among_players(m.players, p, card);
        assert(m.cards().count(card) > 0);
    }
    assert forall|h: int| 0 <= h < seen.hand@.len() implies is_deck_card(
        #[trigger] seen.hand@[h],
    ) by {
        let hand = m.players[perspective].hand;
        hand.to_multiset_ensures();
        assert(hand.contains(hand[h]));
        assert(m.players[perspective].cards().count(hand[h]) > 0);
    }
    assert forall|p: int| 0 <= p < n implies is_deck_card_or_none(
        (#[trigger] seen.players@[p]).stock_top,
    ) by {
        assert(m.player_seen_as(p, seen.players@[p]));
        let stock = m.players[p].stock;
        if stock.len() > 0 {
            stock.to_multiset_ensures();
            assert(stock.contains(stock.last()));
            assert(m.players[p].cards().count(stock.last()) > 0);
        }
    }
    assert forall|p: int, d: int| 0 <= p < n && 0 <= d < 4 implies is_deck_card_or_none(
        #[trigger] seen.players@[p].discard_tops[d],
    ) && seen.players@[p].discard_counts[d] <= COUNT_LIMIT by {
        assert(m.player_seen_as(p, seen.players@[p]));
        let pile = m.players[p].discards[d];
        assert(pile.len() <= m.players[p].count());
        if pile.len() > 0 {
            pile.to_multiset_ensures();
            assert(pile.contains(pile.last()));
            assert(m.players[p].cards().count(pile.last()) > 0);
        }
    }
    assert forall|b: int| 0 <= b < 4 implies (#[trigger] seen.build_piles[b]).cards@.len()
        <= COUNT_LIMIT && 1 <= seen.build_piles[b].next_value <= 12 by {
        assert(m.piles[b].len() < MAX_CARD_VALUE);
    }
}

/// **The full deck holds cards of the deck.** Every card of a game that is dealt from
/// the full deck, in whatever order, is a numbered card between 1 and 12 or the
/// wildcard, and there are 162 of them; with [`lemma_step_conserves_cards`] and
/// [`lemma_snapshot_is_well_formed`], every snapshot of such a game is well formed.
pub proof fn lemma_full_deck_cards(deck: Seq<Card>)
    requires
        is_shuffle(deck, full_deck_cards()),
    ensures
        deck.len() == DECK_SIZE,
        forall|card: Card|
            deck.to_multiset().count(card) > 0 ==> is_deck_card(card),
{
    let full = full_deck_cards();
    deck.to_multiset_ensures();
    full.to_multiset_ensures();
    assert forall|card: Card| deck.to_multiset().count(card) > 0 implies is_deck_card(
        card,
    ) by {
        assert(full.contains(card));
        let i = choose|i: int| 0 <= i < full.len() && full[i] == card;
        if i < 144 {
            assert(0 <= i % 12 < 12);
        }
    }
}

/// **A draw is a stalemate.** A game that has been declared a draw is deadlocked:
/// nothing is left to draw, every hand is empty, and no player can play the stock top
/// or any discard top.
pub proof fn lemma_draw_is_deadlock(m: GameModel)
    requires
        m.valid(),
        m.status == GameStatus::Draw,
    ensures
        m.deadlocked(),
{
    assert forall|p: int| 0 <= p < m.players.len() implies #[trigger] m.stuck(p) by {
        assert(m.seats_until_current(p) <= m.idle_turns);
    }
    assert(m.stuck(m.current));
}

/// **A stalemate ends in a draw.** In a deadlocked, ongoing game the only legal action is
/// to end the turn, and doing so leaves the game deadlocked and either declares the
/// draw or brings it one turn nearer. So the game is a draw after at most as many
/// turns as there are players.
pub proof fn lemma_deadlock_ends_in_draw(m: GameModel, s: Seq<Card>)
    requires
        m.valid(),
        m.status == GameStatus::Ongoing,
        m.deadlocked(),
        is_shuffle(s, m.recycle),
    ensures
        m.legal(Action::EndTurn),
        forall|action: Action| #[trigger] m.legal(action) ==> action == Action::EndTurn,
        ({
            let post = m.step(Action::EndTurn, s);
            &&& post.deadlocked()
            &&& post.idle_turns == m.idle_turns + 1
            &&& post.status == if post.idle_turns == m.players.len() {
                GameStatus::Draw
            } else {
                GameStatus::Ongoing
            }
        }),
{
    let post = m.step(Action::EndTurn, s);
    assert(m.stuck(m.current));
    assert forall|action: Action| #[trigger] m.legal(action) implies action
        == Action::EndTurn by {
        match action {
            Action::Play { source, build_pile } => {
                assert(m.playable_by(m.current, source, build_pile as int));
            },
            _ => {},
        }
    }
    let turned = m.counted().rotated();
    lemma_next_seat(m.counted());
    lemma_refill(turned, s);
    assert(post.players == m.players);
    assert forall|p: int| 0 <= p < post.players.len() implies #[trigger] post.stuck(p) by {
        assert(m.stuck(p));
        lemma_stuck_frame(m, post, p);
    }
}

} // verus!
