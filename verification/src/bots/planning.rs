//! Planning towards the stock card: what the stock-first agents share.

use vstd::prelude::*;
use crate::action::{Action, CardSource};
use crate::bot::{contains_action, own_player, shown_card, source_card, UNSCORED};
use crate::card::{Card, MAX_CARD_VALUE, MIN_CARD_VALUE};
use crate::state::{
    is_deck_card, is_deck_card_or_none, GameStateView, PlayerPublicState, COUNT_LIMIT,
};

verus! {

/// The values that must be played onto a build pile, in order, before the pile asks
/// for the stock card: none for the wildcard or a pile that asks for it already, else
/// the values from the one asked for up to the one before the stock card, round by way
/// of twelve where the pile is past it.
pub open spec fn required_values(next_value: u8, stock: Card) -> Seq<u8> {
    match stock {
        Card::SkipBo => Seq::empty(),
        Card::Number(s) => if next_value == s {
            Seq::empty()
        } else if next_value < s {
            Seq::new((s - next_value) as nat, |i: int| (next_value + i) as u8)
        } else {
            Seq::new((MAX_CARD_VALUE + 1 - next_value) as nat, |i: int| (next_value + i) as u8)
                + Seq::new((s - MIN_CARD_VALUE) as nat, |i: int| (MIN_CARD_VALUE + i) as u8)
        },
    }
}

/// The score of discarding hand card `hand_index` onto discard pile `discard_pile`:
/// higher for a pile whose top is the same card, lower for a deep pile and for later
/// hand cards.
pub open spec fn plain_discard_score(
    state: &GameStateView,
    player: &PlayerPublicState,
    hand_index: usize,
    discard_pile: usize,
) -> int {
    if hand_index >= state.hand@.len() {
        UNSCORED as int
    } else {
        let card = state.hand@[hand_index as int];
        let depth = if discard_pile < 4 {
            player.discard_counts[discard_pile as int]
        } else {
            0
        };
        1000 + (if shown_card(state, player, CardSource::Discard(discard_pile)) == Some(card) {
            600int
        } else {
            0
        }) - depth * 20 - hand_index * 10
    }
}

/// The value of the numbered card that a play moves; a play from the stock counts only
/// where `with_stock` says so.
pub open spec fn played_value(
    state: &GameStateView,
    player: &PlayerPublicState,
    action: Action,
    with_stock: bool,
) -> Option<u8> {
    match action {
        Action::Play { source, .. } => if source is Stock && !with_stock {
            None
        } else {
            match shown_card(state, player, source) {
                Some(Card::Number(value)) => Some(value),
                _ => None,
            }
        },
        _ => None,
    }
}

/// The value that follows a value on a build pile: one more, and 1 after 12.
pub open spec fn value_above(value: u8) -> u8 {
    if value == MAX_CARD_VALUE {
        1
    } else {
        (value + 1) as u8
    }
}

/// The seat after the current one.
pub open spec fn next_seat(state: &GameStateView) -> usize {
    ((state.current_player + 1) % (state.settings.num_players as int)) as usize
}

/// The play would leave its build pile asking for the very value that the next
/// player's stock card has.
pub open spec fn feeds_next_player(
    state: &GameStateView,
    player: &PlayerPublicState,
    action: Action,
) -> bool {
    action matches Action::Play { source, build_pile } && build_pile < 4 && (shown_card(
        state,
        player,
        source,
    ) matches Some(card) && (state.place_of(next_seat(state)) matches Some(place)
        && state.players@[place].stock_top == Some(
        Card::Number(
            value_above(
                match card {
                    Card::Number(value) => value,
                    Card::SkipBo => state.build_piles[build_pile as int].next_value,
                },
            ),
        ),
    )))
}

/// The play goes onto one of exactly two build piles that ask for the same value.
pub open spec fn breaks_pair(state: &GameStateView, action: Action) -> bool {
    action matches Action::Play { build_pile, .. } && build_pile < 4 && same_asking(
        state,
        state.build_piles[build_pile as int].next_value,
    ) == 2
}

/// Whether build pile `index` asks for a value, as a count.
pub open spec fn asks_for(state: &GameStateView, index: int, value: u8) -> int {
    if state.build_piles[index].next_value == value {
        1
    } else {
        0
    }
}

/// How many build piles ask for a value.
pub open spec fn same_asking(state: &GameStateView, value: u8) -> int {
    asks_for(state, 0, value) + asks_for(state, 1, value) + asks_for(state, 2, value) + asks_for(
        state,
        3,
        value,
    )
}

/// What the choice of a numbered play steers clear of.
#[derive(Copy, Clone, Debug, PartialEq, Eq, Structural)]
pub enum Avoid {
    /// Nothing.
    Nothing,
    /// Plays that feed the next player's stock card.
    Feeding,
    /// Plays onto one of exactly two build piles that ask for the same value.
    PairBreaking,
}

/// How discards are scored.
#[derive(Copy, Clone, Debug, PartialEq, Eq, Structural)]
pub enum Scoring {
    /// Stack a card on its like, keep piles shallow, discard early hand cards first.
    Plain,
    /// Stack a card on its like or on the card one above, keep piles shallow.
    Stacking,
}

/// What tells the stock-first agents apart.
#[derive(Copy, Clone, Debug, PartialEq, Eq, Structural)]
pub struct Policy {
    /// No play of a plan towards the stock card may feed the next player's stock card.
    pub guard: bool,
    /// Look for a way to play the whole hand before playing single cards.
    pub search_hand: bool,
    /// Single numbered cards are played only from this value on and above the value
    /// of the stock card; without it, from the value of the stock card on.
    pub floor: Option<u8>,
    /// The stock card counts among the single numbered cards.
    pub with_stock: bool,
    /// What single plays steer clear of.
    pub avoid: Avoid,
    /// How discards are scored.
    pub scoring: Scoring,
    /// Before the first action is taken as a last resort, the first action that does
    /// not feed the next player's stock card is.
    pub spare_next: bool,
}

/// The score of discarding hand card `hand_index` onto discard pile `discard_pile`:
/// higher for a pile whose top is the same card or the card one above, lower for a
/// deep pile.
pub open spec fn stacking_discard_score(
    state: &GameStateView,
    player: &PlayerPublicState,
    hand_index: usize,
    discard_pile: usize,
) -> int {
    if hand_index >= state.hand@.len() {
        UNSCORED as int
    } else {
        let card = state.hand@[hand_index as int];
        let top = shown_card(state, player, CardSource::Discard(discard_pile));
        let depth = if discard_pile < 4 {
            player.discard_counts[discard_pile as int]
        } else {
            0
        };
        1000 + (if top == Some(card) {
            600int
        } else {
            0
        }) + (match (top, card) {
            (Some(Card::Number(above)), Card::Number(value)) => if value + 1 == above {
                80int
            } else {
                0
            },
            _ => 0,
        }) - depth * 20
    }
}

/// The score of a discard under a way of scoring.
pub open spec fn scored(
    state: &GameStateView,
    player: &PlayerPublicState,
    scoring: Scoring,
    hand_index: usize,
    discard_pile: usize,
) -> int {
    match scoring {
        Scoring::Plain => plain_discard_score(state, player, hand_index, discard_pile),
        Scoring::Stacking => stacking_discard_score(state, player, hand_index, discard_pile),
    }
}

/// The value below which the agent plays no single card: the value of its stock
/// card, and 1 for a wildcard or an empty stock.
pub open spec fn threshold(player: &PlayerPublicState) -> u8 {
    match player.stock_top {
        Some(Card::Number(value)) => value,
        _ => 1,
    }
}

/// What a play is worth as a single play: the value of its numbered card and the
/// number of cards on its build pile; nothing for an action that is no play of a
/// numbered card, that the policy steers clear of, or whose value is too low.
pub open spec fn worth(
    state: &GameStateView,
    player: &PlayerPublicState,
    policy: Policy,
    action: Action,
) -> Option<(u8, usize)> {
    let avoided = match policy.avoid {
        Avoid::Nothing => false,
        Avoid::Feeding => feeds_next_player(state, player, action),
        Avoid::PairBreaking => breaks_pair(state, action),
    };
    if avoided {
        None
    } else {
        match played_value(state, player, action, policy.with_stock) {
            None => None,
            Some(value) => {
                let high_enough = match policy.floor {
                    Some(floor) => value >= floor && value > threshold(player),
                    None => value >= threshold(player),
                };
                if high_enough {
                    Some(
                        (
                            value,
                            if action->build_pile < 4 {
                                state.build_piles[action->build_pile as int].cards@.len() as usize
                            } else {
                                0
                            },
                        ),
                    )
                } else {
                    None
                }
            },
        }
    }
}

/// The first worth is more than the second: a higher card, or the same card onto a
/// pile with more cards.
pub open spec fn worth_more(a: (u8, usize), b: (u8, usize)) -> bool {
    a.0 > b.0 || (a.0 == b.0 && a.1 > b.1)
}

/// The action at `place` is the single play the agent takes: none of the list is
/// worth more, and it is worth more than every play listed before it.
pub open spec fn is_top_play_at(
    state: &GameStateView,
    player: &PlayerPublicState,
    policy: Policy,
    legal: Seq<Action>,
    place: int,
) -> bool {
    &&& 0 <= place < legal.len()
    &&& worth(state, player, policy, legal[place]) is Some
    &&& forall|i: int|
        0 <= i < legal.len() && worth(state, player, policy, #[trigger] legal[i]) is Some
            ==> !worth_more(
            worth(state, player, policy, legal[i])->Some_0,
            worth(state, player, policy, legal[place])->Some_0,
        )
    &&& forall|i: int|
        0 <= i < place && worth(state, player, policy, #[trigger] legal[i]) is Some ==> worth_more(
            worth(state, player, policy, legal[place])->Some_0,
            worth(state, player, policy, legal[i])->Some_0,
        )
}

/// `best` is the single play the agent takes from the list, or nothing where no play
/// of the list is worth taking.
pub open spec fn is_top_play(
    state: &GameStateView,
    player: &PlayerPublicState,
    policy: Policy,
    legal: Seq<Action>,
    best: Option<Action>,
) -> bool {
    match best {
        Some(action) => exists|place: int|
            #[trigger] is_top_play_at(state, player, policy, legal, place) && legal[place]
                == action,
        None => forall|i: int|
            0 <= i < legal.len() ==> worth(state, player, policy, #[trigger] legal[i]) is None,
    }
}

/// The action at `place` is the discard the agent takes: a discard with the highest
/// score of the list, and the first one listed that has it.
pub open spec fn is_top_discard_at(
    state: &GameStateView,
    player: &PlayerPublicState,
    scoring: Scoring,
    legal: Seq<Action>,
    place: int,
) -> bool {
    &&& 0 <= place < legal.len()
    &&& legal[place] is Discard
    &&& forall|i: int|
        0 <= i < legal.len() && (#[trigger] legal[i]) is Discard ==> scored(
            state,
            player,
            scoring,
            legal[i]->hand_index,
            legal[i]->discard_pile,
        ) <= scored(state, player, scoring, legal[place]->hand_index, legal[place]->discard_pile)
    &&& forall|i: int|
        0 <= i < place && (#[trigger] legal[i]) is Discard ==> scored(
            state,
            player,
            scoring,
            legal[i]->hand_index,
            legal[i]->discard_pile,
        ) < scored(state, player, scoring, legal[place]->hand_index, legal[place]->discard_pile)
}

/// `best` is the discard the agent takes from the list, or nothing where the list
/// holds no discard.
pub open spec fn is_top_discard(
    state: &GameStateView,
    player: &PlayerPublicState,
    scoring: Scoring,
    legal: Seq<Action>,
    best: Option<Action>,
) -> bool {
    match best {
        Some(action) => exists|place: int|
            #[trigger] is_top_discard_at(state, player, scoring, legal, place) && legal[place]
                == action,
        None => forall|i: int| 0 <= i < legal.len() ==> !((#[trigger] legal[i]) is Discard),
    }
}

/// The action spares the next player: it is no play, or a play that does not feed the
/// next player's stock card.
pub open spec fn spares_next(state: &GameStateView, player: &PlayerPublicState, action: Action) -> bool {
    !(action is Play) || !feeds_next_player(state, player, action)
}

/// The first action of the list from place `from` on that spares the next player.
pub open spec fn first_sparing_from(
    state: &GameStateView,
    player: &PlayerPublicState,
    legal: Seq<Action>,
    from: int,
) -> Option<Action>
    decreases legal.len() - from,
{
    if from < 0 || from >= legal.len() {
        None
    } else if spares_next(state, player, legal[from]) {
        Some(legal[from])
    } else {
        first_sparing_from(state, player, legal, from + 1)
    }
}

/// A card can go onto a build pile that asks for a value: the wildcard always, a
/// numbered card if it has the value.
pub open spec fn fits(card: Card, asked: u8) -> bool {
    match card {
        Card::SkipBo => true,
        Card::Number(value) => asked == value,
    }
}

/// Looks for an order in which all hand cards that are not yet used can be played,
/// given what the four build piles ask for: the hand cards are tried in index order, each
/// on the build piles in index order, from hand card `hi` and pile `pi` on; the first
/// play of the order must be a listed action. The result is the list of all plays of
/// the order as hand index and build pile, `path` being those made so far.
pub open spec fn search(
    hand: Seq<Card>,
    legal: Seq<Action>,
    depth: int,
    piles: Seq<u8>,
    used: Seq<bool>,
    path: Seq<(usize, usize)>,
    hi: int,
    pi: int,
) -> Option<Seq<(usize, usize)>>
    decreases hand.len() - depth, hand.len() - hi, 4 - pi,
{
    if depth >= hand.len() {
        Some(path)
    } else if hi < 0 || hi >= hand.len() {
        None
    } else if used[hi] || pi < 0 || pi >= 4 {
        search(hand, legal, depth, piles, used, path, hi + 1, 0)
    } else if fits(hand[hi], piles[pi]) && (path.len() > 0 || legal.contains(
        Action::Play { source: CardSource::Hand(hi as usize), build_pile: pi as usize },
    )) {
        match search(
            hand,
            legal,
            depth + 1,
            piles.update(pi, value_above(piles[pi])),
            used.update(hi, true),
            path.push((hi as usize, pi as usize)),
            0,
            0,
        ) {
            Some(found) => Some(found),
            None => search(hand, legal, depth, piles, used, path, hi, pi + 1),
        }
    } else {
        search(hand, legal, depth, piles, used, path, hi, pi + 1)
    }
}

/// Some card of the hand can be played right away.
pub open spec fn any_playable(state: &GameStateView) -> bool {
    exists|h: int, p: int|
        0 <= h < state.hand@.len() && 0 <= p < 4 && fits(
            #[trigger] state.hand@[h],
            (#[trigger] state.build_piles[p]).next_value,
        )
}

/// What the four build piles ask for.
pub open spec fn asked_values(state: &GameStateView) -> Seq<u8> {
    Seq::new(4, |p: int| state.build_piles[p].next_value)
}

/// The first play of an order in which the whole hand can be played, where there is
/// such an order and some card can be played right away.
pub open spec fn hand_plan(state: &GameStateView, legal: Seq<Action>) -> Option<Action> {
    if state.hand@.len() == 0 || !any_playable(state) {
        None
    } else {
        match search(
            state.hand@,
            legal,
            0,
            asked_values(state),
            Seq::new(state.hand@.len(), |i: int| false),
            Seq::empty(),
            0,
            0,
        ) {
            None => None,
            Some(path) => if path.len() > 0 && legal.contains(
                Action::Play { source: CardSource::Hand(path[0].0), build_pile: path[0].1 },
            ) {
                Some(Action::Play { source: CardSource::Hand(path[0].0), build_pile: path[0].1 })
            } else {
                None
            },
        }
    }
}

/// The hand cards among the first `upto` that are the card `want`, as sources, in index
/// order.
pub open spec fn hand_sources(hand: Seq<Card>, want: Card, upto: int) -> Seq<CardSource>
    decreases upto,
{
    if upto <= 0 {
        Seq::empty()
    } else {
        let before = hand_sources(hand, want, upto - 1);
        if hand[upto - 1] == want {
            before.push(CardSource::Hand((upto - 1) as usize))
        } else {
            before
        }
    }
}

/// The discard piles among the first `upto` whose top is the card `want`, as sources,
/// in index order.
pub open spec fn top_sources(player: &PlayerPublicState, want: Card, upto: int) -> Seq<CardSource>
    decreases upto,
{
    if upto <= 0 {
        Seq::empty()
    } else {
        let before = top_sources(player, want, upto - 1);
        if player.discard_tops[upto - 1] == Some(want) {
            before.push(CardSource::Discard((upto - 1) as usize))
        } else {
            before
        }
    }
}

/// The sources at hand that hold the card `want`: the hand cards, then the discard
/// tops.
pub open spec fn sources_holding(
    state: &GameStateView,
    player: &PlayerPublicState,
    want: Card,
) -> Seq<CardSource> {
    hand_sources(state.hand@, want, state.hand@.len() as int) + top_sources(player, want, 4)
}

/// The source has not been used in the plan so far.
pub open spec fn is_free(source: CardSource, used_hand: Seq<bool>, used_discard: Seq<bool>) -> bool {
    match source {
        CardSource::Hand(h) => h < used_hand.len() && !used_hand[h as int],
        CardSource::Discard(d) => d < used_discard.len() && !used_discard[d as int],
        CardSource::Stock => false,
    }
}

/// The first free source of the list from place `from` on that is a discard pile, or
/// that is a hand card, as `from_discard` says.
pub open spec fn first_free(
    sources: Seq<CardSource>,
    from_discard: bool,
    used_hand: Seq<bool>,
    used_discard: Seq<bool>,
    from: int,
) -> Option<CardSource>
    decreases sources.len() - from,
{
    if from < 0 || from >= sources.len() {
        None
    } else if (sources[from] is Discard) == from_discard && is_free(
        sources[from],
        used_hand,
        used_discard,
    ) {
        Some(sources[from])
    } else {
        first_free(sources, from_discard, used_hand, used_discard, from + 1)
    }
}

/// The source a plan takes for the value `need`: the first free discard pile with the
/// value on top, else the first free hand card of the value, else the first free
/// discard pile with a wildcard on top, else the first free wildcard of the hand.
pub open spec fn picked(
    state: &GameStateView,
    player: &PlayerPublicState,
    need: u8,
    used_hand: Seq<bool>,
    used_discard: Seq<bool>,
) -> Option<CardSource> {
    let exact = sources_holding(state, player, Card::Number(need));
    if first_free(exact, true, used_hand, used_discard, 0) is Some {
        first_free(exact, true, used_hand, used_discard, 0)
    } else if first_free(exact, false, used_hand, used_discard, 0) is Some {
        first_free(exact, false, used_hand, used_discard, 0)
    } else if first_free(top_sources(player, Card::SkipBo, 4), true, used_hand, used_discard, 0)
        is Some {
        first_free(top_sources(player, Card::SkipBo, 4), true, used_hand, used_discard, 0)
    } else {
        first_free(
            hand_sources(state.hand@, Card::SkipBo, state.hand@.len() as int),
            false,
            used_hand,
            used_discard,
            0,
        )
    }
}

/// The hand marks after a source has been used.
pub open spec fn hand_marks(used_hand: Seq<bool>, source: CardSource) -> Seq<bool> {
    match source {
        CardSource::Hand(h) => used_hand.update(h as int, true),
        _ => used_hand,
    }
}

/// The discard marks after a source has been used.
pub open spec fn discard_marks(used_discard: Seq<bool>, source: CardSource) -> Seq<bool> {
    match source {
        CardSource::Discard(d) => used_discard.update(d as int, true),
        _ => used_discard,
    }
}

/// The plays that supply the required values from place `step` on, each from a free
/// source of its own, onto build pile `pile`; nothing where a value cannot be supplied
/// or, with `guard`, where a play would feed the next player's stock card.
pub open spec fn plan_from(
    state: &GameStateView,
    player: &PlayerPublicState,
    required: Seq<u8>,
    step: int,
    used_hand: Seq<bool>,
    used_discard: Seq<bool>,
    pile: usize,
    guard: bool,
) -> Option<Seq<Action>>
    decreases required.len() - step,
{
    if step < 0 || step >= required.len() {
        Some(Seq::empty())
    } else {
        match picked(state, player, required[step], used_hand, used_discard) {
            None => None,
            Some(source) => {
                let action = Action::Play { source, build_pile: pile };
                if guard && feeds_next_player(state, player, action) {
                    None
                } else {
                    match plan_from(
                        state,
                        player,
                        required,
                        step + 1,
                        hand_marks(used_hand, source),
                        discard_marks(used_discard, source),
                        pile,
                        guard,
                    ) {
                        None => None,
                        Some(rest) => Some(seq![action] + rest),
                    }
                }
            },
        }
    }
}

/// The plays that bring build pile `pile` to ask for the stock card, where the cards at
/// hand allow it.
pub open spec fn plan_for(
    state: &GameStateView,
    player: &PlayerPublicState,
    pile: usize,
    stock: Card,
    guard: bool,
) -> Option<Seq<Action>> {
    plan_from(
        state,
        player,
        required_values(state.build_piles[pile as int].next_value, stock),
        0,
        Seq::new(state.hand@.len(), |i: int| false),
        Seq::new(4, |i: int| false),
        pile,
        guard,
    )
}

/// The shortest plan among those for the first `upto` build piles, with its pile; the
/// first of equals.
pub open spec fn best_plan(
    state: &GameStateView,
    player: &PlayerPublicState,
    stock: Card,
    guard: bool,
    upto: int,
) -> Option<(usize, Seq<Action>)>
    decreases upto,
{
    if upto <= 0 {
        None
    } else {
        let before = best_plan(state, player, stock, guard, upto - 1);
        match plan_for(state, player, (upto - 1) as usize, stock, guard) {
            None => before,
            Some(plan) => match before {
                None => Some(((upto - 1) as usize, plan)),
                Some(best) => if plan.len() < best.1.len() {
                    Some(((upto - 1) as usize, plan))
                } else {
                    before
                },
            },
        }
    }
}

/// The build pile among the first `upto` that a wildcard on the stock goes to: the one
/// that asks for the highest value, and among those the one with the most cards
/// (counted up to 255 and round again); the last of equals.
pub open spec fn wild_pile(state: &GameStateView, upto: int) -> int
    decreases upto,
{
    if upto <= 1 {
        0
    } else {
        let before = wild_pile(state, upto - 1);
        let best = state.build_piles[before];
        let this = state.build_piles[upto - 1];
        if this.next_value > best.next_value || (this.next_value == best.next_value
            && this.cards@.len() % 256 >= best.cards@.len() % 256) {
            upto - 1
        } else {
            before
        }
    }
}

/// The build pile among the first `upto` that asks for a value and holds the most
/// cards; the last of equals.
pub open spec fn asking_pile(state: &GameStateView, value: u8, upto: int) -> Option<int>
    decreases upto,
{
    if upto <= 0 {
        None
    } else {
        let before = asking_pile(state, value, upto - 1);
        let this = state.build_piles[upto - 1];
        if this.next_value == value {
            match before {
                None => Some(upto - 1),
                Some(best) => if this.cards@.len() >= state.build_piles[best].cards@.len() {
                    Some(upto - 1)
                } else {
                    before
                },
            }
        } else {
            before
        }
    }
}

/// The action is listed and, with `guard`, does not feed the next player's stock card.
pub open spec fn may_take(
    state: &GameStateView,
    player: &PlayerPublicState,
    legal: Seq<Action>,
    action: Action,
    guard: bool,
) -> bool {
    legal.contains(action) && !(guard && feeds_next_player(state, player, action))
}

/// The pile the stock card can be played onto right away: for the wildcard the pile
/// that is furthest on, for a numbered card the pile that asks for it.
pub open spec fn ready_pile(state: &GameStateView, stock: Card) -> Option<int> {
    match stock {
        Card::SkipBo => Some(wild_pile(state, 4)),
        Card::Number(value) => asking_pile(state, value, 4),
    }
}

/// The first step towards playing the stock card: the stock play itself where a pile
/// is ready for it, else the first play of the shortest plan, or the stock play where
/// the plan is empty; nothing where there is no stock card, no plan, or the step may
/// not be taken.
pub open spec fn stock_plan(
    state: &GameStateView,
    player: &PlayerPublicState,
    legal: Seq<Action>,
    guard: bool,
) -> Option<Action> {
    match player.stock_top {
        None => None,
        Some(stock) => {
            let ready = ready_pile(state, stock);
            if ready is Some && may_take(
                state,
                player,
                legal,
                Action::Play { source: CardSource::Stock, build_pile: ready->Some_0 as usize },
                guard,
            ) {
                Some(Action::Play { source: CardSource::Stock, build_pile: ready->Some_0 as usize })
            } else {
                match best_plan(state, player, stock, guard, 4) {
                    None => None,
                    Some(best) => {
                        let first = if best.1.len() == 0 {
                            Action::Play { source: CardSource::Stock, build_pile: best.0 }
                        } else {
                            best.1[0]
                        };
                        if may_take(state, player, legal, first, guard) {
                            Some(first)
                        } else {
                            None
                        }
                    },
                }
            }
        },
    }
}

/// The cards at hand, by what they can be played as.
pub struct Sources {
    /// For each value from 1 to 12, at its index, the sources that hold a card of that
    /// value: hand cards in index order, then discard piles in index order.
    pub by_value: Vec<Vec<CardSource>>,
    /// The discard piles with a wildcard on top.
    pub skipbo_discards: Vec<CardSource>,
    /// The wildcards of the hand.
    pub skipbo_hands: Vec<CardSource>,
}

impl Sources {
    /// The lists are those of the snapshot's own cards.
    pub open spec fn wf(&self, state: &GameStateView, player: &PlayerPublicState) -> bool {
        &&& self.by_value@.len() == 13
        &&& forall|v: int|
            1 <= v < 13 ==> (#[trigger] self.by_value@[v])@ == sources_holding(
                state,
                player,
                Card::Number(v as u8),
            )
        &&& self.skipbo_discards@ == top_sources(player, Card::SkipBo, 4)
        &&& self.skipbo_hands@ == hand_sources(state.hand@, Card::SkipBo, state.hand@.len() as int)
    }
}

/// Discard scoring that ignores what the card is worth.
pub(crate) fn plain_score_discard(state: &GameStateView, hand_index: usize, discard_pile: usize) -> (score:
    i32)
    requires
        state.well_formed(),
    ensures
        state.own_place() matches Some(place) && score == plain_discard_score(
            state,
            &state.players@[place],
            hand_index,
            discard_pile,
        ),
{
    if hand_index >= state.hand.len() {
        return UNSCORED;
    }
    let card = state.hand[hand_index];
    let player = own_player(state);
    proof {
        state.lemma_own_place();
    }
    let existing_top = source_card(state, player, CardSource::Discard(discard_pile));
    let duplicate_bonus: i32 = match existing_top {
        Some(top) => if top == card {
            600
        } else {
            0
        },
        None => 0,
    };
    let pile_depth: i32 = if discard_pile < 4 {
        assert(player.discard_counts[discard_pile as int] <= COUNT_LIMIT);
        player.discard_counts[discard_pile] as i32
    } else {
        0
    };
    let spacing_penalty: i32 = pile_depth * 20;
    1_000 + duplicate_bonus - spacing_penalty - (hand_index as i32 * 10)
}

/// Compute the sequence of required values that must be played (in order) on a
/// specific build pile so that the stock card becomes playable on that pile.
pub(crate) fn required_values_for_pile(next_value: u8, stock: Card) -> (req: Vec<u8>)
    requires
        MIN_CARD_VALUE <= next_value <= MAX_CARD_VALUE,
        is_deck_card(stock),
    ensures
        req@ == required_values(next_value, stock),
        forall|i: int| 0 <= i < req@.len() ==> 1 <= #[trigger] req@[i] <= 12,
{
    match stock {
        Card::SkipBo => Vec::new(),
        Card::Number(s) => {
            if next_value == s {
                return Vec::new();
            }
            let mut req: Vec<u8> = Vec::new();
            if next_value < s {
                let mut v: u8 = next_value;
                while v < s
                    invariant
                        1 <= next_value <= v <= s <= 12,
                        req@ == Seq::new((v - next_value) as nat, |i: int| (next_value + i) as u8),
                    decreases s - v,
                {
                    req.push(v);
                    v = v + 1;
                    assert(req@ =~= Seq::new(
                        (v - next_value) as nat,
                        |i: int| (next_value + i) as u8,
                    ));
                }
            } else {
                let mut v: u8 = next_value;
                while v <= MAX_CARD_VALUE
                    invariant
                        1 <= next_value <= v <= 13,
                        req@ == Seq::new((v - next_value) as nat, |i: int| (next_value + i) as u8),
                    decreases 13 - v,
                {
                    req.push(v);
                    v = v + 1;
                    assert(req@ =~= Seq::new(
                        (v - next_value) as nat,
                        |i: int| (next_value + i) as u8,
                    ));
                }
                let ghost first = req@;
                let mut w: u8 = MIN_CARD_VALUE;
                while w < s
                    invariant
                        1 <= w <= s <= 12,
                        first == Seq::new(
                            (13 - next_value) as nat,
                            |i: int| (next_value + i) as u8,
                        ),
                        req@ == first + Seq::new((w - 1) as nat, |i: int| (1 + i) as u8),
                    decreases s - w,
                {
                    req.push(w);
                    w = w + 1;
                    assert(req@ =~= first + Seq::new((w - 1) as nat, |i: int| (1 + i) as u8));
                }
            }
            req
        },
    }
}

/// The build pile the wildcard on the stock goes to: the one that asks for the
/// highest value, and among those the one with the most cards; the last of equals.
pub(crate) fn best_pile_for_wildcard(state: &GameStateView) -> (best: usize)
    ensures
        best == wild_pile(state, 4),
        best < 4,
{
    let mut best: usize = 0;
    let mut best_value: u8 = state.build_piles[0].next_value;
    let mut best_len: u8 = (state.build_piles[0].cards.len() % 256) as u8;
    let mut index: usize = 1;
    while index < 4
        invariant
            1 <= index <= 4,
            best < index,
            best == wild_pile(state, index as int),
            best_value == state.build_piles[best as int].next_value,
            best_len == state.build_piles[best as int].cards@.len() % 256,
        decreases 4 - index,
    {
        let value = state.build_piles[index].next_value;
        let len: u8 = (state.build_piles[index].cards.len() % 256) as u8;
        if value > best_value || (value == best_value && len >= best_len) {
            best = index;
            best_value = value;
            best_len = len;
        }
        index = index + 1;
    }
    best
}

/// The build pile that asks for the value `s` and holds the most cards; the last of
/// equals.
pub(crate) fn best_pile_asking_for(state: &GameStateView, s: u8) -> (best: Option<usize>)
    ensures
        match best {
            Some(pile) => asking_pile(state, s, 4) == Some(pile as int) && pile < 4,
            None => asking_pile(state, s, 4) is None,
        },
{
    let mut best: Option<usize> = None;
    let mut best_len: usize = 0;
    let mut index: usize = 0;
    while index < 4
        invariant
            0 <= index <= 4,
            match best {
                Some(pile) => asking_pile(state, s, index as int) == Some(pile as int) && pile
                    < index && best_len == state.build_piles[pile as int].cards@.len(),
                None => asking_pile(state, s, index as int) is None,
            },
        decreases 4 - index,
    {
        let pile = &state.build_piles[index];
        if pile.next_value == s {
            let len = pile.cards.len();
            if best.is_none() || len >= best_len {
                best = Some(index);
                best_len = len;
            }
        }
        index = index + 1;
    }
    best
}

/// Sorts the cards at hand by what they can be played as.
pub(crate) fn index_sources(state: &GameStateView, player: &PlayerPublicState) -> (sources:
    Sources)
    requires
        state.well_formed(),
        state.own_place() matches Some(place) && 0 <= place < state.players@.len() && *player
            == state.players@[place],
    ensures
        sources.wf(state, player),
{
    let ghost hand = state.hand@;
    let mut by_value: Vec<Vec<CardSource>> = Vec::new();
    let mut value: usize = 0;
    while value < 13
        invariant
            0 <= value <= 13,
            by_value@.len() == value,
            forall|v: int| 0 <= v < value ==> (#[trigger] by_value@[v])@ == Seq::<
                CardSource,
            >::empty(),
        decreases 13 - value,
    {
        by_value.push(Vec::new());
        value = value + 1;
    }
    let mut skipbo_discards: Vec<CardSource> = Vec::new();
    let mut skipbo_hands: Vec<CardSource> = Vec::new();
    let mut idx: usize = 0;
    while idx < state.hand.len()
        invariant
            0 <= idx <= state.hand@.len(),
            hand == state.hand@,
            state.well_formed(),
            by_value@.len() == 13,
            forall|v: int|
                1 <= v < 13 ==> (#[trigger] by_value@[v])@ == hand_sources(
                    hand,
                    Card::Number(v as u8),
                    idx as int,
                ),
            skipbo_hands@ == hand_sources(hand, Card::SkipBo, idx as int),
        decreases state.hand@.len() - idx,
    {
        let card = state.hand[idx];
        assert(is_deck_card(state.hand@[idx as int]));
        match card {
            Card::Number(v) => {
                let ghost before = by_value@;
                by_value[v as usize].push(CardSource::Hand(idx));
                proof {
                    assert forall|w: int| 1 <= w < 13 implies (#[trigger] by_value@[w])@
                        == hand_sources(hand, Card::Number(w as u8), idx + 1) by {
                        if w != v {
                            assert(by_value@[w] == before[w]);
                        }
                    }
                }
            },
            Card::SkipBo => {
                skipbo_hands.push(CardSource::Hand(idx));
            },
        }
        idx = idx + 1;
    }
    let mut d_idx: usize = 0;
    while d_idx < 4
        invariant
            0 <= d_idx <= 4,
            hand == state.hand@,
            state.well_formed(),
            state.own_place() matches Some(place) && 0 <= place < state.players@.len() && *player
                == state.players@[place],
            by_value@.len() == 13,
            forall|v: int|
                1 <= v < 13 ==> (#[trigger] by_value@[v])@ == hand_sources(
                    hand,
                    Card::Number(v as u8),
                    hand.len() as int,
                ) + top_sources(player, Card::Number(v as u8), d_idx as int),
            skipbo_discards@ == top_sources(player, Card::SkipBo, d_idx as int),
        decreases 4 - d_idx,
    {
        let ghost before = by_value@;
        match player.discard_tops[d_idx] {
            Some(card) => {
                assert(is_deck_card_or_none(
                    state.players@[state.own_place()->Some_0].discard_tops[d_idx as int],
                ));
                match card {
                    Card::Number(v) => {
                        by_value[v as usize].push(CardSource::Discard(d_idx));
                    },
                    Card::SkipBo => {
                        skipbo_discards.push(CardSource::Discard(d_idx));
                    },
                }
            },
            None => {},
        }
        proof {
            assert forall|w: int| 1 <= w < 13 implies (#[trigger] by_value@[w])@ == hand_sources(
                hand,
                Card::Number(w as u8),
                hand.len() as int,
            ) + top_sources(player, Card::Number(w as u8), d_idx + 1) by {
                let held = hand_sources(hand, Card::Number(w as u8), hand.len() as int);
                let tops = top_sources(player, Card::Number(w as u8), d_idx as int);
                if player.discard_tops[d_idx as int] == Some(Card::Number(w as u8)) {
                    assert(by_value@[w]@ == before[w]@.push(CardSource::Discard(d_idx)));
                    assert((held + tops).push(CardSource::Discard(d_idx)) =~= held + tops.push(
                        CardSource::Discard(d_idx),
                    ));
                } else {
                    assert(by_value@[w] == before[w]);
                }
            }
        }
        d_idx = d_idx + 1;
    }
    Sources { by_value, skipbo_discards, skipbo_hands }
}

/// The first free source of a list that is a discard pile, or that is a hand card, as
/// `from_discard` says.
fn find_free(
    candidates: &Vec<CardSource>,
    from_discard: bool,
    used_hand: &Vec<bool>,
    used_discard: &[bool; 4],
) -> (found: Option<CardSource>)
    ensures
        found == first_free(candidates@, from_discard, used_hand@, used_discard@, 0),
        found matches Some(source) ==> is_free(source, used_hand@, used_discard@),
{
    let mut i: usize = 0;
    while i < candidates.len()
        invariant
            0 <= i <= candidates@.len(),
            first_free(candidates@, from_discard, used_hand@, used_discard@, 0) == first_free(
                candidates@,
                from_discard,
                used_hand@,
                used_discard@,
                i as int,
            ),
        decreases candidates@.len() - i,
    {
        let free = match candidates[i] {
            CardSource::Discard(d) => from_discard && d < 4 && !used_discard[d],
            CardSource::Hand(h) => !from_discard && h < used_hand.len() && !used_hand[h],
            CardSource::Stock => false,
        };
        if free {
            return Some(candidates[i]);
        }
        i = i + 1;
    }
    None
}

/// The first unused source for a value: a discard pile with the value on top, else
/// a hand card of the value, else a wildcard on a discard pile, else one in the hand.
pub(crate) fn pick_source(
    state: &GameStateView,
    player: &PlayerPublicState,
    sources: &Sources,
    need: u8,
    used_hand: &Vec<bool>,
    used_discard: &[bool; 4],
) -> (chosen: Option<CardSource>)
    requires
        sources.wf(state, player),
        1 <= need <= 12,
    ensures
        chosen == picked(state, player, need, used_hand@, used_discard@),
        chosen matches Some(source) ==> is_free(source, used_hand@, used_discard@),
{
    let candidates = &sources.by_value[need as usize];
    assert(sources.by_value@[need as int]@ == sources_holding(state, player, Card::Number(need)));
    if let Some(source) = find_free(candidates, true, used_hand, used_discard) {
        return Some(source);
    }
    if let Some(source) = find_free(candidates, false, used_hand, used_discard) {
        return Some(source);
    }
    if let Some(source) = find_free(&sources.skipbo_discards, true, used_hand, used_discard) {
        return Some(source);
    }
    find_free(&sources.skipbo_hands, false, used_hand, used_discard)
}

/// The plays that bring build pile `pile_idx` to ask for the stock card, each from
/// a source of its own, where the cards at hand allow it.
pub(crate) fn plan_for_pile(
    state: &GameStateView,
    player: &PlayerPublicState,
    sources: &Sources,
    pile_idx: usize,
    stock: Card,
    guard: bool,
) -> (plan: Option<Vec<Action>>)
    requires
        state.well_formed(),
        state.own_place() matches Some(place) && 0 <= place < state.players@.len() && *player
            == state.players@[place],
        sources.wf(state, player),
        pile_idx < 4,
        is_deck_card(stock),
    ensures
        match plan {
            Some(actions) => plan_for(state, player, pile_idx, stock, guard) == Some(actions@),
            None => plan_for(state, player, pile_idx, stock, guard) is None,
        },
{
    let pile = &state.build_piles[pile_idx];
    assert(1 <= state.build_piles[pile_idx as int].next_value <= 12);
    let required = required_values_for_pile(pile.next_value, stock);
    let mut used_hand: Vec<bool> = vec![false; state.hand.len()];
    let mut used_discard: [bool; 4] = [false;4];
    let mut actions: Vec<Action> = Vec::new();
    let mut step: usize = 0;
    let ghost whole = plan_for(state, player, pile_idx, stock, guard);
    proof {
        assert(used_hand@ =~= Seq::new(state.hand@.len(), |i: int| false));
        assert(used_discard@ =~= Seq::new(4, |i: int| false));
        let rest = plan_from(
            state,
            player,
            required@,
            0,
            used_hand@,
            used_discard@,
            pile_idx,
            guard,
        );
        if rest is Some {
            assert(actions@ + rest->Some_0 =~= rest->Some_0);
        }
    }
    while step < required.len()
        invariant
            0 <= step <= required@.len(),
            state.well_formed(),
            state.own_place() matches Some(place) && 0 <= place < state.players@.len() && *player
                == state.players@[place],
            sources.wf(state, player),
            used_hand@.len() == state.hand@.len(),
            forall|i: int| 0 <= i < required@.len() ==> 1 <= #[trigger] required@[i] <= 12,
            whole == plan_for(state, player, pile_idx, stock, guard),
            whole == match plan_from(
                state,
                player,
                required@,
                step as int,
                used_hand@,
                used_discard@,
                pile_idx,
                guard,
            ) {
                Some(rest) => Some(actions@ + rest),
                None => None::<Seq<Action>>,
            },
        decreases required@.len() - step,
    {
        let need = required[step];
        let ghost marks_hand = used_hand@;
        let ghost marks_discard = used_discard@;
        let ghost so_far = actions@;
        let chosen = pick_source(state, player, sources, need, &used_hand, &used_discard);
        let source = match chosen {
            Some(source) => source,
            None => {
                return None;
            },
        };
        let action = Action::Play { source, build_pile: pile_idx };
        match source {
            CardSource::Discard(d) => {
                used_discard[d] = true;
            },
            CardSource::Hand(h) => {
                used_hand.set(h, true);
            },
            CardSource::Stock => {},
        }
        if guard && should_block_play(state, &action) {
            return None;
        }
        actions.push(action);
        proof {
            assert(used_hand@ =~= hand_marks(marks_hand, source));
            assert(used_discard@ =~= discard_marks(marks_discard, source));
            let rest = plan_from(
                state,
                player,
                required@,
                step + 1,
                used_hand@,
                used_discard@,
                pile_idx,
                guard,
            );
            if rest is Some {
                assert(so_far + (seq![action] + rest->Some_0) =~= actions@ + rest->Some_0);
            }
        }
        step = step + 1;
    }
    proof {
        assert(actions@ + Seq::<Action>::empty() =~= actions@);
    }
    Some(actions)
}

/// Try to plan a minimal sequence of plays (using hand + discard tops) to make the
/// stock card playable, and return the first action of that plan if it is feasible.
/// With `guard`, no play of the plan may feed the next player's stock card.
pub(crate) fn can_play_stock(state: &GameStateView, legal_actions: &[Action], guard: bool) -> (first:
    Option<Action>)
    requires
        state.well_formed(),
    ensures
        state.own_place() matches Some(place) && first == stock_plan(
            state,
            &state.players@[place],
            legal_actions@,
            guard,
        ),
        first matches Some(action) ==> legal_actions@.contains(action),
{
    let player = own_player(state);
    proof {
        state.lemma_own_place();
    }
    let stock = match player.stock_top {
        Some(card) => card,
        None => {
            return None;
        },
    };
    assert(is_deck_card_or_none(
        state.players@[state.own_place()->Some_0].stock_top,
    ));
    let ready: Option<usize> = match stock {
        Card::SkipBo => Some(best_pile_for_wildcard(state)),
        Card::Number(s) => best_pile_asking_for(state, s),
    };
    match ready {
        Some(best_idx) => {
            let action = Action::Play { source: CardSource::Stock, build_pile: best_idx };
            if contains_action(legal_actions, action) && !(guard && should_block_play(
                state,
                &action,
            )) {
                return Some(action);
            }
        },
        None => {},
    }
    let sources = index_sources(state, player);
    let mut best: Option<(usize, Vec<Action>)> = None;
    let mut pile_idx: usize = 0;
    while pile_idx < 4
        invariant
            0 <= pile_idx <= 4,
            state.well_formed(),
            state.own_place() matches Some(place) && 0 <= place < state.players@.len() && *player
                == state.players@[place],
            is_deck_card(stock),
            sources.wf(state, player),
            match best {
                Some(found) => best_plan(state, player, stock, guard, pile_idx as int) == Some(
                    (found.0, found.1@),
                ) && found.0 < 4,
                None => best_plan(state, player, stock, guard, pile_idx as int) is None,
            },
        decreases 4 - pile_idx,
    {
        match plan_for_pile(state, player, &sources, pile_idx, stock, guard) {
            Some(actions) => {
                let better = match &best {
                    None => true,
                    Some(found) => actions.len() < found.1.len(),
                };
                if better {
                    best = Some((pile_idx, actions));
                }
            },
            None => {},
        }
        pile_idx = pile_idx + 1;
    }
    match best {
        Some((pile_idx, actions)) => {
            let first = if actions.len() == 0 {
                Action::Play { source: CardSource::Stock, build_pile: pile_idx }
            } else {
                actions[0]
            };
            if contains_action(legal_actions, first) && !(guard && should_block_play(
                state,
                &first,
            )) {
                return Some(first);
            }
        },
        None => {},
    }
    None
}

/// The player in the seat after the current one, where the snapshot lists one.
pub(crate) fn next_player(state: &GameStateView) -> (next: Option<&PlayerPublicState>)
    requires
        state.well_formed(),
    ensures
        match next {
            Some(player) => state.place_of(next_seat(state)) matches Some(place) && *player
                == state.players@[place],
            None => state.place_of(next_seat(state)) is None,
        },
{
    let next_id = (state.current_player + 1) % state.settings.num_players;
    match state.index_of_player(next_id) {
        Some(place) => Some(&state.players[place]),
        None => None,
    }
}

/// Returns true if the given play action would set the pile to a value that matches
/// the next player's numeric stock-top card.
pub(crate) fn should_block_play(state: &GameStateView, action: &Action) -> (block: bool)
    requires
        state.well_formed(),
    ensures
        state.own_place() matches Some(place) && block == feeds_next_player(
            state,
            &state.players@[place],
            *action,
        ),
{
    let own = own_player(state);
    match action {
        Action::Play { source, build_pile } => {
            if *build_pile >= 4 {
                return false;
            }
            let pile = &state.build_piles[*build_pile];
            assert(1 <= state.build_piles[*build_pile as int].next_value <= 12);
            let card = match source_card(state, own, *source) {
                Some(card) => card,
                None => {
                    return false;
                },
            };
            proof {
                lemma_shown_card_is_deck_card(state, *source);
            }
            let played_value: u8 = match card {
                Card::Number(v) => v,
                Card::SkipBo => pile.next_value,
            };
            let above: u8 = if played_value == MAX_CARD_VALUE {
                1
            } else {
                played_value + 1
            };
            match next_player(state) {
                Some(next) => match next.stock_top {
                    Some(Card::Number(v)) => v == above,
                    _ => false,
                },
                None => false,
            }
        },
        _ => false,
    }
}

/// Whether the play goes onto one of exactly two build piles that ask for the same
/// value.
pub(crate) fn breaks_pair_duplication(state: &GameStateView, action: &Action) -> (breaks: bool)
    ensures
        breaks == breaks_pair(state, *action),
{
    match action {
        Action::Play { build_pile, .. } => {
            if *build_pile >= 4 {
                return false;
            }
            let old_next = state.build_piles[*build_pile].next_value;
            let mut count: usize = 0;
            let mut index: usize = 0;
            while index < 4
                invariant
                    0 <= index <= 4,
                    count == (if index > 0 {
                        asks_for(state, 0, old_next)
                    } else {
                        0
                    }) + (if index > 1 {
                        asks_for(state, 1, old_next)
                    } else {
                        0
                    }) + (if index > 2 {
                        asks_for(state, 2, old_next)
                    } else {
                        0
                    }) + (if index > 3 {
                        asks_for(state, 3, old_next)
                    } else {
                        0
                    }),
                decreases 4 - index,
            {
                if state.build_piles[index].next_value == old_next {
                    count = count + 1;
                }
                index = index + 1;
            }
            count == 2
        },
        _ => false,
    }
}

/// A card that the snapshot shows its own player is a card of the deck.
pub proof fn lemma_shown_card_is_deck_card(state: &GameStateView, source: CardSource)
    requires
        state.well_formed(),
    ensures
        state.own_place() matches Some(place) && (shown_card(
            state,
            &state.players@[place],
            source,
        ) matches Some(card) ==> is_deck_card(card)),
{
    state.lemma_own_place();
    let place = state.own_place()->Some_0;
    match source {
        CardSource::Hand(index) => {},
        CardSource::Stock => {
            assert(is_deck_card_or_none(state.players@[place].stock_top));
        },
        CardSource::Discard(index) => {
            if index < 4 {
                assert(is_deck_card_or_none(
                    state.players@[place].discard_tops[index as int],
                ));
            }
        },
    }
}

/// Extract the numeric card tied to a legal play action, if any.
pub(crate) fn played_card_value(state: &GameStateView, action: &Action, with_stock: bool) -> (value:
    Option<u8>)
    requires
        state.well_formed(),
    ensures
        state.own_place() matches Some(place) && value == played_value(
            state,
            &state.players@[place],
            *action,
            with_stock,
        ),
{
    let player = own_player(state);
    match action {
        Action::Play { source, .. } => {
            let from_stock = match source {
                CardSource::Stock => true,
                _ => false,
            };
            if from_stock && !with_stock {
                None
            } else {
                match source_card(state, player, *source) {
                    Some(Card::Number(v)) => Some(v),
                    _ => None,
                }
            }
        },
        _ => None,
    }
}

/// The first action of the list that is no play, or a play that does not feed the next
/// player's stock card.
pub(crate) fn first_unblocked(state: &GameStateView, legal_actions: &[Action]) -> (found: Option<
    Action,
>)
    requires
        state.well_formed(),
    ensures
        state.own_place() matches Some(place) && found == first_sparing_from(
            state,
            &state.players@[place],
            legal_actions@,
            0,
        ),
        found matches Some(action) ==> legal_actions@.contains(action),
{
    let ghost player = &state.players@[state.own_place()->Some_0];
    let mut index: usize = 0;
    while index < legal_actions.len()
        invariant
            0 <= index <= legal_actions@.len(),
            state.well_formed(),
            player == &state.players@[state.own_place()->Some_0],
            first_sparing_from(state, player, legal_actions@, 0) == first_sparing_from(
                state,
                player,
                legal_actions@,
                index as int,
            ),
        decreases legal_actions@.len() - index,
    {
        let action = legal_actions[index];
        let is_play = match action {
            Action::Play { .. } => true,
            _ => false,
        };
        if !is_play || !should_block_play(state, &action) {
            return Some(action);
        }
        index = index + 1;
    }
    None
}

/// The stock card's value as the least value worth playing: 1 for the wildcard and
/// for an empty stock.
pub(crate) fn stock_threshold(state: &GameStateView) -> (value: u8)
    requires
        state.well_formed(),
    ensures
        state.own_place() matches Some(place) && value == threshold(&state.players@[place]),
{
    match own_player(state).stock_top {
        Some(Card::Number(v)) => v,
        _ => 1,
    }
}

/// What a play is worth as a single play under a policy.
pub(crate) fn play_worth(state: &GameStateView, action: &Action, policy: Policy) -> (value: Option<
    (u8, usize),
>)
    requires
        state.well_formed(),
    ensures
        state.own_place() matches Some(place) && value == worth(
            state,
            &state.players@[place],
            policy,
            *action,
        ),
{
    let avoided = match policy.avoid {
        Avoid::Nothing => false,
        Avoid::Feeding => should_block_play(state, action),
        Avoid::PairBreaking => breaks_pair_duplication(state, action),
    };
    if avoided {
        return None;
    }
    let stock_value = stock_threshold(state);
    match played_card_value(state, action, policy.with_stock) {
        Some(v) => {
            let high_enough = match policy.floor {
                Some(floor) => v >= floor && v > stock_value,
                None => v >= stock_value,
            };
            if high_enough {
                let pile_len: usize = match action {
                    Action::Play { build_pile, .. } => if *build_pile < 4 {
                        state.build_piles[*build_pile].cards.len()
                    } else {
                        0
                    },
                    _ => 0,
                };
                Some((v, pile_len))
            } else {
                None
            }
        },
        None => None,
    }
}

/// The play of the list that moves the highest numbered card among those worth
/// playing under the policy; among equals the one onto the build pile with the most
/// cards, and the first of those.
pub(crate) fn best_qualifying_play(state: &GameStateView, legal_actions: &[Action], policy: Policy) -> (best:
    Option<Action>)
    requires
        state.well_formed(),
    ensures
        state.own_place() matches Some(place) && is_top_play(
            state,
            &state.players@[place],
            policy,
            legal_actions@,
            best,
        ),
        best matches Some(action) ==> legal_actions@.contains(action),
{
    let ghost player = &state.players@[state.own_place()->Some_0];
    let mut best_play: Option<(u8, usize, Action)> = None;
    let ghost mut best_place: int = 0;
    let mut index: usize = 0;
    while index < legal_actions.len()
        invariant
            0 <= index <= legal_actions@.len(),
            state.well_formed(),
            player == &state.players@[state.own_place()->Some_0],
            best_play is None ==> forall|i: int|
                0 <= i < index ==> worth(state, player, policy, #[trigger] legal_actions@[i])
                    is None,
            best_play matches Some(found) ==> {
                &&& 0 <= best_place < index
                &&& legal_actions@[best_place] == found.2
                &&& worth(state, player, policy, found.2) == Some((found.0, found.1))
                &&& forall|i: int|
                    0 <= i < index && worth(state, player, policy, #[trigger] legal_actions@[i])
                        is Some ==> !worth_more(
                        worth(state, player, policy, legal_actions@[i])->Some_0,
                        (found.0, found.1),
                    )
                &&& forall|i: int|
                    0 <= i < best_place && worth(
                        state,
                        player,
                        policy,
                        #[trigger] legal_actions@[i],
                    ) is Some ==> worth_more(
                        (found.0, found.1),
                        worth(state, player, policy, legal_actions@[i])->Some_0,
                    )
            },
        decreases legal_actions@.len() - index,
    {
        let action = legal_actions[index];
        match play_worth(state, &action, policy) {
            Some((v, pile_len)) => {
                let better = match &best_play {
                    None => true,
                    Some(found) => v > found.0 || (v == found.0 && pile_len > found.1),
                };
                if better {
                    best_play = Some((v, pile_len, action));
                    proof {
                        best_place = index as int;
                    }
                }
            },
            None => {},
        }
        index = index + 1;
    }
    match best_play {
        Some(found) => {
            proof {
                assert(is_top_play_at(state, player, policy, legal_actions@, best_place));
            }
            Some(found.2)
        },
        None => None,
    }
}

/// The score of a discard under a way of scoring.
pub(crate) fn score_discard_by(
    state: &GameStateView,
    scoring: Scoring,
    hand_index: usize,
    discard_pile: usize,
) -> (score: i32)
    requires
        state.well_formed(),
    ensures
        state.own_place() matches Some(place) && score == scored(
            state,
            &state.players@[place],
            scoring,
            hand_index,
            discard_pile,
        ),
{
    match scoring {
        Scoring::Plain => plain_score_discard(state, hand_index, discard_pile),
        Scoring::Stacking => stacking_score_discard(state, hand_index, discard_pile),
    }
}

/// Discard scoring that favours stacking a card on its like or on the card one above,
/// and a shallow pile over a deep one.
pub(crate) fn stacking_score_discard(state: &GameStateView, hand_index: usize, discard_pile: usize) -> (score:
    i32)
    requires
        state.well_formed(),
    ensures
        state.own_place() matches Some(place) && score == stacking_discard_score(
            state,
            &state.players@[place],
            hand_index,
            discard_pile,
        ),
{
    if hand_index >= state.hand.len() {
        return UNSCORED;
    }
    let card = state.hand[hand_index];
    let player = own_player(state);
    proof {
        state.lemma_own_place();
        lemma_shown_card_is_deck_card(state, CardSource::Discard(discard_pile));
        assert(is_deck_card(state.hand@[hand_index as int]));
    }
    let existing_top = source_card(state, player, CardSource::Discard(discard_pile));
    let duplicate_bonus: i32 = match existing_top {
        Some(top) => if top == card {
            600
        } else {
            0
        },
        None => 0,
    };
    let one_below_bonus: i32 = match (existing_top, card) {
        (Some(Card::Number(top_v)), Card::Number(v)) => if v + 1 == top_v {
            80
        } else {
            0
        },
        _ => 0,
    };
    let pile_depth: i32 = if discard_pile < 4 {
        assert(player.discard_counts[discard_pile as int] <= COUNT_LIMIT);
        player.discard_counts[discard_pile] as i32
    } else {
        0
    };
    let spacing_penalty: i32 = pile_depth * 20;
    1_000 + duplicate_bonus + one_below_bonus - spacing_penalty
}

/// The discard of the list with the highest score; the first of equals.
pub(crate) fn best_discard(state: &GameStateView, legal_actions: &[Action], scoring: Scoring) -> (best:
    Option<Action>)
    requires
        state.well_formed(),
    ensures
        state.own_place() matches Some(place) && is_top_discard(
            state,
            &state.players@[place],
            scoring,
            legal_actions@,
            best,
        ),
        best matches Some(action) ==> legal_actions@.contains(action),
{
    let ghost player = &state.players@[state.own_place()->Some_0];
    let mut best: Option<(i32, Action)> = None;
    let ghost mut best_place: int = 0;
    let mut index: usize = 0;
    while index < legal_actions.len()
        invariant
            0 <= index <= legal_actions@.len(),
            state.well_formed(),
            player == &state.players@[state.own_place()->Some_0],
            best is None ==> forall|i: int|
                0 <= i < index ==> !((#[trigger] legal_actions@[i]) is Discard),
            best matches Some(found) ==> {
                &&& 0 <= best_place < index
                &&& legal_actions@[best_place] == found.1
                &&& found.1 is Discard
                &&& found.0 == scored(
                    state,
                    player,
                    scoring,
                    found.1->hand_index,
                    found.1->discard_pile,
                )
                &&& forall|i: int|
                    0 <= i < index && (#[trigger] legal_actions@[i]) is Discard ==> scored(
                        state,
                        player,
                        scoring,
                        legal_actions@[i]->hand_index,
                        legal_actions@[i]->discard_pile,
                    ) <= found.0
                &&& forall|i: int|
                    0 <= i < best_place && (#[trigger] legal_actions@[i]) is Discard ==> scored(
                        state,
                        player,
                        scoring,
                        legal_actions@[i]->hand_index,
                        legal_actions@[i]->discard_pile,
                    ) < found.0
            },
        decreases legal_actions@.len() - index,
    {
        let action = legal_actions[index];
        match action {
            Action::Discard { hand_index, discard_pile } => {
                let score = score_discard_by(state, scoring, hand_index, discard_pile);
                let better = match &best {
                    Some(found) => score > found.0,
                    None => true,
                };
                if better {
                    best = Some((score, action));
                    proof {
                        best_place = index as int;
                    }
                }
            },
            _ => {},
        }
        index = index + 1;
    }
    match best {
        Some(found) => {
            proof {
                assert(is_top_discard_at(state, player, scoring, legal_actions@, best_place));
            }
            Some(found.1)
        },
        None => None,
    }
}

/// Every value of the four is between 1 and 12.
pub open spec fn piles_in_range(piles: Seq<u8>) -> bool {
    piles.len() == 4 && forall|i: int| 0 <= i < 4 ==> 1 <= #[trigger] piles[i] <= 12
}

/// The value that follows a value on a build pile.
pub(crate) fn inc(v: u8) -> (above: u8)
    requires
        1 <= v <= 12,
    ensures
        above == value_above(v),
        1 <= above <= 12,
{
    if v == MAX_CARD_VALUE {
        1
    } else {
        v + 1
    }
}

/// Looks for an order in which every hand card that is not yet used can be played,
/// given what the build piles ask for, and leaves the plays in `path`. The first play
/// of the order must be one of the listed actions. Where there is no such order,
/// everything is left as it was.
pub(crate) fn dfs(
    depth: usize,
    piles: &mut [u8; 4],
    used: &mut Vec<bool>,
    hand: &Vec<Card>,
    path: &mut Vec<(usize, usize)>,
    legal_actions: &[Action],
) -> (found: bool)
    requires
        depth <= hand@.len(),
        old(used)@.len() == hand@.len(),
        piles_in_range(old(piles)@),
    ensures
        match search(hand@, legal_actions@, depth as int, old(piles)@, old(used)@, old(path)@, 0, 0) {
            Some(order) => found && final(path)@ == order,
            None => !found && final(piles)@ == old(piles)@ && final(used)@ == old(used)@
                && final(path)@ == old(path)@,
        },
    decreases hand@.len() - depth,
{
    if depth == hand.len() {
        return true;
    }
    let ghost whole = search(
        hand@,
        legal_actions@,
        depth as int,
        piles@,
        used@,
        path@,
        0,
        0,
    );
    let ghost piles0 = piles@;
    let ghost used0 = used@;
    let ghost path0 = path@;
    let mut hi: usize = 0;
    while hi < hand.len()
        invariant
            0 <= hi <= hand@.len() <= usize::MAX,
            depth < hand@.len(),
            piles@ == piles0,
            used@ == used0,
            path@ == path0,
            piles0 == old(piles)@,
            used0 == old(used)@,
            path0 == old(path)@,
            used0.len() == hand@.len(),
            piles_in_range(piles0),
            whole == search(hand@, legal_actions@, depth as int, piles0, used0, path0, 0, 0),
            whole == search(hand@, legal_actions@, depth as int, piles0, used0, path0, hi as int, 0),
        decreases hand@.len() - hi,
    {
        if !used[hi] {
            let card = hand[hi];
            let mut pi: usize = 0;
            while pi < 4
                invariant
                    0 <= pi <= 4,
                    hi < hand@.len() <= usize::MAX,
                    depth < hand@.len(),
                    card == hand@[hi as int],
                    piles@ == piles0,
                    used@ == used0,
                    path@ == path0,
                    piles0 == old(piles)@,
                    used0 == old(used)@,
                    path0 == old(path)@,
                    used0.len() == hand@.len(),
                    !used0[hi as int],
                    piles_in_range(piles0),
                    whole == search(hand@, legal_actions@, depth as int, piles0, used0, path0, 0, 0),
                    whole == search(
                        hand@,
                        legal_actions@,
                        depth as int,
                        piles0,
                        used0,
                        path0,
                        hi as int,
                        pi as int,
                    ),
                decreases 4 - pi,
            {
                let fits = match card {
                    Card::SkipBo => true,
                    Card::Number(v) => piles[pi] == v,
                };
                let allowed = fits && (path.len() > 0 || contains_action(
                    legal_actions,
                    Action::Play { source: CardSource::Hand(hi), build_pile: pi },
                ));
                if allowed {
                    let deeper: usize = depth + 1;
                    let old = piles[pi];
                    piles[pi] = inc(old);
                    used.set(hi, true);
                    path.push((hi, pi));
                    proof {
                        assert(piles@ =~= piles0.update(pi as int, value_above(piles0[pi as int])));
                        assert(used@ =~= used0.update(hi as int, true));
                        assert(path@ =~= path0.push((hi, pi)));
                    }
                    if dfs(deeper, piles, used, hand, path, legal_actions) {
                        return true;
                    }
                    path.pop();
                    used.set(hi, false);
                    piles[pi] = old;
                    proof {
                        assert(piles@ =~= piles0);
                        assert(used@ =~= used0);
                        assert(path@ =~= path0);
                    }
                }
                pi = pi + 1;
            }
        }
        hi = hi + 1;
    }
    false
}

/// Whether some card of the hand can be played right away: a wildcard, or a
/// numbered card that a build pile asks for.
pub(crate) fn any_hand_card_playable(state: &GameStateView) -> (playable: bool)
    ensures
        playable == any_playable(state),
{
    let mut index: usize = 0;
    while index < state.hand.len()
        invariant
            0 <= index <= state.hand@.len(),
            forall|h: int, p: int|
                0 <= h < index && 0 <= p < 4 ==> !fits(
                    #[trigger] state.hand@[h],
                    (#[trigger] state.build_piles[p]).next_value,
                ),
        decreases state.hand@.len() - index,
    {
        match state.hand[index] {
            Card::SkipBo => {
                assert(fits(state.hand@[index as int], state.build_piles[0].next_value));
                return true;
            },
            Card::Number(v) => {
                let mut pile: usize = 0;
                while pile < 4
                    invariant
                        0 <= pile <= 4,
                        0 <= index < state.hand@.len(),
                        state.hand@[index as int] == Card::Number(v),
                        forall|p: int|
                            0 <= p < pile ==> !fits(
                                state.hand@[index as int],
                                (#[trigger] state.build_piles[p]).next_value,
                            ),
                    decreases 4 - pile,
                {
                    if state.build_piles[pile].next_value == v {
                        assert(fits(
                            state.hand@[index as int],
                            state.build_piles[pile as int].next_value,
                        ));
                        return true;
                    }
                    pile = pile + 1;
                }
            },
        }
        index = index + 1;
    }
    false
}

/// The first play of an order in which the whole hand can be played, where there
/// is one.
pub(crate) fn can_play_all_hand(state: &GameStateView, legal_actions: &[Action]) -> (first: Option<
    Action,
>)
    requires
        state.well_formed(),
    ensures
        first == hand_plan(state, legal_actions@),
        first matches Some(action) ==> legal_actions@.contains(action),
{
    let hand_len = state.hand.len();
    if hand_len == 0 {
        return None;
    }
    if !any_hand_card_playable(state) {
        return None;
    }
    let mut piles_next: [u8; 4] = [
        state.build_piles[0].next_value,
        state.build_piles[1].next_value,
        state.build_piles[2].next_value,
        state.build_piles[3].next_value,
    ];
    let mut used: Vec<bool> = vec![false; hand_len];
    let mut path: Vec<(usize, usize)> = Vec::with_capacity(hand_len);
    proof {
        assert(piles_next@ =~= asked_values(state));
        assert(used@ =~= Seq::new(state.hand@.len(), |i: int| false));
        assert(path@ =~= Seq::<(usize, usize)>::empty());
        assert forall|i: int| 0 <= i < 4 implies 1 <= #[trigger] piles_next@[i] <= 12 by {
            assert(1 <= state.build_piles[i].next_value <= 12);
        }
    }
    if dfs(0, &mut piles_next, &mut used, &state.hand, &mut path, legal_actions) {
        if path.len() > 0 {
            let (hi, pi) = path[0];
            let action = Action::Play { source: CardSource::Hand(hi), build_pile: pi };
            if contains_action(legal_actions, action) {
                return Some(action);
            }
        }
    }
    None
}

/// `action` is what a stock-first agent with the given policy takes from the list:
///
/// 1. the first step towards playing the stock card, where there is one;
/// 2. else, for a policy that searches the hand, the first play of an order in which
///    the whole hand can be played;
/// 3. else the single play that is worth most;
/// 4. else the discard with the highest score;
/// 5. else, for a policy that spares the next player, the first action that does;
/// 6. else the first action.
pub open spec fn is_stock_first_choice(
    state: &GameStateView,
    player: &PlayerPublicState,
    policy: Policy,
    legal: Seq<Action>,
    action: Action,
) -> bool {
    if stock_plan(state, player, legal, policy.guard) is Some {
        Some(action) == stock_plan(state, player, legal, policy.guard)
    } else if policy.search_hand && hand_plan(state, legal) is Some {
        Some(action) == hand_plan(state, legal)
    } else if exists|i: int| 0 <= i < legal.len() && worth(state, player, policy, legal[i]) is Some {
        is_top_play(state, player, policy, legal, Some(action))
    } else if exists|i: int| 0 <= i < legal.len() && legal[i] is Discard {
        is_top_discard(state, player, policy.scoring, legal, Some(action))
    } else if policy.spare_next && first_sparing_from(state, player, legal, 0) is Some {
        Some(action) == first_sparing_from(state, player, legal, 0)
    } else {
        action == legal[0]
    }
}

/// The action a stock-first agent with the given policy takes from a list.
pub(crate) fn stock_first_action(state: &GameStateView, legal_actions: &[Action], policy: Policy) -> (action:
    Action)
    requires
        state.well_formed(),
        legal_actions@.len() > 0,
    ensures
        state.own_place() matches Some(place) && is_stock_first_choice(
            state,
            &state.players@[place],
            policy,
            legal_actions@,
            action,
        ),
        legal_actions@.contains(action),
{
    let ghost player = &state.players@[state.own_place()->Some_0];
    if let Some(action) = can_play_stock(state, legal_actions, policy.guard) {
        return action;
    }
    if policy.search_hand {
        if let Some(action) = can_play_all_hand(state, legal_actions) {
            return action;
        }
    }
    match best_qualifying_play(state, legal_actions, policy) {
        Some(action) => {
            proof {
                let place = choose|place: int|
                    #[trigger] is_top_play_at(state, player, policy, legal_actions@, place)
                        && legal_actions@[place] == action;
                assert(worth(state, player, policy, legal_actions@[place]) is Some);
            }
            return action;
        },
        None => {},
    }
    match best_discard(state, legal_actions, policy.scoring) {
        Some(action) => {
            proof {
                let place = choose|place: int|
                    #[trigger] is_top_discard_at(
                        state,
                        player,
                        policy.scoring,
                        legal_actions@,
                        place,
                    ) && legal_actions@[place] == action;
                assert(legal_actions@[place] is Discard);
            }
            return action;
        },
        None => {},
    }
    if policy.spare_next {
        if let Some(action) = first_unblocked(state, legal_actions) {
            return action;
        }
    }
    legal_actions[0]
}

} // verus!
