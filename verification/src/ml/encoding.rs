//! The action space: every action an agent can name gets an index of its own.
//!
//! The indices run over the plays from the hand, by hand index and build pile, then the
//! plays from the stock, by build pile, then the plays from the discard piles, by
//! discard pile and build pile, then the discards, by hand index and discard pile, and
//! last the end of the turn.

use vstd::prelude::*;
use crate::action::{Action, CardSource};
use crate::card::{Card, BUILD_PILE_COUNT, DISCARD_PILE_COUNT, HAND_SIZE, MAX_CARD_VALUE};
use crate::state::GameStateView;

verus! {

/// Number of kinds of card: the twelve values and the wildcard.
pub const CARD_BUCKETS: usize = 13;

/// Number of features that describe the build piles.
pub const BUILD_FEATURES: usize = 8;

/// Number of features that describe the own stock.
pub const CURRENT_PLAYER_FEATURES: usize = 3;

/// Number of features that describe the own hand.
pub const HAND_FEATURES: usize = 13;

/// Number of features that describe the own discard piles.
pub const DISCARD_FEATURES: usize = 56;

/// Number of features that describe the players at the table.
pub const PLAYER_FEATURES: usize = 18;

/// Number of features of a snapshot.
pub const STATE_FEATURES: usize = 98;

/// Number of plays from the hand.
pub const HAND_PLAY_ACTIONS: usize = 20;

/// Number of plays from the stock.
pub const STOCK_PLAY_ACTIONS: usize = 4;

/// Number of plays from the discard piles.
pub const DISCARD_PLAY_ACTIONS: usize = 16;

/// Number of discards.
pub const DISCARD_ACTIONS: usize = 20;

/// Number of ways to end the turn.
pub const END_TURN_ACTIONS: usize = 1;

/// Index of the first play from the hand.
pub const HAND_PLAY_OFFSET: usize = 0;

/// Index of the first play from the stock.
pub const STOCK_PLAY_OFFSET: usize = 20;

/// Index of the first play from a discard pile.
pub const DISCARD_PLAY_OFFSET: usize = 24;

/// Index of the first discard.
pub const DISCARD_OFFSET: usize = 40;

/// Index of the end of the turn.
pub const END_TURN_INDEX: usize = 60;

/// Number of indices.
pub const MAX_ACTIONS: usize = 61;

/// The index of an action, for an action whose hand index, discard pile and build pile
/// lie within the fixed counts; other actions have none.
pub open spec fn index_of(action: Action) -> Option<usize> {
    match action {
        Action::Play { source, build_pile } => if build_pile >= BUILD_PILE_COUNT {
            None
        } else {
            match source {
                CardSource::Hand(hand_index) => if hand_index >= HAND_SIZE {
                    None
                } else {
                    Some((HAND_PLAY_OFFSET + hand_index * BUILD_PILE_COUNT + build_pile) as usize)
                },
                CardSource::Stock => Some((STOCK_PLAY_OFFSET + build_pile) as usize),
                CardSource::Discard(discard_index) => if discard_index >= DISCARD_PILE_COUNT {
                    None
                } else {
                    Some(
                        (DISCARD_PLAY_OFFSET + discard_index * BUILD_PILE_COUNT
                            + build_pile) as usize,
                    )
                },
            }
        },
        Action::Discard { hand_index, discard_pile } => if hand_index >= HAND_SIZE || discard_pile
            >= DISCARD_PILE_COUNT {
            None
        } else {
            Some((DISCARD_OFFSET + hand_index * DISCARD_PILE_COUNT + discard_pile) as usize)
        },
        Action::EndTurn => Some(END_TURN_INDEX),
    }
}

/// The action with a given index, for an index below [`MAX_ACTIONS`]; other indices
/// have none.
pub open spec fn action_at(index: usize) -> Option<Action> {
    if index < STOCK_PLAY_OFFSET {
        Some(
            Action::Play {
                source: CardSource::Hand((index / BUILD_PILE_COUNT) as usize),
                build_pile: (index % BUILD_PILE_COUNT) as usize,
            },
        )
    } else if index < DISCARD_PLAY_OFFSET {
        Some(
            Action::Play {
                source: CardSource::Stock,
                build_pile: (index - STOCK_PLAY_OFFSET) as usize,
            },
        )
    } else if index < DISCARD_OFFSET {
        Some(
            Action::Play {
                source: CardSource::Discard(
                    ((index - DISCARD_PLAY_OFFSET) / BUILD_PILE_COUNT as int) as usize,
                ),
                build_pile: ((index - DISCARD_PLAY_OFFSET) % BUILD_PILE_COUNT as int) as usize,
            },
        )
    } else if index < END_TURN_INDEX {
        Some(
            Action::Discard {
                hand_index: ((index - DISCARD_OFFSET) / DISCARD_PILE_COUNT as int) as usize,
                discard_pile: ((index - DISCARD_OFFSET) % DISCARD_PILE_COUNT as int) as usize,
            },
        )
    } else if index == END_TURN_INDEX {
        Some(Action::EndTurn)
    } else {
        None
    }
}

/// The numbering of the actions.
pub struct ActionSpace;

impl ActionSpace {
    /// Number of indices.
    pub const MAX: usize = 61;

    /// The index of an action, where it has one.
    pub fn action_index(action: &Action) -> (index: Option<usize>)
        ensures
            index == index_of(*action),
            index matches Some(i) ==> i < MAX_ACTIONS,
    {
        match action {
            Action::Play { source, build_pile } => {
                if *build_pile >= BUILD_PILE_COUNT {
                    return None;
                }
                match source {
                    CardSource::Hand(hand_index) => {
                        if *hand_index >= HAND_SIZE {
                            None
                        } else {
                            Some(HAND_PLAY_OFFSET + *hand_index * BUILD_PILE_COUNT + *build_pile)
                        }
                    },
                    CardSource::Stock => Some(STOCK_PLAY_OFFSET + *build_pile),
                    CardSource::Discard(discard_index) => {
                        if *discard_index >= DISCARD_PILE_COUNT {
                            None
                        } else {
                            let relative: usize = *discard_index * BUILD_PILE_COUNT + *build_pile;
                            Some(DISCARD_PLAY_OFFSET + relative)
                        }
                    },
                }
            },
            Action::Discard { hand_index, discard_pile } => {
                if *hand_index >= HAND_SIZE || *discard_pile >= DISCARD_PILE_COUNT {
                    None
                } else {
                    Some(DISCARD_OFFSET + *hand_index * DISCARD_PILE_COUNT + *discard_pile)
                }
            },
            Action::EndTurn => Some(END_TURN_INDEX),
        }
    }

    /// The action with a given index, where there is one.
    pub fn index_to_action(index: usize) -> (action: Option<Action>)
        ensures
            action == action_at(index),
            action is Some <==> index < MAX_ACTIONS,
    {
        if index < STOCK_PLAY_OFFSET {
            let relative: usize = index - HAND_PLAY_OFFSET;
            let hand_index: usize = relative / BUILD_PILE_COUNT;
            let build_pile: usize = relative % BUILD_PILE_COUNT;
            return Some(Action::Play { source: CardSource::Hand(hand_index), build_pile });
        }
        if index < DISCARD_PLAY_OFFSET {
            let build_pile: usize = index - STOCK_PLAY_OFFSET;
            return Some(Action::Play { source: CardSource::Stock, build_pile });
        }
        if index < DISCARD_OFFSET {
            let relative: usize = index - DISCARD_PLAY_OFFSET;
            let discard_pile: usize = relative / BUILD_PILE_COUNT;
            let build_pile: usize = relative % BUILD_PILE_COUNT;
            return Some(Action::Play { source: CardSource::Discard(discard_pile), build_pile });
        }
        if index < END_TURN_INDEX {
            let relative: usize = index - DISCARD_OFFSET;
            let hand_index: usize = relative / DISCARD_PILE_COUNT;
            let discard_pile: usize = relative % DISCARD_PILE_COUNT;
            return Some(Action::Discard { hand_index, discard_pile });
        }
        if index == END_TURN_INDEX {
            Some(Action::EndTurn)
        } else {
            None
        }
    }
}

impl ActionSpace {
    /// Which indices are those of listed actions.
    pub fn legal_mask(legal: &[Action]) -> (mask: [bool; 61])
        ensures
            forall|index: int|
                0 <= index < MAX_ACTIONS ==> (#[trigger] mask[index] <==> exists|i: int|
                    0 <= i < legal@.len() && index_of(#[trigger] legal@[i]) == Some(
                        index as usize,
                    )),
    {
        let mut mask: [bool; 61] = [false;61];
        let mut at: usize = 0;
        while at < legal.len()
            invariant
                0 <= at <= legal@.len(),
                forall|index: int|
                    0 <= index < MAX_ACTIONS ==> (#[trigger] mask[index] <==> exists|i: int|
                        0 <= i < at && index_of(#[trigger] legal@[i]) == Some(index as usize)),
            decreases legal@.len() - at,
        {
            let ghost before = mask;
            match Self::action_index(&legal[at]) {
                Some(index) => {
                    mask[index] = true;
                },
                None => {},
            }
            proof {
                assert forall|index: int| 0 <= index < MAX_ACTIONS implies (
                #[trigger] mask[index] <==> exists|i: int|
                    0 <= i < at + 1 && index_of(#[trigger] legal@[i]) == Some(
                        index as usize,
                    )) by {
                    if mask[index] {
                        if before[index] {
                            let i = choose|i: int|
                                0 <= i < at && index_of(#[trigger] legal@[i]) == Some(
                                    index as usize,
                                );
                            assert(0 <= i < at + 1 && index_of(legal@[i]) == Some(index as usize));
                        } else {
                            assert(index_of(legal@[at as int]) == Some(index as usize));
                        }
                    }
                    if exists|i: int|
                        0 <= i < at + 1 && index_of(#[trigger] legal@[i]) == Some(
                            index as usize,
                        ) {
                        let i = choose|i: int|
                            0 <= i < at + 1 && index_of(#[trigger] legal@[i]) == Some(
                                index as usize,
                            );
                        if i < at {
                            assert(before[index]);
                        }
                    }
                }
            }
            at = at + 1;
        }
        mask
    }

    /// Which indices are among the given ones.
    pub fn target_hits(indices: &[usize]) -> (hits: [bool; 61])
        ensures
            forall|index: int|
                0 <= index < MAX_ACTIONS ==> (#[trigger] hits[index] <==> indices@.contains(
                    index as usize,
                )),
    {
        let mut hits: [bool; 61] = [false;61];
        let mut at: usize = 0;
        while at < indices.len()
            invariant
                0 <= at <= indices@.len(),
                forall|index: int|
                    0 <= index < MAX_ACTIONS ==> (#[trigger] hits[index] <==> indices@.take(
                        at as int,
                    ).contains(index as usize)),
            decreases indices@.len() - at,
        {
            let ghost before = hits;
            let ghost seen = indices@.take(at as int);
            let ghost next = indices@.take(at + 1);
            let idx = indices[at];
            if idx < MAX_ACTIONS {
                hits[idx] = true;
            }
            proof {
                assert(next =~= seen.push(idx));
                assert forall|index: int| 0 <= index < MAX_ACTIONS implies (
                #[trigger] hits[index] <==> next.contains(index as usize)) by {
                    if before[index] {
                        let i = choose|i: int| 0 <= i < seen.len() && seen[i] == index as usize;
                        assert(next[i] == index as usize);
                    }
                    if index == idx {
                        assert(next[at as int] == idx);
                    }
                    if next.contains(index as usize) {
                        let i = choose|i: int| 0 <= i < next.len() && next[i] == index as usize;
                        if i < at {
                            assert(seen[i] == index as usize);
                        }
                    }
                }
            }
            at = at + 1;
        }
        proof {
            assert(indices@.take(at as int) =~= indices@);
        }
        hits
    }
}

/// A feature of a snapshot as a fraction: `part` out of `whole`, and nothing where
/// `whole` is zero.
#[derive(Copy, Clone, Debug, PartialEq, Eq, Structural)]
pub struct Ratio {
    pub part: usize,
    pub whole: usize,
}

/// A yes or no as a fraction: one out of one, or none out of one.
pub open spec fn flag(yes: bool) -> Ratio {
    Ratio { part: if yes {
        1
    } else {
        0
    }, whole: 1 }
}

/// The kind of a card as a number: the value less one, and twelve for the wildcard.
pub open spec fn bucket_of(card: Card) -> int {
    match card {
        Card::Number(value) => if value >= 1 {
            value - 1
        } else {
            0
        },
        Card::SkipBo => CARD_BUCKETS - 1,
    }
}

/// How many of the cards are of a kind.
pub open spec fn bucket_count(cards: Seq<Card>, bucket: int) -> nat
    decreases cards.len(),
{
    if cards.len() == 0 {
        0
    } else {
        bucket_count(cards.drop_last(), bucket) + if bucket_of(cards.last()) == bucket {
            1nat
        } else {
            0
        }
    }
}

/// The larger of a count and one.
pub open spec fn at_least_one(count: nat) -> nat {
    if count == 0 {
        1
    } else {
        count
    }
}

/// The feature at place `i` of the features of a snapshot.
///
/// Places 0 to 7 hold, for each build pile, the value it asks for and the number of
/// its cards, both out of twelve. Places 8 to 10 hold the own player: the stock out of
/// the stock size, the kind of the stock top out of twelve, and whether the player
/// has won. Places
/// 11 to 23 hold, for each kind of card, the share of the hand that is of that
/// kind. Places 24 to 79 hold, for each own discard pile, which kind its top is of and
/// its size out of the stock size. Places 80 to 97 hold, for each of the six seats,
/// the stock size out of the stock size, the hand size out of the hand size, and
/// whether the player has won; all three are nothing for a seat nobody sits at.
pub open spec fn feature_at(state: &GameStateView, i: int) -> Ratio {
    let own = state.players@[state.self_player as int];
    if i < 8 {
        let pile = state.build_piles[i / 2];
        if i % 2 == 0 {
            Ratio { part: pile.next_value as usize, whole: MAX_CARD_VALUE as usize }
        } else {
            Ratio { part: pile.cards@.len() as usize, whole: MAX_CARD_VALUE as usize }
        }
    } else if i == 8 {
        Ratio { part: own.stock_count, whole: state.settings.stock_size }
    } else if i == 9 {
        match own.stock_top {
            Some(card) => Ratio { part: bucket_of(card) as usize, whole: 12 },
            None => Ratio { part: 0, whole: 12 },
        }
    } else if i == 10 {
        flag(own.has_won)
    } else if i < 24 {
        Ratio {
            part: bucket_count(state.hand@, i - 11) as usize,
            whole: at_least_one(state.hand@.len()) as usize,
        }
    } else if i < 80 {
        let pile = (i - 24) / 14;
        let kind = (i - 24) % 14;
        if kind < 13 {
            flag(own.discard_tops[pile] matches Some(card) && bucket_of(card) == kind)
        } else {
            Ratio { part: own.discard_counts[pile], whole: state.settings.stock_size }
        }
    } else {
        let seat = (i - 80) / 3;
        let what = (i - 80) % 3;
        match state.place_of(seat as usize) {
            None => Ratio { part: 0, whole: 0 },
            Some(place) => {
                let player = state.players@[place];
                if what == 0 {
                    Ratio { part: player.stock_count, whole: state.settings.stock_size }
                } else if what == 1 {
                    Ratio {
                        part: if player.id == state.self_player {
                            state.hand@.len() as usize
                        } else {
                            player.hand_size
                        },
                        whole: state.settings.hand_size,
                    }
                } else {
                    flag(player.has_won)
                }
            },
        }
    }
}

/// The kind of a card as a number.
pub fn card_bucket(card: Card) -> (bucket: usize)
    ensures
        bucket == bucket_of(card),
{
    match card {
        Card::Number(value) => if value >= 1 {
            (value - 1) as usize
        } else {
            0
        },
        Card::SkipBo => CARD_BUCKETS - 1,
    }
}

/// Turns a snapshot into a fixed number of features.
pub struct StateEncoder;

impl StateEncoder {
    /// A snapshot that can be encoded: its own player is one of the listed players, and
    /// every card of the hand is of one of the thirteen kinds.
    pub open spec fn encodable(state: &GameStateView) -> bool {
        &&& state.self_player < state.players@.len()
        &&& forall|h: int|
            0 <= h < state.hand@.len() ==> bucket_of(#[trigger] state.hand@[h]) < CARD_BUCKETS
    }

    /// Counts the cards of the hand by kind.
    fn hand_counts(hand: &Vec<Card>) -> (counts: [usize; 13])
        requires
            forall|h: int| 0 <= h < hand@.len() ==> bucket_of(#[trigger] hand@[h]) < CARD_BUCKETS,
        ensures
            forall|k: int| 0 <= k < CARD_BUCKETS ==> #[trigger] counts[k] == bucket_count(hand@, k),
    {
        let mut counts: [usize; 13] = [0;13];
        let mut index: usize = 0;
        while index < hand.len()
            invariant
                0 <= index <= hand@.len(),
                forall|h: int|
                    0 <= h < hand@.len() ==> bucket_of(#[trigger] hand@[h]) < CARD_BUCKETS,
                forall|k: int|
                    0 <= k < CARD_BUCKETS ==> #[trigger] counts[k] == bucket_count(
                        hand@.take(index as int),
                        k,
                    ) && counts[k] <= index,
            decreases hand@.len() - index,
        {
            let bucket = card_bucket(hand[index]);
            let ghost before = counts;
            proof {
                assert(hand@.take(index + 1).drop_last() =~= hand@.take(index as int));
                assert(before[bucket as int] <= index);
            }
            counts[bucket] = counts[bucket] + 1;
            index = index + 1;
        }
        proof {
            assert(hand@.take(index as int) =~= hand@);
        }
        counts
    }

    /// The features of a snapshot, each as a fraction.
    pub fn features(state: &GameStateView) -> (out: [Ratio; 98])
        requires
            Self::encodable(state),
        ensures
            forall|i: int| 0 <= i < STATE_FEATURES ==> #[trigger] out[i] == feature_at(state, i),
    {
        let mut out: [Ratio; 98] = [Ratio { part: 0, whole: 1 };98];
        let mut offset: usize = 0;
        let mut pile: usize = 0;
        while pile < 4
            invariant
                0 <= pile <= 4,
                offset == 2 * pile,
                forall|i: int| 0 <= i < offset ==> #[trigger] out[i] == feature_at(state, i),
            decreases 4 - pile,
        {
            let view = &state.build_piles[pile];
            out[offset] = Ratio { part: view.next_value as usize, whole: 12 };
            offset = offset + 1;
            out[offset] = Ratio { part: view.cards.len(), whole: 12 };
            offset = offset + 1;
            pile = pile + 1;
        }
        let self_player = &state.players[state.self_player];
        out[offset] = Ratio { part: self_player.stock_count, whole: state.settings.stock_size };
        offset = offset + 1;
        out[offset] = match self_player.stock_top {
            Some(card) => Ratio { part: card_bucket(card), whole: 12 },
            None => Ratio { part: 0, whole: 12 },
        };
        offset = offset + 1;
        out[offset] = Ratio { part: if self_player.has_won {
            1
        } else {
            0
        }, whole: 1 };
        offset = offset + 1;
        let hand_counts = Self::hand_counts(&state.hand);
        let hand_total: usize = if state.hand.len() == 0 {
            1
        } else {
            state.hand.len()
        };
        let mut kind: usize = 0;
        while kind < CARD_BUCKETS
            invariant
                0 <= kind <= CARD_BUCKETS,
                offset == 11 + kind,
                hand_total == at_least_one(state.hand@.len()),
                forall|k: int|
                    0 <= k < CARD_BUCKETS ==> #[trigger] hand_counts[k] == bucket_count(
                        state.hand@,
                        k,
                    ),
                forall|i: int| 0 <= i < offset ==> #[trigger] out[i] == feature_at(state, i),
            decreases CARD_BUCKETS - kind,
        {
            out[offset] = Ratio { part: hand_counts[kind], whole: hand_total };
            offset = offset + 1;
            kind = kind + 1;
        }
        let mut discard_index: usize = 0;
        while discard_index < 4
            invariant
                0 <= discard_index <= 4,
                offset == 24 + 14 * discard_index,
                Self::encodable(state),
                *self_player == state.players@[state.self_player as int],
                forall|i: int| 0 <= i < offset ==> #[trigger] out[i] == feature_at(state, i),
            decreases 4 - discard_index,
        {
            let top_bucket: Option<usize> = match self_player.discard_tops[discard_index] {
                Some(card) => Some(card_bucket(card)),
                None => None,
            };
            let mut kind: usize = 0;
            while kind < CARD_BUCKETS
                invariant
                    0 <= kind <= CARD_BUCKETS,
                    0 <= discard_index < 4,
                    offset == 24 + 14 * discard_index + kind,
                    *self_player == state.players@[state.self_player as int],
                    top_bucket == match self_player.discard_tops[discard_index as int] {
                        Some(card) => Some(bucket_of(card) as usize),
                        None => None::<usize>,
                    },
                    forall|i: int| 0 <= i < offset ==> #[trigger] out[i] == feature_at(state, i),
                decreases CARD_BUCKETS - kind,
            {
                let hit = match top_bucket {
                    Some(bucket) => bucket == kind,
                    None => false,
                };
                out[offset] = Ratio { part: if hit {
                    1
                } else {
                    0
                }, whole: 1 };
                offset = offset + 1;
                kind = kind + 1;
            }
            out[offset] = Ratio {
                part: self_player.discard_counts[discard_index],
                whole: state.settings.stock_size,
            };
            offset = offset + 1;
            discard_index = discard_index + 1;
        }
        let mut player_index: usize = 0;
        while player_index < 6
            invariant
                0 <= player_index <= 6,
                offset == 80 + 3 * player_index,
                forall|i: int| 0 <= i < offset ==> #[trigger] out[i] == feature_at(state, i),
            decreases 6 - player_index,
        {
            match state.index_of_player(player_index) {
                Some(place) => {
                    let player = &state.players[place];
                    out[offset] = Ratio {
                        part: player.stock_count,
                        whole: state.settings.stock_size,
                    };
                    offset = offset + 1;
                    let hand_size: usize = if player.id == state.self_player {
                        state.hand.len()
                    } else {
                        player.hand_size
                    };
                    out[offset] = Ratio { part: hand_size, whole: state.settings.hand_size };
                    offset = offset + 1;
                    out[offset] = Ratio { part: if player.has_won {
                        1
                    } else {
                        0
                    }, whole: 1 };
                    offset = offset + 1;
                },
                None => {
                    out[offset] = Ratio { part: 0, whole: 0 };
                    offset = offset + 1;
                    out[offset] = Ratio { part: 0, whole: 0 };
                    offset = offset + 1;
                    out[offset] = Ratio { part: 0, whole: 0 };
                    offset = offset + 1;
                },
            }
            player_index = player_index + 1;
        }
        out
    }
}

/// **The numbering is one to one.** Every index below [`MAX_ACTIONS`] names an action
/// whose index it is, and an action that has an index is the action that index names.
pub proof fn lemma_index_round_trip()
    ensures
        forall|index: usize|
            index < MAX_ACTIONS ==> (#[trigger] action_at(index)) is Some && index_of(
                action_at(index)->Some_0,
            ) == Some(index),
        forall|index: usize| index >= MAX_ACTIONS ==> (#[trigger] action_at(index)) is None,
        forall|action: Action|
            (#[trigger] index_of(action)) matches Some(index) ==> index < MAX_ACTIONS && action_at(
                index,
            ) == Some(action),
{
}

} // verus!
