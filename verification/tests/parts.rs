use skipbot::action::{Action, CardSource};
use skipbot::card::{
    full_deck, Card, BUILD_PILE_COUNT, COPIES_PER_VALUE, DECK_SIZE, DISCARD_PILE_COUNT, HAND_SIZE,
    MAX_CARD_VALUE, MAX_PLAYERS, MIN_CARD_VALUE, SKIP_BO_COUNT,
};
use skipbot::pile::BuildPile;
use skipbot::player::PlayerState;
use skipbot::state::BuildPileView;

#[test]
fn the_full_deck_has_its_fixed_composition() {
    let deck = full_deck();
    assert_eq!(deck.len(), 162);
    assert_eq!(deck.len(), DECK_SIZE);
    assert_eq!(DECK_SIZE, COPIES_PER_VALUE * (MAX_CARD_VALUE as usize) + SKIP_BO_COUNT);
    for value in MIN_CARD_VALUE..=MAX_CARD_VALUE {
        let copies = deck.iter().filter(|card| **card == Card::Number(value)).count();
        assert_eq!(copies, 12);
    }
    assert_eq!(deck.iter().filter(|card| card.is_skip_bo()).count(), 18);
    assert_eq!(deck[0], Card::Number(1));
    assert_eq!(deck[11], Card::Number(12));
    assert_eq!(deck[12], Card::Number(1));
    assert_eq!(deck[143], Card::Number(12));
    assert_eq!(deck[144], Card::SkipBo);
    assert_eq!(deck[161], Card::SkipBo);
    assert_eq!((HAND_SIZE, DISCARD_PILE_COUNT, BUILD_PILE_COUNT, MAX_PLAYERS), (5, 4, 4, 6));
}

#[test]
fn a_numbered_card_matches_its_value_only() {
    let seven = Card::Number(7);
    assert!(seven.matches_value(7));
    assert!(!seven.matches_value(6));
    assert!(!seven.matches_value(8));
    assert_eq!(seven.value(), Some(7));
    assert!(!seven.is_skip_bo());
}

#[test]
fn the_wildcard_matches_every_value() {
    for value in 1..=12 {
        assert!(Card::SkipBo.matches_value(value));
    }
    assert_eq!(Card::SkipBo.value(), None);
    assert!(Card::SkipBo.is_skip_bo());
}

#[test]
fn a_build_pile_asks_for_the_next_value() {
    let mut pile = BuildPile::new();
    assert_eq!(pile.next_value(), 1);
    for value in 1..=11u8 {
        pile.push(Card::Number(value));
        assert_eq!(pile.next_value(), value + 1);
        assert!(!pile.is_complete());
    }
    let view = pile.as_view();
    assert_eq!(view.cards.len(), 11);
    assert_eq!(view.next_value, 12);
    pile.push(Card::SkipBo);
    assert!(pile.is_complete());
    // Twelve cards wrap round: the formula gives 1, never 13.
    assert_eq!(pile.next_value(), 1);
    let taken = pile.take_cards();
    assert_eq!(taken.len(), 12);
    assert_eq!(taken[0], Card::Number(1));
    assert_eq!(taken[11], Card::SkipBo);
    assert!(!pile.is_complete());
    assert_eq!(pile.next_value(), 1);
    assert_eq!(pile.as_view(), BuildPileView::empty());
}

#[test]
fn an_empty_pile_view_asks_for_a_one() {
    let view = BuildPileView::empty();
    assert!(view.cards.is_empty());
    assert_eq!(view.next_value, 1);
}

#[test]
fn a_new_player_holds_the_stock_only() {
    let player = PlayerState::new(vec![Card::Number(3), Card::SkipBo]);
    assert_eq!(player.stock_top(), Some(Card::SkipBo));
    assert!(player.hand.is_empty());
    assert!(!player.has_won);
    assert_eq!(player.discard_tops(), [None, None, None, None]);
    assert_eq!(player.discard_counts(), [0, 0, 0, 0]);
    assert_eq!(player.discard_top(0), None);
    assert_eq!(player.discard_top(4), None);
}

#[test]
fn discard_tops_are_the_last_cards() {
    let mut player = PlayerState::new(vec![]);
    assert_eq!(player.stock_top(), None);
    player.discard_piles[2].push(Card::Number(4));
    player.discard_piles[2].push(Card::Number(9));
    assert_eq!(player.discard_top(2), Some(Card::Number(9)));
    assert_eq!(player.discard_tops(), [None, None, Some(Card::Number(9)), None]);
    assert_eq!(player.discard_counts(), [0, 0, 2, 0]);
}

#[test]
fn only_plays_have_a_build_pile() {
    let action = Action::Play { source: CardSource::Stock, build_pile: 3 };
    assert_eq!(action.build_pile(), Some(3));
    assert!(action.build_pile_in_range());
    let far = Action::Play { source: CardSource::Hand(0), build_pile: 4 };
    assert_eq!(far.build_pile(), Some(4));
    assert!(!far.build_pile_in_range());
    let discard = Action::Discard { hand_index: 0, discard_pile: 9 };
    assert_eq!(discard.build_pile(), None);
    assert!(discard.build_pile_in_range());
    assert_eq!(Action::EndTurn.build_pile(), None);
    assert!(Action::EndTurn.build_pile_in_range());
}
