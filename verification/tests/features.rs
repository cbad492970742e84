use skipbot::action::{Action, CardSource};
use skipbot::card::Card;
use skipbot::game::GameBuilder;
use skipbot::ml::encoding::{card_bucket, Ratio, StateEncoder, STATE_FEATURES};

fn ratio(part: usize, whole: usize) -> Ratio {
    Ratio { part, whole }
}

#[test]
fn cards_fall_into_thirteen_kinds() {
    assert_eq!(card_bucket(Card::Number(1)), 0);
    assert_eq!(card_bucket(Card::Number(12)), 11);
    assert_eq!(card_bucket(Card::Number(0)), 0);
    assert_eq!(card_bucket(Card::SkipBo), 12);
}

#[test]
fn the_features_of_a_snapshot_stand_in_their_places() {
    // Draw pile [9, 8, SB, 6, 1] (drawn from the end), stocks with 1 and 10 on top.
    let mut deck = vec![
        Card::Number(9),
        Card::Number(8),
        Card::SkipBo,
        Card::Number(6),
        Card::Number(1),
    ];
    deck.extend([Card::Number(10), Card::Number(11)]);
    deck.extend([Card::Number(1), Card::Number(2)]);
    let mut game = GameBuilder::new(2)
        .expect("builder")
        .with_stock_size(2)
        .with_deck(deck)
        .build()
        .expect("game");
    game.apply_action(0, Action::Play { source: CardSource::Hand(0), build_pile: 2 })
        .expect("play");
    game.apply_action(0, Action::Discard { hand_index: 1, discard_pile: 3 }).expect("discard");
    let view = game.state_view(0).expect("view");
    let features = StateEncoder::features(&view);
    assert_eq!(features.len(), STATE_FEATURES);
    assert_eq!(STATE_FEATURES, 98);
    // Build piles: what they ask for and how many cards they hold, out of twelve.
    assert_eq!(features[0], ratio(1, 12));
    assert_eq!(features[1], ratio(0, 12));
    assert_eq!(features[4], ratio(2, 12));
    assert_eq!(features[5], ratio(1, 12));
    // Own stock: two of two, a 1 on top, not won.
    assert_eq!(features[8], ratio(2, 2));
    assert_eq!(features[9], ratio(0, 12));
    assert_eq!(features[10], ratio(0, 1));
    // Hand [6, 8, 9]: one card each of the kinds 5, 7 and 8, out of three cards.
    for kind in 0..13 {
        let expected = if kind == 5 || kind == 7 || kind == 8 { 1 } else { 0 };
        assert_eq!(features[11 + kind], ratio(expected, 3));
    }
    // Discard piles: fourteen places each; pile 3 holds a wildcard.
    for pile in 0..4 {
        for kind in 0..13 {
            let expected = if pile == 3 && kind == 12 { 1 } else { 0 };
            assert_eq!(features[24 + pile * 14 + kind], ratio(expected, 1));
        }
        assert_eq!(features[24 + pile * 14 + 13], ratio(if pile == 3 { 1 } else { 0 }, 2));
    }
    // Seats: stock, hand and win flag; the own hand is counted from the hand itself.
    assert_eq!(features[80], ratio(2, 2));
    assert_eq!(features[81], ratio(3, 5));
    assert_eq!(features[82], ratio(0, 1));
    assert_eq!(features[83], ratio(2, 2));
    assert_eq!(features[84], ratio(0, 5));
    assert_eq!(features[85], ratio(0, 1));
    // Nobody sits at the seats 2 to 5.
    for place in 86..98 {
        assert_eq!(features[place], ratio(0, 0));
    }
}

#[test]
fn encoder_outputs_expected_length() {
    let game = GameBuilder::new(2).expect("builder").build().expect("game");
    let view = game.state_view(0).expect("state view");
    let encoded = StateEncoder::features(&view);
    assert_eq!(encoded.len(), STATE_FEATURES);
}
