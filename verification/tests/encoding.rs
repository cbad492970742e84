use skipbot::action::{Action, CardSource};
use skipbot::ml::encoding::{ActionSpace, MAX_ACTIONS};

#[test]
fn action_index_round_trip() {
    for index in 0..MAX_ACTIONS {
        if let Some(action) = ActionSpace::index_to_action(index) {
            let encoded = ActionSpace::action_index(&action).expect("encoded");
            assert_eq!(encoded, index);
        }
    }
}

#[test]
fn every_index_below_the_maximum_names_an_action() {
    for index in 0..MAX_ACTIONS {
        assert!(ActionSpace::index_to_action(index).is_some());
    }
    assert_eq!(ActionSpace::index_to_action(MAX_ACTIONS), None);
    assert_eq!(ActionSpace::MAX, MAX_ACTIONS);
}

#[test]
fn action_indices_follow_the_layout() {
    let hand = Action::Play { source: CardSource::Hand(2), build_pile: 3 };
    assert_eq!(ActionSpace::action_index(&hand), Some(11));
    let stock = Action::Play { source: CardSource::Stock, build_pile: 1 };
    assert_eq!(ActionSpace::action_index(&stock), Some(21));
    let discard_play = Action::Play { source: CardSource::Discard(3), build_pile: 2 };
    assert_eq!(ActionSpace::action_index(&discard_play), Some(38));
    let discard = Action::Discard { hand_index: 4, discard_pile: 3 };
    assert_eq!(ActionSpace::action_index(&discard), Some(59));
    assert_eq!(ActionSpace::action_index(&Action::EndTurn), Some(60));
    assert_eq!(ActionSpace::index_to_action(38), Some(discard_play));
    assert_eq!(ActionSpace::index_to_action(59), Some(discard));
}

#[test]
fn actions_outside_the_fixed_counts_have_no_index() {
    let far_hand = Action::Play { source: CardSource::Hand(5), build_pile: 0 };
    assert_eq!(ActionSpace::action_index(&far_hand), None);
    let far_pile = Action::Play { source: CardSource::Stock, build_pile: 4 };
    assert_eq!(ActionSpace::action_index(&far_pile), None);
    let far_discard = Action::Play { source: CardSource::Discard(4), build_pile: 0 };
    assert_eq!(ActionSpace::action_index(&far_discard), None);
    let far_target = Action::Discard { hand_index: 0, discard_pile: 4 };
    assert_eq!(ActionSpace::action_index(&far_target), None);
    let far_index = Action::Discard { hand_index: 5, discard_pile: 0 };
    assert_eq!(ActionSpace::action_index(&far_index), None);
}

#[test]
fn the_mask_marks_the_listed_actions() {
    let actions = vec![
        Action::EndTurn,
        Action::Discard { hand_index: 1, discard_pile: 0 },
        Action::Play { source: CardSource::Hand(9), build_pile: 0 },
    ];
    let mask = ActionSpace::legal_mask(&actions);
    let end_index = ActionSpace::action_index(&Action::EndTurn).unwrap();
    let discard_index = ActionSpace::action_index(&actions[1]).unwrap();
    for (index, listed) in mask.iter().enumerate() {
        assert_eq!(*listed, index == end_index || index == discard_index);
    }
    assert!(ActionSpace::legal_mask(&[]).iter().all(|listed| !listed));
}

#[test]
fn the_targets_mark_the_given_indices() {
    let hits = ActionSpace::target_hits(&[3, 60, 3, 61, 4000]);
    for (index, hit) in hits.iter().enumerate() {
        assert_eq!(*hit, index == 3 || index == 60);
    }
}

#[test]
fn mask_marks_only_legal_actions() {
    let actions = vec![Action::EndTurn, Action::Discard { hand_index: 1, discard_pile: 0 }];
    let listed = ActionSpace::legal_mask(&actions);
    let mask: Vec<f32> = listed.iter().map(|hit| if *hit { 0.0 } else { -1.0e9 }).collect();
    let end_index = ActionSpace::action_index(&Action::EndTurn).unwrap();
    assert_eq!(mask[end_index], 0.0);
    let discard_index = ActionSpace::action_index(&actions[1]).unwrap();
    assert_eq!(mask[discard_index], 0.0);
    for (idx, value) in mask.iter().enumerate() {
        if idx != end_index && idx != discard_index {
            assert_eq!(*value, -1.0e9);
        }
    }
}
