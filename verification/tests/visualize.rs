use skipbot::action::{Action, CardSource};
use skipbot::card::Card;
use skipbot::game::GameBuilder;
use skipbot::visualize::{
    describe_action, describe_action_with_options, number_text, render_state,
    render_state_with_options, DescribeOptions, VisualOptions,
};

#[test]
fn render_and_describe_include_expected_phrases() {
    let game = GameBuilder::new(2).expect("builder").build().expect("game");
    let view = game.state_view(0).expect("state view");
    let text = render_state(&view);
    assert!(text.contains("Player 0 (You)"));
    assert!(text.contains("Hand:"));
    let actions = game.legal_actions(0).expect("actions available");
    if let Some(play_action) = actions.iter().find(|action| matches!(action, Action::Play { .. }))
    {
        let desc = describe_action(&view, play_action);
        assert!(desc.contains("build pile"));
    }
    let discard_action = Action::Discard { hand_index: 0, discard_pile: 0 };
    let discard_desc = describe_action(&view, &discard_action);
    assert!(discard_desc.contains("Discard"));
}

fn small_view(perspective: usize) -> skipbot::GameStateView {
    // Draw pile [9, 8, SB, 6, 1] (drawn from the end), stocks [.., 1] and [.., 10].
    let mut deck = vec![
        Card::Number(9),
        Card::Number(8),
        Card::SkipBo,
        Card::Number(6),
        Card::Number(1),
    ];
    deck.extend([Card::Number(10), Card::Number(11)]);
    deck.extend([Card::Number(1), Card::Number(2)]);
    let mut game = GameBuilder::new(2)
        .expect("builder")
        .with_stock_size(2)
        .with_deck(deck)
        .build()
        .expect("game");
    game.apply_action(0, Action::Play { source: CardSource::Hand(0), build_pile: 2 })
        .expect("play");
    game.apply_action(0, Action::Discard { hand_index: 1, discard_pile: 3 }).expect("discard");
    game.state_view(perspective).expect("view")
}

#[test]
fn a_snapshot_is_rendered_line_by_line() {
    let text = render_state(&small_view(0));
    let expected = "Game status: Ongoing\n\
                    Phase: AwaitingAction\n\
                    Current player: 1\n\
                    Draw pile: 0  |  Recycle pile: 0\n\
                    Build piles:\n\
                    \x20 [0] next 1  [-]\n\
                    \x20 [1] next 1  [-]\n\
                    \x20 [2] next 2  [1]\n\
                    \x20 [3] next 1  [-]\n\
                    Players:\n\
                    \x20 Player 0 (You) - stock 2 (top: 1)\n\
                    \x20   Discards: 0:-- (0)  1:-- (0)  2:-- (0)  3:SB (1)\n\
                    \x20   Hand: 0:6  1:8  2:9\n\
                    \x20 Player 1 - stock 2 (top: 10) <- current\n\
                    \x20   Discards: 0:-- (0)  1:-- (0)  2:-- (0)  3:-- (0)\n\
                    \x20   Hand size: 0\n";
    assert_eq!(text, expected);
}

#[test]
fn options_leave_out_sequences_and_sizes() {
    let options = VisualOptions { show_build_sequences: false, show_discard_sizes: false };
    let text = render_state_with_options(&small_view(1), options);
    assert!(text.contains("Current player: 1 (You)\n"));
    assert!(text.contains("  [2] next 2  [-]\n"));
    assert!(text.contains("    Discards: 0:--  1:--  2:--  3:SB\n"));
    assert!(text.contains("  Player 0 - stock 2 (top: 1)\n"));
    assert!(text.contains("    Hand size: 3\n"));
    assert!(text.contains("  Player 1 (You) - stock 2 (top: 10) <- current\n"));
    assert!(text.contains("    Hand: (empty)\n"));
}

#[test]
fn actions_are_described() {
    let view = small_view(0);
    let play = Action::Play { source: CardSource::Hand(1), build_pile: 2 };
    assert_eq!(describe_action(&view, &play), "Play hand[1] 8 to build pile 2 (needs 2)");
    let stock = Action::Play { source: CardSource::Stock, build_pile: 0 };
    assert_eq!(describe_action(&view, &stock), "Play stock top 1 to build pile 0 (needs 1)");
    let discard_play = Action::Play { source: CardSource::Discard(3), build_pile: 9 };
    assert_eq!(
        describe_action(&view, &discard_play),
        "Play discard[3] SB to build pile 9 (needs 0)"
    );
    let empty_pile = Action::Play { source: CardSource::Discard(0), build_pile: 1 };
    assert_eq!(
        describe_action(&view, &empty_pile),
        "Play discard[0] -- to build pile 1 (needs 1)"
    );
    let discard = Action::Discard { hand_index: 2, discard_pile: 1 };
    assert_eq!(describe_action(&view, &discard), "Discard hand[2] 9 to pile 1");
    let far = Action::Discard { hand_index: 7, discard_pile: 1 };
    assert_eq!(describe_action(&view, &far), "Discard hand[7] -- to pile 1");
    assert_eq!(describe_action(&view, &Action::EndTurn), "End turn");
    let bare = DescribeOptions { include_card_details: false, include_build_expectation: false };
    assert_eq!(describe_action_with_options(&view, &play, bare), "Play hand[1] to build pile 2");
    assert_eq!(
        describe_action_with_options(&view, &stock, bare),
        "Play stock top to build pile 0"
    );
    assert_eq!(
        describe_action_with_options(&view, &discard_play, bare),
        "Play discard[3] to build pile 9"
    );
    assert_eq!(describe_action_with_options(&view, &discard, bare), "Discard hand[2] to pile 1");
}

#[test]
fn numbers_are_written_in_decimal() {
    for n in [0usize, 7, 10, 99, 100, 162, 4096, 1_000_000] {
        assert_eq!(number_text(n), n.to_string());
    }
    assert_eq!(number_text(usize::MAX), usize::MAX.to_string());
}

#[test]
fn options_default_to_everything_shown() {
    let visual = VisualOptions::default();
    assert!(visual.show_build_sequences && visual.show_discard_sizes);
    let describe = DescribeOptions::default();
    assert!(describe.include_card_details && describe.include_build_expectation);
}
