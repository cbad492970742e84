use skipbot::action::{Action, CardSource};
use skipbot::card::{full_deck, Card};
use skipbot::error::{GameError, InvalidAction};
use skipbot::game::{Game, GameBuilder, GameConfig};
use skipbot::state::{GameSettings, GameStateView, GameStatus, TurnPhase};

/// A deck from which the given stocks are dealt, seat 0 first: the draw pile is `draw`
/// (drawn from its end) and each stock is given bottom first, so its top is its last
/// card.
fn deck_for(draw: &[Card], stocks: &[Vec<Card>]) -> Vec<Card> {
    let mut deck = draw.to_vec();
    for stock in stocks.iter().rev() {
        deck.extend(stock.iter().rev());
    }
    deck
}

fn numbers(values: &[u8]) -> Vec<Card> {
    values.iter().map(|v| Card::Number(*v)).collect()
}

fn small_game(draw: &[u8], stock0: &[u8], stock1: &[u8]) -> Game {
    assert_eq!(stock0.len(), stock1.len());
    let deck = deck_for(&numbers(draw), &[numbers(stock0), numbers(stock1)]);
    GameBuilder::new(2)
        .expect("builder")
        .with_stock_size(stock0.len())
        .with_deck(deck)
        .build()
        .expect("game")
}

fn total_cards(view: &GameStateView) -> usize {
    let mut total = view.draw_pile_count + view.recycle_pile_count;
    for pile in view.build_piles.iter() {
        total += pile.cards.len();
    }
    for player in view.players.iter() {
        total += player.stock_count + player.hand_size;
        for count in player.discard_counts.iter() {
            total += count;
        }
    }
    total
}

fn play(source: CardSource, build_pile: usize) -> Action {
    Action::Play { source, build_pile }
}

fn invalid(r: Result<(), GameError>) -> InvalidAction {
    match r {
        Err(GameError::InvalidAction(fault)) => fault,
        other => panic!("expected an invalid action, got {:?}", other),
    }
}

fn configuration_reason<T>(r: Result<T, GameError>) -> &'static str {
    match r {
        Err(GameError::InvalidConfiguration(reason)) => reason,
        Err(other) => panic!("expected a configuration error, got {:?}", other),
        Ok(_) => panic!("expected a configuration error"),
    }
}

#[test]
fn settings_follow_the_player_count() {
    for players in 2..=4 {
        let settings = GameSettings::new(players).expect("settings");
        assert_eq!(
            settings,
            GameSettings {
                num_players: players,
                stock_size: 30,
                hand_size: 5,
                discard_piles: 4,
                build_piles: 4
            }
        );
    }
    for players in 5..=6 {
        assert_eq!(GameSettings::new(players).expect("settings").stock_size, 20);
    }
}

#[test]
fn player_counts_outside_two_to_six_are_refused() {
    for players in [0usize, 1, 7, 100] {
        assert_eq!(
            configuration_reason(GameSettings::new(players)),
            "players must be between 2 and 6"
        );
        assert_eq!(
            configuration_reason(GameConfig::new(players, 1)),
            "players must be between 2 and 6"
        );
        assert_eq!(
            configuration_reason(GameBuilder::new(players)),
            "players must be between 2 and 6"
        );
        assert_eq!(
            configuration_reason(Game::builder(players)),
            "players must be between 2 and 6"
        );
        let config = GameConfig { num_players: players, seed: 3, stock_size: None };
        assert_eq!(configuration_reason(Game::new(config)), "players must be between 2 and 6");
    }
}

#[test]
fn a_stock_size_of_zero_is_refused() {
    let built = GameBuilder::new(2).expect("builder").with_stock_size(0).build();
    assert_eq!(configuration_reason(built), "stock size must be positive");
}

#[test]
fn a_deck_too_small_for_the_stocks_is_refused() {
    let deck = vec![Card::Number(1); 59];
    let built = GameBuilder::new(2).expect("builder").with_deck(deck).build();
    assert_eq!(
        configuration_reason(built),
        "deck does not contain enough cards to deal stocks"
    );
    let built = GameBuilder::new(3).expect("builder").with_stock_size(55).build();
    assert_eq!(
        configuration_reason(built),
        "deck does not contain enough cards to deal stocks"
    );
    let built = GameBuilder::new(2).expect("builder").with_stock_size(usize::MAX).build();
    assert_eq!(
        configuration_reason(built),
        "deck does not contain enough cards to deal stocks"
    );
}

#[test]
fn a_deck_of_exactly_the_stocks_is_accepted() {
    let deck = vec![Card::Number(12); 60];
    let game = GameBuilder::new(2).expect("builder").with_deck(deck).build().expect("game");
    let view = game.state_view(0).expect("view");
    assert_eq!(view.draw_pile_count, 0);
    assert_eq!(view.hand.len(), 0);
    assert_eq!(view.players[0].stock_count, 30);
    assert_eq!(view.players[1].stock_count, 30);
}

#[test]
fn stocks_are_dealt_off_the_end_of_the_deck() {
    let deck = numbers(&[9, 8, 7, 6, 5, 4, 3, 11, 10, 2, 1]);
    let game = GameBuilder::new(2)
        .expect("builder")
        .with_stock_size(2)
        .with_deck(deck)
        .build()
        .expect("game");
    let view0 = game.state_view(0).expect("view");
    // Seat 0 is dealt first, from the end of the deck: the last card dealt is the top.
    assert_eq!(view0.players[0].stock_top, Some(Card::Number(2)));
    assert_eq!(view0.players[1].stock_top, Some(Card::Number(11)));
    assert_eq!(view0.hand, numbers(&[3, 4, 5, 6, 7]));
    assert_eq!(view0.draw_pile_count, 2);
    assert_eq!(view0.current_player, 0);
    assert_eq!(view0.status, GameStatus::Ongoing);
    assert_eq!(view0.phase, TurnPhase::AwaitingAction);
    assert_eq!(game.turn_phase(), TurnPhase::AwaitingAction);
    assert_eq!(game.settings().stock_size, 2);
}

#[test]
fn a_snapshot_shows_only_the_own_hand() {
    let game = small_game(&[9, 8, 7, 6, 5, 4, 3], &[1, 2], &[10, 11]);
    let view1 = game.state_view(1).expect("view");
    assert_eq!(view1.self_player, 1);
    assert!(view1.hand.is_empty());
    assert_eq!(view1.players[0].hand_size, 5);
    assert_eq!(view1.players[1].hand_size, 0);
    assert!(view1.players[0].is_current);
    assert!(!view1.players[1].is_current);
    assert_eq!(view1.players[0].id, 0);
    assert_eq!(view1.players[1].id, 1);
    assert_eq!(view1.players[0].discard_tops, [None, None, None, None]);
    assert_eq!(view1.players[0].discard_counts, [0, 0, 0, 0]);
    for pile in view1.build_piles.iter() {
        assert!(pile.cards.is_empty());
        assert_eq!(pile.next_value, 1);
    }
}

#[test]
fn a_snapshot_for_an_unknown_player_is_refused() {
    let game = small_game(&[9, 8, 7, 6, 5, 4, 3], &[1, 2], &[10, 11]);
    assert!(matches!(game.state_view(2), Err(GameError::InvalidPlayer(2))));
}

#[test]
fn guards_come_in_order() {
    let mut game = small_game(&[9, 8, 7, 6, 5, 4, 3], &[1, 2], &[10, 11]);
    assert!(matches!(game.apply_action(2, Action::EndTurn), Err(GameError::InvalidPlayer(2))));
    assert!(matches!(game.apply_action(1, Action::EndTurn), Err(GameError::NotPlayersTurn)));
    assert!(matches!(game.legal_actions(2), Err(GameError::InvalidPlayer(2))));
    assert!(matches!(game.legal_actions(1), Err(GameError::NotPlayersTurn)));
}

#[test]
fn every_action_fault_is_reported() {
    let mut game = small_game(&[9, 8, 7, 6, 5, 4, 3], &[1, 2], &[10, 11]);
    let before = game.state_view(0).expect("view");
    assert_eq!(
        invalid(game.apply_action(0, play(CardSource::Hand(0), 4))),
        InvalidAction::BuildPileIndex(4)
    );
    assert_eq!(
        invalid(game.apply_action(0, play(CardSource::Hand(5), 0))),
        InvalidAction::HandIndex(5)
    );
    assert_eq!(
        invalid(game.apply_action(0, play(CardSource::Discard(4), 0))),
        InvalidAction::DiscardIndex(4)
    );
    assert_eq!(
        invalid(game.apply_action(0, play(CardSource::Discard(0), 0))),
        InvalidAction::NoCardAvailable
    );
    assert_eq!(
        invalid(game.apply_action(0, play(CardSource::Hand(0), 0))),
        InvalidAction::CardMismatch { required: 1 }
    );
    assert_eq!(
        invalid(game.apply_action(0, Action::Discard { hand_index: 0, discard_pile: 4 })),
        InvalidAction::DiscardIndex(4)
    );
    assert_eq!(
        invalid(game.apply_action(0, Action::Discard { hand_index: 5, discard_pile: 0 })),
        InvalidAction::HandIndex(5)
    );
    assert_eq!(invalid(game.apply_action(0, Action::EndTurn)), InvalidAction::MustDiscard);
    // A refused action leaves the game as it was.
    assert_eq!(game.state_view(0).expect("view"), before);
}

#[test]
fn the_pile_index_is_checked_before_the_source() {
    let mut game = small_game(&[9, 8, 7, 6, 5, 4, 3], &[1, 2], &[10, 11]);
    assert_eq!(
        invalid(game.apply_action(0, play(CardSource::Hand(9), 9))),
        InvalidAction::BuildPileIndex(9)
    );
    assert_eq!(
        invalid(game.apply_action(0, Action::Discard { hand_index: 9, discard_pile: 9 })),
        InvalidAction::DiscardIndex(9)
    );
}

#[test]
fn legal_actions_are_listed_in_order() {
    // Hand [1, 4, 5, 6, 7], stock top 1: the 1s go on any of the four empty piles.
    let game = small_game(&[9, 8, 7, 6, 5, 4, 1], &[2, 1], &[10, 11]);
    let actions = game.legal_actions(0).expect("actions");
    let mut expected = Vec::new();
    for pile in 0..4 {
        expected.push(play(CardSource::Hand(0), pile));
    }
    for pile in 0..4 {
        expected.push(play(CardSource::Stock, pile));
    }
    for discard_pile in 0..4 {
        for hand_index in 0..5 {
            expected.push(Action::Discard { hand_index, discard_pile });
        }
    }
    assert_eq!(actions, expected);
    assert!(!actions.contains(&Action::EndTurn));
}

#[test]
fn an_empty_hand_ends_the_turn_or_plays_from_the_piles() {
    // No draw pile at all: the hand is empty, the stock top of seat 0 is a 1.
    let mut game = small_game(&[], &[2, 1], &[10, 11]);
    let actions = game.legal_actions(0).expect("actions");
    let mut expected = Vec::new();
    for pile in 0..4 {
        expected.push(play(CardSource::Stock, pile));
    }
    expected.push(Action::EndTurn);
    assert_eq!(actions, expected);
    game.apply_action(0, play(CardSource::Stock, 2)).expect("play");
    let actions = game.legal_actions(0).expect("actions");
    assert_eq!(actions, vec![play(CardSource::Stock, 2), Action::EndTurn]);
}

#[test]
fn a_discard_top_can_be_played() {
    let mut game = small_game(&[1, 1, 1, 1, 1, 1, 9, 9, 9, 9, 1], &[12, 12], &[12, 12]);
    // Hand of seat 0: [1, 9, 9, 9, 9]. Park the 1 on discard pile 3 and pass.
    game.apply_action(0, Action::Discard { hand_index: 0, discard_pile: 3 }).expect("discard");
    assert_eq!(game.current_player(), 1);
    let view1 = game.state_view(1).expect("view");
    assert_eq!(view1.players[0].discard_tops, [None, None, None, Some(Card::Number(1))]);
    assert_eq!(view1.players[0].discard_counts, [0, 0, 0, 1]);
    assert_eq!(view1.players[0].hand_size, 4);
    // Seat 1 draws five 1s, discards one and passes back.
    game.apply_action(1, Action::Discard { hand_index: 0, discard_pile: 0 }).expect("discard");
    assert_eq!(game.current_player(), 0);
    let view0 = game.state_view(0).expect("view");
    assert_eq!(view0.hand, numbers(&[9, 9, 9, 9, 1]));
    let actions = game.legal_actions(0).expect("actions");
    assert!(actions.contains(&play(CardSource::Discard(3), 0)));
    assert!(actions.contains(&play(CardSource::Hand(4), 1)));
    game.apply_action(0, play(CardSource::Discard(3), 1)).expect("play");
    let view0 = game.state_view(0).expect("view");
    assert_eq!(view0.players[0].discard_tops, [None, None, None, None]);
    assert_eq!(view0.build_piles[1].cards, numbers(&[1]));
    assert_eq!(view0.build_piles[1].next_value, 2);
}

#[test]
fn playing_a_hand_card_shifts_the_later_cards() {
    let mut game = small_game(&[9, 8, 1, 6, 5], &[12, 12], &[12, 12]);
    let view = game.state_view(0).expect("view");
    assert_eq!(view.hand, numbers(&[5, 6, 1, 8, 9]));
    game.apply_action(0, play(CardSource::Hand(2), 0)).expect("play");
    let view = game.state_view(0).expect("view");
    assert_eq!(view.hand, numbers(&[5, 6, 8, 9]));
}

#[test]
fn emptying_the_stock_wins_at_once() {
    let mut game = small_game(&[9, 8, 7, 6, 5], &[1], &[12]);
    game.apply_action(0, play(CardSource::Stock, 0)).expect("play");
    assert_eq!(game.status(), GameStatus::Finished { winner: 0 });
    assert_eq!(game.turn_phase(), TurnPhase::GameOver);
    assert!(game.is_finished());
    assert_eq!(game.winner(), Some(0));
    let view = game.state_view(0).expect("view");
    assert!(view.players[0].has_won);
    assert!(!view.players[1].has_won);
    assert_eq!(view.players[0].stock_count, 0);
    // The hand is still there: the win does not wait for it.
    assert_eq!(view.hand.len(), 5);
    // Nothing is legal any more, for anybody.
    assert_eq!(game.legal_actions(0).expect("actions"), vec![]);
    assert_eq!(game.legal_actions(1).expect("actions"), vec![]);
    assert_eq!(game.legal_actions(7).expect("actions"), vec![]);
    assert!(matches!(game.apply_action(0, Action::EndTurn), Err(GameError::GameOver)));
    assert!(matches!(game.apply_action(7, Action::EndTurn), Err(GameError::GameOver)));
}

#[test]
fn the_second_player_can_win_too() {
    let mut game = small_game(&[1, 9, 9, 9, 9, 9, 8, 7, 6, 5], &[12], &[1]);
    game.apply_action(0, Action::Discard { hand_index: 0, discard_pile: 0 }).expect("discard");
    game.apply_action(1, play(CardSource::Stock, 3)).expect("play");
    assert_eq!(game.status(), GameStatus::Finished { winner: 1 });
    assert_eq!(game.winner(), Some(1));
    assert_eq!(game.current_player(), 1);
}

#[test]
fn cards_are_conserved_through_a_game() {
    let mut game = GameBuilder::new(3).expect("builder").with_seed(7).build().expect("game");
    let total = total_cards(&game.state_view(0).expect("view"));
    assert_eq!(total, 162);
    for _ in 0..400 {
        if game.is_finished() {
            break;
        }
        let current = game.current_player();
        let actions = game.legal_actions(current).expect("actions");
        // Take the first action listed: a play where there is one, else a discard.
        game.apply_action(current, actions[0]).expect("apply");
        assert_eq!(total_cards(&game.state_view(current).expect("view")), total);
    }
}

#[test]
fn every_listed_action_is_accepted() {
    let seeds = [1u64, 2, 3];
    for seed in seeds {
        for choice in 0..6 {
            let mut game =
                GameBuilder::new(2).expect("builder").with_seed(seed).build().expect("game");
            for turn in 0..60 {
                if game.is_finished() {
                    break;
                }
                let current = game.current_player();
                let actions = game.legal_actions(current).expect("actions");
                assert!(!actions.is_empty());
                let action = actions[(turn * 7 + choice) % actions.len()];
                game.apply_action(current, action).expect("a listed action is legal");
            }
        }
    }
}

#[test]
fn the_full_deck_is_shuffled_before_dealing() {
    let shuffled = GameBuilder::new(2).expect("builder").build().expect("game");
    let ordered =
        GameBuilder::new(2).expect("builder").with_deck(full_deck()).build().expect("game");
    let mut same = true;
    for player in 0..2 {
        let a = shuffled.state_view(player).expect("view");
        let b = ordered.state_view(player).expect("view");
        same = same && a.hand == b.hand && a.players[0].stock_top == b.players[0].stock_top
            && a.players[1].stock_top == b.players[1].stock_top;
    }
    assert!(!same);
    assert_eq!(total_cards(&shuffled.state_view(0).expect("view")), 162);
}

#[test]
fn the_same_seed_gives_the_same_game() {
    let first = GameBuilder::new(4).expect("builder").with_seed(99).build().expect("game");
    let second = GameBuilder::new(4).expect("builder").with_seed(99).build().expect("game");
    for player in 0..4 {
        assert_eq!(first.state_view(player).expect("view"), second.state_view(player).expect("view"));
    }
    let config = GameConfig::new(4, 99).expect("config");
    let third = Game::new(config).expect("game");
    assert_eq!(first.state_view(0).expect("view"), third.state_view(0).expect("view"));
}

#[test]
fn the_recycle_pile_is_reshuffled_into_the_draw_pile() {
    // Seat 0 holds 1..5 and a stock of 6..12 and 1 on top of spare cards: twelve plays
    // complete build pile 0.
    let mut game = small_game(
        &[5, 4, 3, 2, 1],
        &[12, 12, 12, 12, 1, 12, 11, 10, 9, 8, 7, 6],
        &[12; 12],
    );
    for _ in 0..5 {
        game.apply_action(0, play(CardSource::Hand(0), 0)).expect("play");
    }
    // The hand ran empty with nothing left to draw.
    assert_eq!(game.state_view(0).expect("view").hand.len(), 0);
    for _ in 0..7 {
        game.apply_action(0, play(CardSource::Stock, 0)).expect("play");
    }
    let view = game.state_view(0).expect("view");
    assert_eq!(view.recycle_pile_count, 12);
    assert_eq!(view.draw_pile_count, 0);
    assert_eq!(view.build_piles[0].cards.len(), 0);
    // The stock play did not refill the hand: only a play from the hand does.
    assert_eq!(view.hand.len(), 0);
    game.apply_action(0, play(CardSource::Stock, 0)).expect("play");
    game.apply_action(0, Action::EndTurn).expect("end");
    let view = game.state_view(1).expect("view");
    assert_eq!(view.hand.len(), 5);
    assert_eq!(view.draw_pile_count, 7);
    assert_eq!(view.recycle_pile_count, 0);
    // The twelve recycled cards are the ones that were played.
    let mut seen: Vec<Card> = view.hand.clone();
    seen.sort_by_key(|card| card.value());
    for card in seen {
        assert!(matches!(card, Card::Number(v) if (1..=12).contains(&v)));
    }
    assert_eq!(total_cards(&view), 5 + 24);
}

#[test]
fn a_short_supply_gives_a_short_hand() {
    let game = small_game(&[3, 2], &[12], &[12]);
    let view = game.state_view(0).expect("view");
    assert_eq!(view.hand, numbers(&[2, 3]));
    assert_eq!(view.draw_pile_count, 0);
}

#[test]
fn a_stalemate_is_a_draw_after_one_round() {
    let mut game = small_game(&[], &[12], &[12]);
    assert_eq!(game.legal_actions(0).expect("actions"), vec![Action::EndTurn]);
    game.apply_action(0, Action::EndTurn).expect("end");
    assert_eq!(game.status(), GameStatus::Ongoing);
    assert_eq!(game.current_player(), 1);
    assert_eq!(game.legal_actions(1).expect("actions"), vec![Action::EndTurn]);
    game.apply_action(1, Action::EndTurn).expect("end");
    assert_eq!(game.status(), GameStatus::Draw);
    assert_eq!(game.turn_phase(), TurnPhase::GameOver);
    assert!(game.is_finished());
    assert_eq!(game.winner(), None);
    assert_eq!(game.legal_actions(0).expect("actions"), vec![]);
    assert!(matches!(game.apply_action(0, Action::EndTurn), Err(GameError::GameOver)));
}

#[test]
fn ending_a_turn_by_choice_does_not_count_towards_a_draw() {
    // Both players could play their stock top but end the turn instead.
    let mut game = small_game(&[], &[12, 1], &[12, 1]);
    for round in 0..6 {
        let current = game.current_player();
        assert_eq!(current, round % 2);
        game.apply_action(current, Action::EndTurn).expect("end");
        assert_eq!(game.status(), GameStatus::Ongoing);
    }
}

#[test]
fn a_play_breaks_a_run_of_idle_turns() {
    // Seat 0 is stuck, seat 1 can play a 1 from the stock.
    let mut game = small_game(&[], &[12, 12], &[12, 1]);
    game.apply_action(0, Action::EndTurn).expect("end");
    game.apply_action(1, play(CardSource::Stock, 0)).expect("play");
    game.apply_action(1, Action::EndTurn).expect("end");
    assert_eq!(game.status(), GameStatus::Ongoing);
    game.apply_action(0, Action::EndTurn).expect("end");
    assert_eq!(game.status(), GameStatus::Draw);
}

#[test]
fn three_players_need_three_idle_turns() {
    let deck = deck_for(&[], &[numbers(&[12]), numbers(&[12]), numbers(&[12])]);
    let mut game = GameBuilder::new(3)
        .expect("builder")
        .with_stock_size(1)
        .with_deck(deck)
        .build()
        .expect("game");
    game.apply_action(0, Action::EndTurn).expect("end");
    game.apply_action(1, Action::EndTurn).expect("end");
    assert_eq!(game.status(), GameStatus::Ongoing);
    game.apply_action(2, Action::EndTurn).expect("end");
    assert_eq!(game.status(), GameStatus::Draw);
}

#[test]
fn the_turn_wraps_round_the_table() {
    let mut game = GameBuilder::new(6).expect("builder").with_seed(5).build().expect("game");
    for seat in 0..13 {
        assert_eq!(game.current_player(), seat % 6);
        let current = game.current_player();
        game.apply_action(current, Action::Discard { hand_index: 0, discard_pile: seat % 4 })
            .expect("discard");
    }
    let view = game.state_view(0).expect("view");
    // Seat 0 has discarded three times and was refilled to five each time.
    assert_eq!(view.players[0].discard_counts.iter().sum::<usize>(), 3);
    assert_eq!(view.players[0].hand_size, 4);
    assert_eq!(view.players[1].hand_size, 5);
    assert_eq!(total_cards(&view), 162);
}
