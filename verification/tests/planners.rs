use rand::rngs::StdRng;
use rand::SeedableRng;
use skipbot::action::{Action, CardSource};
use skipbot::bot::Bot;
use skipbot::bots::{
    Heuristic10Bot, Heuristic12Bot, Heuristic4Bot, Heuristic6Bot, Heuristic8Bot, HeuristicBot,
    RandomBot,
};
use skipbot::card::Card;
use skipbot::game::GameBuilder;
use skipbot::state::{
    BuildPileView, GameSettings, GameStateView, GameStatus, PlayerPublicState, TurnPhase,
};

fn pile(next: u8) -> BuildPileView {
    BuildPileView { cards: (1..next).map(Card::Number).collect(), next_value: next }
}

fn state_with(
    hand: Vec<Card>,
    stock_top: Option<Card>,
    discard_tops: [Option<Card>; 4],
    next_values: [u8; 4],
    next_stock_top: Option<Card>,
) -> GameStateView {
    let counts = [
        discard_tops[0].is_some() as usize,
        discard_tops[1].is_some() as usize,
        discard_tops[2].is_some() as usize,
        discard_tops[3].is_some() as usize,
    ];
    let own = PlayerPublicState {
        id: 0,
        stock_count: 30,
        stock_top,
        discard_tops,
        discard_counts: counts,
        hand_size: hand.len(),
        is_current: true,
        has_won: false,
    };
    let other = PlayerPublicState {
        id: 1,
        stock_count: 30,
        stock_top: next_stock_top,
        discard_tops: [None, None, None, None],
        discard_counts: [0, 0, 0, 0],
        hand_size: 0,
        is_current: false,
        has_won: false,
    };
    GameStateView {
        settings: GameSettings::new(2).unwrap(),
        phase: TurnPhase::AwaitingAction,
        status: GameStatus::Ongoing,
        self_player: 0,
        current_player: 0,
        draw_pile_count: 0,
        recycle_pile_count: 0,
        build_piles: [
            pile(next_values[0]),
            pile(next_values[1]),
            pile(next_values[2]),
            pile(next_values[3]),
        ],
        players: vec![own, other],
        hand,
    }
}

fn play(source: CardSource, build_pile: usize) -> Action {
    Action::Play { source, build_pile }
}

#[test]
fn the_stock_card_is_played_where_a_pile_asks_for_it() {
    let state = state_with(
        vec![Card::Number(9)],
        Some(Card::Number(3)),
        [None, None, None, None],
        [1, 3, 3, 1],
        None,
    );
    let legal = vec![
        play(CardSource::Stock, 1),
        play(CardSource::Stock, 2),
        Action::Discard { hand_index: 0, discard_pile: 0 },
    ];
    // Two piles ask for a 3 and hold as many cards: the later one is taken.
    assert_eq!(Heuristic4Bot::new().select_action(&state, &legal), play(CardSource::Stock, 2));
    assert_eq!(Heuristic6Bot::new().select_action(&state, &legal), play(CardSource::Stock, 2));
    assert_eq!(Heuristic10Bot::new().select_action(&state, &legal), play(CardSource::Stock, 2));
}

#[test]
fn the_way_to_the_stock_card_starts_with_the_discard_top() {
    // Stock 4; pile 0 asks for 2. A 2 lies on discard pile 1 and in the hand, a 3 in the
    // hand: the plan is discard[1], hand[1], then the stock.
    let state = state_with(
        vec![Card::Number(2), Card::Number(3)],
        Some(Card::Number(4)),
        [None, Some(Card::Number(2)), None, None],
        [2, 8, 9, 10],
        None,
    );
    let legal = vec![
        play(CardSource::Hand(0), 0),
        play(CardSource::Discard(1), 0),
        Action::Discard { hand_index: 0, discard_pile: 0 },
        Action::Discard { hand_index: 1, discard_pile: 0 },
    ];
    for mut bot in [
        Box::new(Heuristic4Bot::new()) as Box<dyn Bot>,
        Box::new(Heuristic6Bot::new()),
        Box::new(Heuristic8Bot::new()),
        Box::new(Heuristic10Bot::new()),
        Box::new(Heuristic12Bot::new()),
    ] {
        assert_eq!(bot.select_action(&state, &legal), play(CardSource::Discard(1), 0));
    }
}

#[test]
fn a_wildcard_fills_a_gap_on_the_way_to_the_stock_card() {
    // Stock 3; pile 2 asks for 2 and only a wildcard is at hand.
    let state = state_with(
        vec![Card::Number(9), Card::SkipBo],
        Some(Card::Number(3)),
        [None, None, None, None],
        [5, 6, 2, 7],
        None,
    );
    let legal = vec![
        play(CardSource::Hand(1), 0),
        play(CardSource::Hand(1), 2),
        Action::Discard { hand_index: 0, discard_pile: 0 },
    ];
    assert_eq!(Heuristic4Bot::new().select_action(&state, &legal), play(CardSource::Hand(1), 2));
}

#[test]
fn high_cards_are_played_when_the_stock_is_out_of_reach() {
    // Stock 2 cannot be reached (pile asks for 3 and up). Hand holds a 5 and an 8 that
    // can be played.
    let state = state_with(
        vec![Card::Number(5), Card::Number(8), Card::Number(4)],
        Some(Card::Number(2)),
        [None, None, None, None],
        [5, 8, 4, 11],
        None,
    );
    let legal = vec![
        play(CardSource::Hand(0), 0),
        play(CardSource::Hand(1), 1),
        play(CardSource::Hand(2), 2),
        Action::Discard { hand_index: 0, discard_pile: 0 },
    ];
    assert_eq!(Heuristic4Bot::new().select_action(&state, &legal), play(CardSource::Hand(1), 1));
    assert_eq!(Heuristic6Bot::new().select_action(&state, &legal), play(CardSource::Hand(1), 1));
    // With only the 4 on offer, the fourth agent plays it and the sixth holds it back.
    let low = vec![play(CardSource::Hand(2), 2), Action::Discard { hand_index: 2, discard_pile: 1 }];
    assert_eq!(Heuristic4Bot::new().select_action(&state, &low), play(CardSource::Hand(2), 2));
    assert_eq!(
        Heuristic6Bot::new().select_action(&state, &low),
        Action::Discard { hand_index: 2, discard_pile: 1 }
    );
}

#[test]
fn a_play_that_feeds_the_next_player_is_held_back() {
    // Playing the 8 onto pile 1 would leave it asking for 9, the next player's stock card.
    let state = state_with(
        vec![Card::Number(8), Card::Number(7)],
        Some(Card::Number(2)),
        [None, None, None, None],
        [5, 8, 7, 11],
        Some(Card::Number(9)),
    );
    let legal = vec![
        play(CardSource::Hand(0), 1),
        play(CardSource::Hand(1), 2),
        Action::Discard { hand_index: 0, discard_pile: 0 },
    ];
    assert_eq!(Heuristic6Bot::new().select_action(&state, &legal), play(CardSource::Hand(0), 1));
    assert_eq!(Heuristic8Bot::new().select_action(&state, &legal), play(CardSource::Hand(1), 2));
}

#[test]
fn a_pair_of_piles_is_kept() {
    // Piles 0 and 1 both ask for 7: the tenth agent does not break the pair.
    let state = state_with(
        vec![Card::Number(7), Card::Number(9)],
        Some(Card::Number(2)),
        [None, None, None, None],
        [7, 7, 9, 11],
        None,
    );
    let legal = vec![
        play(CardSource::Hand(0), 0),
        play(CardSource::Hand(0), 1),
        Action::Discard { hand_index: 0, discard_pile: 0 },
    ];
    assert_eq!(
        Heuristic10Bot::new().select_action(&state, &legal),
        Action::Discard { hand_index: 0, discard_pile: 0 }
    );
    assert_eq!(Heuristic8Bot::new().select_action(&state, &legal), play(CardSource::Hand(0), 0));
}

#[test]
fn the_scoring_agent_takes_the_last_of_the_best() {
    let state = state_with(
        vec![Card::Number(1)],
        Some(Card::Number(1)),
        [None, None, None, None],
        [1, 1, 1, 1],
        None,
    );
    // Stock plays score 10000 + 60 + 0 + 25 each: the last one listed wins.
    let legal = vec![
        play(CardSource::Stock, 0),
        play(CardSource::Stock, 3),
        play(CardSource::Hand(0), 1),
        Action::Discard { hand_index: 0, discard_pile: 0 },
    ];
    assert_eq!(HeuristicBot::new().select_action(&state, &legal), play(CardSource::Stock, 3));
    let discards = vec![
        Action::Discard { hand_index: 0, discard_pile: 0 },
        Action::Discard { hand_index: 0, discard_pile: 2 },
        Action::EndTurn,
    ];
    assert_eq!(
        HeuristicBot::new().select_action(&state, &discards),
        Action::Discard { hand_index: 0, discard_pile: 2 }
    );
    assert_eq!(HeuristicBot::new().select_action(&state, &[Action::EndTurn]), Action::EndTurn);
}

#[test]
fn the_random_agent_picks_a_listed_action() {
    let state = state_with(vec![], None, [None, None, None, None], [1, 1, 1, 1], None);
    let legal = vec![
        Action::Discard { hand_index: 0, discard_pile: 0 },
        Action::Discard { hand_index: 0, discard_pile: 1 },
        Action::Discard { hand_index: 0, discard_pile: 2 },
        Action::EndTurn,
    ];
    let mut bot = RandomBot::new(StdRng::seed_from_u64(11));
    let mut seen = [false; 4];
    for _ in 0..200 {
        let action = bot.select_action(&state, &legal);
        let at = legal.iter().position(|a| *a == action).expect("a listed action");
        seen[at] = true;
    }
    // Not always the first one: the choice is drawn, not fixed.
    assert!(seen.iter().filter(|s| **s).count() > 1);
}

#[test]
fn every_agent_plays_a_game_by_the_rules() {
    let mut bots: Vec<Box<dyn Bot>> = vec![
        Box::new(HeuristicBot::new()),
        Box::new(Heuristic4Bot::new()),
        Box::new(Heuristic8Bot::new()),
        Box::new(Heuristic12Bot::new()),
    ];
    let mut game = GameBuilder::new(4)
        .expect("builder")
        .with_seed(2024)
        .with_stock_size(5)
        .build()
        .expect("game");
    for _ in 0..3000 {
        if game.is_finished() {
            break;
        }
        let current = game.current_player();
        let state = game.state_view(current).expect("view");
        assert!(state.is_well_formed());
        let legal = game.legal_actions(current).expect("actions");
        let action = bots[current].select_action(&state, &legal);
        assert!(legal.contains(&action));
        game.apply_action(current, action).expect("a listed action is legal");
    }
    assert!(game.is_finished());
}

#[test]
fn a_snapshot_of_a_game_is_well_formed() {
    let game = GameBuilder::new(3).expect("builder").build().expect("game");
    for player in 0..3 {
        assert!(game.state_view(player).expect("view").is_well_formed());
    }
    let mut odd = game.state_view(0).expect("view");
    odd.self_player = 9;
    assert!(!odd.is_well_formed());
    let mut odd = game.state_view(0).expect("view");
    odd.hand.push(Card::Number(13));
    assert!(!odd.is_well_formed());
    let mut odd = game.state_view(0).expect("view");
    odd.build_piles[2].next_value = 0;
    assert!(!odd.is_well_formed());
    let mut odd = game.state_view(0).expect("view");
    odd.players[1].discard_counts[3] = 1_000_001;
    assert!(!odd.is_well_formed());
    let mut odd = game.state_view(0).expect("view");
    odd.current_player = 3;
    assert!(!odd.is_well_formed());
}
