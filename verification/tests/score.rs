use skipbot::action::PlayerId;
use skipbot::score::winner_points;
use skipbot::state::{
    BuildPileView, GameSettings, GameStateView, GameStatus, PlayerPublicState, TurnPhase,
};

fn dummy_state(stock_counts: &[usize], winner: PlayerId) -> GameStateView {
    let players: Vec<PlayerPublicState> = stock_counts
        .iter()
        .enumerate()
        .map(|(i, &c)| PlayerPublicState {
            id: i,
            stock_count: c,
            stock_top: None,
            discard_tops: [None, None, None, None],
            discard_counts: [0, 0, 0, 0],
            hand_size: 0,
            is_current: false,
            has_won: i == winner,
        })
        .collect();
    GameStateView {
        settings: GameSettings {
            num_players: stock_counts.len(),
            stock_size: 30,
            hand_size: 5,
            discard_piles: 4,
            build_piles: 4,
        },
        phase: TurnPhase::GameOver,
        status: GameStatus::Finished { winner },
        self_player: winner,
        current_player: winner,
        draw_pile_count: 0,
        recycle_pile_count: 0,
        build_piles: [
            BuildPileView::empty(),
            BuildPileView::empty(),
            BuildPileView::empty(),
            BuildPileView::empty(),
        ],
        players,
        hand: Vec::new(),
    }
}

#[test]
fn test_winner_points_three_players() {
    let state = dummy_state(&[10, 0, 3], 1);
    assert_eq!(winner_points(&state, 1), 90);
}

#[test]
fn test_winner_points_two_players() {
    let state = dummy_state(&[0, 7], 0);
    assert_eq!(winner_points(&state, 0), 60);
}

#[test]
fn test_winner_points_all_opponents_empty() {
    let state = dummy_state(&[0, 0, 0, 0], 2);
    assert_eq!(winner_points(&state, 2), 25);
}
