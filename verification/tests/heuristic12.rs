use skipbot::Bot;
use skipbot::action::{Action, CardSource};
use skipbot::bots::heuristic_12::Heuristic12Bot;
use skipbot::card::Card;
use skipbot::state::{
    BuildPileView, GameSettings, GameStateView, GameStatus, PlayerPublicState, TurnPhase,
};

#[test]
fn heuristic12_prefers_one_below_discard() {

    let settings = GameSettings::new(2).unwrap();
    let build_piles = [
        BuildPileView::empty(),
        BuildPileView::empty(),
        BuildPileView::empty(),
        BuildPileView::empty(),
    ];



    let self_player = PlayerPublicState {
        id: 0,
        stock_count: 30,
        stock_top: None,
        discard_tops: [Some(Card::Number(5)), Some(Card::Number(10)), None, None],
        discard_counts: [1, 1, 0, 0],
        hand_size: 2,
        is_current: true,
        has_won: false,
    };
    let other_player = PlayerPublicState {
        id: 1,
        stock_count: 30,
        stock_top: None,
        discard_tops: [None, None, None, None],
        discard_counts: [0, 0, 0, 0],
        hand_size: 0,
        is_current: false,
        has_won: false,
    };

    let state = GameStateView {
        settings,
        phase: TurnPhase::AwaitingAction,
        status: GameStatus::Ongoing,
        self_player: 0,
        current_player: 0,
        draw_pile_count: 0,
        recycle_pile_count: 0,
        build_piles,
        players: vec![self_player, other_player],
        hand: vec![Card::Number(4), Card::Number(9)],
    };


    let legal_actions: Vec<Action> = vec![
        Action::Discard {
            hand_index: 0,
            discard_pile: 0,
        },
        Action::Discard {
            hand_index: 0,
            discard_pile: 2,
        },
        Action::Discard {
            hand_index: 1,
            discard_pile: 1,
        },
    ];

    assert!(state.is_well_formed());
    let mut bot = Heuristic12Bot::new();
    let chosen = bot.select_action(&state, &legal_actions);
    assert_eq!(
        chosen,
        Action::Discard {
            hand_index: 0,
            discard_pile: 0
        },
        "Bot should prefer discarding the one-below card onto pile with top 5"
    );
}

fn plan_state(hand: Vec<Card>, stock_top: Option<Card>, next_values: [u8; 4]) -> GameStateView {
    let pile = |next: u8| BuildPileView {
        cards: (1..next).map(Card::Number).collect(),
        next_value: next,
    };
    let own = PlayerPublicState {
        id: 0,
        stock_count: 30,
        stock_top,
        discard_tops: [None, None, None, None],
        discard_counts: [0, 0, 0, 0],
        hand_size: hand.len(),
        is_current: true,
        has_won: false,
    };
    let other = PlayerPublicState {
        id: 1,
        stock_count: 30,
        stock_top: None,
        discard_tops: [None, None, None, None],
        discard_counts: [0, 0, 0, 0],
        hand_size: 0,
        is_current: false,
        has_won: false,
    };
    GameStateView {
        settings: GameSettings::new(2).unwrap(),
        phase: TurnPhase::AwaitingAction,
        status: GameStatus::Ongoing,
        self_player: 0,
        current_player: 0,
        draw_pile_count: 0,
        recycle_pile_count: 0,
        build_piles: [
            pile(next_values[0]),
            pile(next_values[1]),
            pile(next_values[2]),
            pile(next_values[3]),
        ],
        players: vec![own, other],
        hand,
    }
}

#[test]
fn heuristic12_plays_the_whole_hand_where_it_can() {
    // No stock card to work towards; the hand [3, 2] goes onto pile 1 as 2 then 3.
    let state = plan_state(vec![Card::Number(3), Card::Number(2)], None, [1, 2, 1, 1]);
    let legal_actions = vec![
        Action::Play { source: CardSource::Hand(1), build_pile: 1 },
        Action::Discard { hand_index: 0, discard_pile: 0 },
        Action::Discard { hand_index: 1, discard_pile: 0 },
    ];
    let mut bot = Heuristic12Bot::new();
    assert!(state.is_well_formed());
    let chosen = bot.select_action(&state, &legal_actions);
    assert_eq!(chosen, Action::Play { source: CardSource::Hand(1), build_pile: 1 });
}
