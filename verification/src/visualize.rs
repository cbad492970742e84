//! Text for people: the state of a game and the actions on offer, as lines of text.

use vstd::prelude::*;
use vstd::string::*;
use crate::action::{Action, CardSource};
use crate::card::Card;
use crate::state::{GameStateView, GameStatus, TurnPhase};

verus! {

/// A decimal digit as text.
pub open spec fn digit_text(digit: int) -> Seq<char> {
    if digit == 0 {
        "0"@
    } else if digit == 1 {
        "1"@
    } else if digit == 2 {
        "2"@
    } else if digit == 3 {
        "3"@
    } else if digit == 4 {
        "4"@
    } else if digit == 5 {
        "5"@
    } else if digit == 6 {
        "6"@
    } else if digit == 7 {
        "7"@
    } else if digit == 8 {
        "8"@
    } else {
        "9"@
    }
}

/// A number in decimal notation.
pub open spec fn decimal(n: nat) -> Seq<char>
    decreases n,
{
    if n < 10 {
        digit_text(n as int)
    } else {
        decimal(n / 10) + digit_text((n % 10) as int)
    }
}

/// A decimal digit as text.
fn digit_str(digit: usize) -> (text: &'static str)
    requires
        digit < 10,
    ensures
        text@ == digit_text(digit as int),
{
    if digit == 0 {
        "0"
    } else if digit == 1 {
        "1"
    } else if digit == 2 {
        "2"
    } else if digit == 3 {
        "3"
    } else if digit == 4 {
        "4"
    } else if digit == 5 {
        "5"
    } else if digit == 6 {
        "6"
    } else if digit == 7 {
        "7"
    } else if digit == 8 {
        "8"
    } else {
        "9"
    }
}

/// Writes a number in decimal notation.
pub fn number_text(n: usize) -> (text: String)
    ensures
        text@ == decimal(n as nat),
    decreases n,
{
    if n < 10 {
        String::from_str(digit_str(n))
    } else {
        number_text(n / 10).concat(digit_str(n % 10))
    }
}

/// A card as text: its value, or "SB" for the wildcard.
pub open spec fn card_text(card: Card) -> Seq<char> {
    match card {
        Card::Number(value) => decimal(value as nat),
        Card::SkipBo => "SB"@,
    }
}

fn format_card(card: Card) -> (text: String)
    ensures
        text@ == card_text(card),
{
    match card {
        Card::Number(value) => number_text(value as usize),
        Card::SkipBo => String::from_str("SB"),
    }
}

/// Customize state rendering.
#[derive(Clone, Copy, Debug)]
pub struct VisualOptions {
    pub show_build_sequences: bool,
    pub show_discard_sizes: bool,
}

impl Default for VisualOptions {
    fn default() -> (options: Self)
        ensures
            options.show_build_sequences,
            options.show_discard_sizes,
    {
        VisualOptions { show_build_sequences: true, show_discard_sizes: true }
    }
}

/// Fine tune textual action descriptions.
#[derive(Clone, Copy, Debug)]
pub struct DescribeOptions {
    pub include_card_details: bool,
    pub include_build_expectation: bool,
}

impl Default for DescribeOptions {
    fn default() -> (options: Self)
        ensures
            options.include_card_details,
            options.include_build_expectation,
    {
        DescribeOptions { include_card_details: true, include_build_expectation: true }
    }
}

/// A card that may be missing as text: the card, or "--".
pub open spec fn top_text(top: Option<Card>) -> Seq<char> {
    match top {
        Some(card) => card_text(card),
        None => "--"@,
    }
}

/// The status of a game as text.
pub open spec fn status_text(status: GameStatus) -> Seq<char> {
    match status {
        GameStatus::Ongoing => "Ongoing"@,
        GameStatus::Finished { winner } => "Finished (winner: Player "@ + decimal(winner as nat)
            + ")"@,
        GameStatus::Draw => "Finished (draw)"@,
    }
}

/// The phase of a turn as text.
pub open spec fn phase_text(phase: TurnPhase) -> Seq<char> {
    match phase {
        TurnPhase::AwaitingAction => "AwaitingAction"@,
        TurnPhase::GameOver => "GameOver"@,
    }
}

/// The first `count` cards as text, with a space between two cards.
pub open spec fn cards_text(cards: Seq<Card>, count: int) -> Seq<char>
    decreases count,
{
    if count <= 0 {
        Seq::empty()
    } else if count == 1 {
        card_text(cards[0])
    } else {
        cards_text(cards, count - 1) + " "@ + card_text(cards[count - 1])
    }
}

/// The cards of a build pile as text: in brackets, or "[-]" where they are not to be
/// shown or there are none.
pub open spec fn sequence_text(cards: Seq<Card>, options: VisualOptions) -> Seq<char> {
    if options.show_build_sequences && cards.len() > 0 {
        "["@ + cards_text(cards, cards.len() as int) + "]"@
    } else {
        "[-]"@
    }
}

/// The line of build pile `index`.
pub open spec fn pile_line(state: &GameStateView, index: int, options: VisualOptions) -> Seq<char> {
    let pile = state.build_piles[index];
    "  ["@ + decimal(index as nat) + "] next "@ + decimal(pile.next_value as nat) + "  "@
        + sequence_text(pile.cards@, options) + "\n"@
}

/// The lines of the first `count` build piles.
pub open spec fn pile_lines(state: &GameStateView, count: int, options: VisualOptions) -> Seq<char>
    decreases count,
{
    if count <= 0 {
        Seq::empty()
    } else {
        pile_lines(state, count - 1, options) + pile_line(state, count - 1, options)
    }
}

/// Discard pile `index` of a player as text: the index and the top, and the size where
/// sizes are to be shown.
pub open spec fn discard_text(
    state: &GameStateView,
    place: int,
    index: int,
    options: VisualOptions,
) -> Seq<char> {
    let player = state.players@[place];
    if options.show_discard_sizes {
        decimal(index as nat) + ":"@ + top_text(player.discard_tops[index]) + " ("@ + decimal(
            player.discard_counts[index] as nat,
        ) + ")"@
    } else {
        decimal(index as nat) + ":"@ + top_text(player.discard_tops[index])
    }
}

/// The first `count` discard piles of a player as text, with two spaces between two
/// piles.
pub open spec fn discards_text(
    state: &GameStateView,
    place: int,
    count: int,
    options: VisualOptions,
) -> Seq<char>
    decreases count,
{
    if count <= 0 {
        Seq::empty()
    } else if count == 1 {
        discard_text(state, place, 0, options)
    } else {
        discards_text(state, place, count - 1, options) + "  "@ + discard_text(
            state,
            place,
            count - 1,
            options,
        )
    }
}

/// The first `count` hand cards as text, each with its index, with two spaces between
/// two cards.
pub open spec fn hand_text(hand: Seq<Card>, count: int) -> Seq<char>
    decreases count,
{
    if count <= 0 {
        Seq::empty()
    } else if count == 1 {
        decimal(0) + ":"@ + card_text(hand[0])
    } else {
        hand_text(hand, count - 1) + "  "@ + (decimal((count - 1) as nat) + ":"@ + card_text(
            hand[count - 1],
        ))
    }
}

/// The line about the hand of the player at `place`: the cards for the snapshot's own
/// player, the size for the others.
pub open spec fn hand_line(state: &GameStateView, place: int) -> Seq<char> {
    let player = state.players@[place];
    if player.id == state.self_player {
        if state.hand@.len() == 0 {
            "    Hand: (empty)\n"@
        } else {
            "    Hand: "@ + hand_text(state.hand@, state.hand@.len() as int) + "\n"@
        }
    } else {
        "    Hand size: "@ + decimal(player.hand_size as nat) + "\n"@
    }
}

/// The lines of the player at `place`.
pub open spec fn player_lines(state: &GameStateView, place: int, options: VisualOptions) -> Seq<
    char,
> {
    let player = state.players@[place];
    "  Player "@ + decimal(player.id as nat) + (if player.id == state.self_player {
        " (You)"@
    } else {
        ""@
    }) + " - stock "@ + decimal(player.stock_count as nat) + " (top: "@ + top_text(
        player.stock_top,
    ) + ")"@ + (if player.is_current {
        " <- current"@
    } else {
        ""@
    }) + "\n"@ + "    Discards: "@ + discards_text(
        state,
        place,
        state.settings.discard_piles as int,
        options,
    ) + "\n"@ + hand_line(state, place)
}

/// The lines of the first `count` players.
pub open spec fn players_lines(state: &GameStateView, count: int, options: VisualOptions) -> Seq<
    char,
>
    decreases count,
{
    if count <= 0 {
        Seq::empty()
    } else {
        players_lines(state, count - 1, options) + player_lines(state, count - 1, options)
    }
}

/// A snapshot as text.
pub open spec fn rendered(state: &GameStateView, options: VisualOptions) -> Seq<char> {
    "Game status: "@ + status_text(state.status) + "\n"@ + "Phase: "@ + phase_text(state.phase)
        + "\n"@ + "Current player: "@ + decimal(state.current_player as nat) + (
    if state.current_player == state.self_player {
        " (You)"@
    } else {
        ""@
    }) + "\n"@ + "Draw pile: "@ + decimal(state.draw_pile_count as nat) + "  |  Recycle pile: "@
        + decimal(state.recycle_pile_count as nat) + "\n"@ + "Build piles:\n"@ + pile_lines(
        state,
        4,
        options,
    ) + "Players:\n"@ + players_lines(state, state.players@.len() as int, options)
}

/// The source of a play as text.
pub open spec fn source_text(state: &GameStateView, source: CardSource, options: DescribeOptions) -> Seq<
    char,
> {
    match source {
        CardSource::Hand(index) => if index < state.hand@.len() && options.include_card_details {
            "hand["@ + decimal(index as nat) + "] "@ + card_text(state.hand@[index as int])
        } else {
            "hand["@ + decimal(index as nat) + "]"@
        },
        CardSource::Stock => match state.own_place() {
            Some(place) => match state.players@[place].stock_top {
                Some(card) => if options.include_card_details {
                    "stock top "@ + card_text(card)
                } else {
                    "stock top"@
                },
                None => "stock (empty)"@,
            },
            None => "stock"@,
        },
        CardSource::Discard(index) => match state.own_place() {
            Some(place) => if options.include_card_details {
                "discard["@ + decimal(index as nat) + "] "@ + top_text(
                    if index < 4 {
                        state.players@[place].discard_tops[index as int]
                    } else {
                        None
                    },
                )
            } else {
                "discard["@ + decimal(index as nat) + "]"@
            },
            None => "discard["@ + decimal(index as nat) + "]"@,
        },
    }
}

/// An action as text.
pub open spec fn described(state: &GameStateView, action: Action, options: DescribeOptions) -> Seq<
    char,
> {
    match action {
        Action::Play { source, build_pile } => if options.include_build_expectation {
            "Play "@ + source_text(state, source, options) + " to build pile "@ + decimal(
                build_pile as nat,
            ) + " (needs "@ + decimal(
                if build_pile < 4 {
                    state.build_piles[build_pile as int].next_value as nat
                } else {
                    0
                },
            ) + ")"@
        } else {
            "Play "@ + source_text(state, source, options) + " to build pile "@ + decimal(
                build_pile as nat,
            )
        },
        Action::Discard { hand_index, discard_pile } => if options.include_card_details {
            "Discard hand["@ + decimal(hand_index as nat) + "] "@ + top_text(
                if hand_index < state.hand@.len() {
                    Some(state.hand@[hand_index as int])
                } else {
                    None
                },
            ) + " to pile "@ + decimal(discard_pile as nat)
        } else {
            "Discard hand["@ + decimal(hand_index as nat) + "] to pile "@ + decimal(
                discard_pile as nat,
            )
        },
        Action::EndTurn => "End turn"@,
    }
}

/// A card that may be missing as text.
fn format_top(top: Option<Card>) -> (text: String)
    ensures
        text@ == top_text(top),
{
    match top {
        Some(card) => format_card(card),
        None => String::from_str("--"),
    }
}

/// The cards of a build pile as text.
fn format_sequence(cards: &Vec<Card>, options: VisualOptions) -> (text: String)
    ensures
        text@ == sequence_text(cards@, options),
{
    if options.show_build_sequences && cards.len() > 0 {
        let mut seq = format_card(cards[0]);
        let mut index: usize = 1;
        while index < cards.len()
            invariant
                1 <= index <= cards@.len(),
                seq@ == cards_text(cards@, index as int),
            decreases cards@.len() - index,
        {
            seq.append(" ");
            seq.append(format_card(cards[index]).as_str());
            index = index + 1;
        }
        let mut text = String::from_str("[");
        text.append(seq.as_str());
        text.append("]");
        text
    } else {
        String::from_str("[-]")
    }
}

/// The line of a build pile.
fn format_pile_line(state: &GameStateView, index: usize, options: VisualOptions) -> (text: String)
    requires
        index < 4,
    ensures
        text@ == pile_line(state, index as int, options),
{
    let pile = &state.build_piles[index];
    let mut text = String::from_str("  [");
    text.append(number_text(index).as_str());
    text.append("] next ");
    text.append(number_text(pile.next_value as usize).as_str());
    text.append("  ");
    text.append(format_sequence(&pile.cards, options).as_str());
    text.append("\n");
    text
}

/// One discard pile of a player as text.
fn format_discard(state: &GameStateView, place: usize, index: usize, options: VisualOptions) -> (text:
    String)
    requires
        place < state.players@.len(),
        index < 4,
    ensures
        text@ == discard_text(state, place as int, index as int, options),
{
    let player = &state.players[place];
    let mut text = number_text(index);
    text.append(":");
    text.append(format_top(player.discard_tops[index]).as_str());
    if options.show_discard_sizes {
        text.append(" (");
        text.append(number_text(player.discard_counts[index]).as_str());
        text.append(")");
    }
    text
}

/// The discard piles of a player as text.
fn format_discards(state: &GameStateView, place: usize, options: VisualOptions) -> (text: String)
    requires
        place < state.players@.len(),
        state.settings.discard_piles <= 4,
    ensures
        text@ == discards_text(state, place as int, state.settings.discard_piles as int, options),
{
    let count = state.settings.discard_piles;
    if count == 0 {
        return String::new();
    }
    let mut text = format_discard(state, place, 0, options);
    let mut index: usize = 1;
    while index < count
        invariant
            1 <= index <= count <= 4,
            place < state.players@.len(),
            text@ == discards_text(state, place as int, index as int, options),
        decreases count - index,
    {
        text.append("  ");
        text.append(format_discard(state, place, index, options).as_str());
        index = index + 1;
    }
    text
}

/// The hand as text.
fn format_hand(hand: &Vec<Card>) -> (text: String)
    ensures
        text@ == hand_text(hand@, hand@.len() as int),
{
    if hand.len() == 0 {
        return String::new();
    }
    let mut text = number_text(0);
    text.append(":");
    text.append(format_card(hand[0]).as_str());
    let mut index: usize = 1;
    while index < hand.len()
        invariant
            1 <= index <= hand@.len(),
            text@ == hand_text(hand@, index as int),
        decreases hand@.len() - index,
    {
        let mut entry = number_text(index);
        entry.append(":");
        entry.append(format_card(hand[index]).as_str());
        text.append("  ");
        text.append(entry.as_str());
        index = index + 1;
    }
    text
}

/// The line about the hand of a player.
fn format_hand_line(state: &GameStateView, place: usize) -> (text: String)
    requires
        place < state.players@.len(),
    ensures
        text@ == hand_line(state, place as int),
{
    let player = &state.players[place];
    if player.id == state.self_player {
        if state.hand.len() == 0 {
            String::from_str("    Hand: (empty)\n")
        } else {
            let mut text = String::from_str("    Hand: ");
            text.append(format_hand(&state.hand).as_str());
            text.append("\n");
            text
        }
    } else {
        let mut text = String::from_str("    Hand size: ");
        text.append(number_text(player.hand_size).as_str());
        text.append("\n");
        text
    }
}

/// The lines of a player.
fn format_player(state: &GameStateView, place: usize, options: VisualOptions) -> (text: String)
    requires
        place < state.players@.len(),
        state.settings.discard_piles <= 4,
    ensures
        text@ == player_lines(state, place as int, options),
{
    let player = &state.players[place];
    let mut text = String::from_str("  Player ");
    text.append(number_text(player.id).as_str());
    text.append(
        if player.id == state.self_player {
            " (You)"
        } else {
            ""
        },
    );
    text.append(" - stock ");
    text.append(number_text(player.stock_count).as_str());
    text.append(" (top: ");
    text.append(format_top(player.stock_top).as_str());
    text.append(")");
    text.append(
        if player.is_current {
            " <- current"
        } else {
            ""
        },
    );
    text.append("\n");
    text.append("    Discards: ");
    text.append(format_discards(state, place, options).as_str());
    text.append("\n");
    text.append(format_hand_line(state, place).as_str());
    text
}

/// The status of a game as text.
fn format_status(status: GameStatus) -> (text: String)
    ensures
        text@ == status_text(status),
{
    match status {
        GameStatus::Ongoing => String::from_str("Ongoing"),
        GameStatus::Finished { winner } => {
            let mut text = String::from_str("Finished (winner: Player ");
            text.append(number_text(winner).as_str());
            text.append(")");
            text
        },
        GameStatus::Draw => String::from_str("Finished (draw)"),
    }
}

/// Writes a snapshot as text, with every build pile's cards and every discard pile's
/// size.
pub fn render_state(state: &GameStateView) -> (text: String)
    requires
        state.settings.discard_piles <= 4,
    ensures
        text@ == rendered(
            state,
            VisualOptions { show_build_sequences: true, show_discard_sizes: true },
        ),
{
    render_state_with_options(
        state,
        VisualOptions { show_build_sequences: true, show_discard_sizes: true },
    )
}

/// Writes a snapshot as text: the status, the phase, whose turn it is, the sizes of the
/// draw and recycle piles, a line for each build pile, and three lines for each
/// player.
pub fn render_state_with_options(state: &GameStateView, options: VisualOptions) -> (text: String)
    requires
        state.settings.discard_piles <= 4,
    ensures
        text@ == rendered(state, options),
{
    let mut piles = String::new();
    let mut index: usize = 0;
    while index < 4
        invariant
            0 <= index <= 4,
            piles@ == pile_lines(state, index as int, options),
        decreases 4 - index,
    {
        piles.append(format_pile_line(state, index, options).as_str());
        index = index + 1;
    }
    let mut players = String::new();
    let mut place: usize = 0;
    while place < state.players.len()
        invariant
            0 <= place <= state.players@.len(),
            state.settings.discard_piles <= 4,
            players@ == players_lines(state, place as int, options),
        decreases state.players@.len() - place,
    {
        players.append(format_player(state, place, options).as_str());
        place = place + 1;
    }
    let mut out = String::from_str("Game status: ");
    out.append(format_status(state.status).as_str());
    out.append("\n");
    out.append("Phase: ");
    out.append(
        match state.phase {
            TurnPhase::AwaitingAction => "AwaitingAction",
            TurnPhase::GameOver => "GameOver",
        },
    );
    out.append("\n");
    out.append("Current player: ");
    out.append(number_text(state.current_player).as_str());
    out.append(
        if state.current_player == state.self_player {
            " (You)"
        } else {
            ""
        },
    );
    out.append("\n");
    out.append("Draw pile: ");
    out.append(number_text(state.draw_pile_count).as_str());
    out.append("  |  Recycle pile: ");
    out.append(number_text(state.recycle_pile_count).as_str());
    out.append("\n");
    out.append("Build piles:\n");
    out.append(piles.as_str());
    out.append("Players:\n");
    out.append(players.as_str());
    out
}

/// The source of a play as text.
fn format_source(state: &GameStateView, source: CardSource, options: DescribeOptions) -> (text:
    String)
    ensures
        text@ == source_text(state, source, options),
{
    match source {
        CardSource::Hand(index) => {
            let mut text = String::from_str("hand[");
            text.append(number_text(index).as_str());
            if index < state.hand.len() && options.include_card_details {
                text.append("] ");
                text.append(format_card(state.hand[index]).as_str());
            } else {
                text.append("]");
            }
            text
        },
        CardSource::Stock => match state.own_index() {
            Some(place) => {
                proof {
                    state.lemma_own_place();
                }
                match state.players[place].stock_top {
                    Some(card) => if options.include_card_details {
                        let mut text = String::from_str("stock top ");
                        text.append(format_card(card).as_str());
                        text
                    } else {
                        String::from_str("stock top")
                    },
                    None => String::from_str("stock (empty)"),
                }
            },
            None => String::from_str("stock"),
        },
        CardSource::Discard(index) => {
            let mut text = String::from_str("discard[");
            text.append(number_text(index).as_str());
            match state.own_index() {
                Some(place) => {
                    proof {
                        state.lemma_own_place();
                    }
                    if options.include_card_details {
                        let top = if index < 4 {
                            state.players[place].discard_tops[index]
                        } else {
                            None
                        };
                        text.append("] ");
                        text.append(format_top(top).as_str());
                    } else {
                        text.append("]");
                    }
                },
                None => {
                    text.append("]");
                },
            }
            text
        },
    }
}

/// Writes an action as text, with the cards it moves and the value its build pile
/// asks for.
pub fn describe_action(state: &GameStateView, action: &Action) -> (text: String)
    ensures
        text@ == described(
            state,
            *action,
            DescribeOptions { include_card_details: true, include_build_expectation: true },
        ),
{
    describe_action_with_options(
        state,
        action,
        DescribeOptions { include_card_details: true, include_build_expectation: true },
    )
}

/// Writes an action as text.
pub fn describe_action_with_options(
    state: &GameStateView,
    action: &Action,
    options: DescribeOptions,
) -> (text: String)
    ensures
        text@ == described(state, *action, options),
{
    match action {
        Action::Play { source, build_pile } => {
            let pile_info: usize = if *build_pile < 4 {
                state.build_piles[*build_pile].next_value as usize
            } else {
                0
            };
            let mut text = String::from_str("Play ");
            text.append(format_source(state, *source, options).as_str());
            text.append(" to build pile ");
            text.append(number_text(*build_pile).as_str());
            if options.include_build_expectation {
                text.append(" (needs ");
                text.append(number_text(pile_info).as_str());
                text.append(")");
            }
            text
        },
        Action::Discard { hand_index, discard_pile } => {
            let mut text = String::from_str("Discard hand[");
            text.append(number_text(*hand_index).as_str());
            if options.include_card_details {
                let card = if *hand_index < state.hand.len() {
                    Some(state.hand[*hand_index])
                } else {
                    None
                };
                text.append("] ");
                text.append(format_top(card).as_str());
                text.append(" to pile ");
            } else {
                text.append("] to pile ");
            }
            text.append(number_text(*discard_pile).as_str());
            text
        },
        Action::EndTurn => String::from_str("End turn"),
    }
}

} // verus!
