use skipbot::bots::human::{interpret, Reply};
use skipbot::bots::registry::{label_for_spec, parse_bot_spec, BotSpec};
use skipbot::text::{head_token, parse_index, parse_number, tail_token, text_starts_with};

#[test]
fn a_label_is_the_head_in_small_letters() {
    assert_eq!(label_for_spec("heuristic"), "heuristic");
    assert_eq!(label_for_spec("Random:42"), "random");
    assert_eq!(label_for_spec("  Heuristic12 : x:y"), "heuristic12");
    assert_eq!(label_for_spec("HUMAN:Ada Lovelace"), "human");
    assert_eq!(label_for_spec(":nothing"), "");
    assert_eq!(label_for_spec(""), "");
    assert_eq!(label_for_spec("Zürich"), "zürich");
}

#[test]
fn the_head_ends_at_the_first_colon() {
    assert_eq!(head_token("a:b:c"), "a");
    assert_eq!(head_token("abc"), "abc");
    assert_eq!(head_token(":"), "");
    assert_eq!(head_token("é:è"), "é");
}

#[test]
fn an_index_is_a_number_in_decimal_digits() {
    assert_eq!(parse_index("0"), Some(0));
    assert_eq!(parse_index("007"), Some(7));
    assert_eq!(parse_index("+12"), Some(12));
    assert_eq!(parse_index("162"), Some(162));
    assert_eq!(parse_index(""), None);
    assert_eq!(parse_index("+"), None);
    assert_eq!(parse_index("-1"), None);
    assert_eq!(parse_index("1 2"), None);
    assert_eq!(parse_index("12a"), None);
    assert_eq!(parse_index("++1"), None);
    assert_eq!(parse_index("٣"), None);
    let most = usize::MAX.to_string();
    assert_eq!(parse_index(&most), Some(usize::MAX));
    let too_much = format!("{}0", most);
    assert_eq!(parse_index(&too_much), None);
    // What the standard library reads is read the same.
    for text in ["0", "007", "+12", "", "+", "-1", "1 2", "12a", "++1", "18446744073709551616"] {
        assert_eq!(parse_index(text), text.parse::<usize>().ok());
    }
}

#[test]
fn a_line_of_input_is_made_out() {
    assert_eq!(interpret("q\n", 3), Reply::Quit);
    assert_eq!(interpret("  QUIT  \n", 3), Reply::Quit);
    assert_eq!(interpret("Help\n", 3), Reply::Help);
    assert_eq!(interpret("2\n", 3), Reply::Choice(2));
    assert_eq!(interpret(" 0 \r\n", 3), Reply::Choice(0));
    assert_eq!(interpret("3\n", 3), Reply::OutOfRange);
    assert_eq!(interpret("two\n", 3), Reply::Invalid);
    assert_eq!(interpret("\n", 3), Reply::Invalid);
    assert_eq!(interpret("quit now\n", 3), Reply::Invalid);
    assert_eq!(interpret("0\n", 0), Reply::OutOfRange);
}

#[test]
fn a_prefix_is_told_character_by_character() {
    assert!(text_starts_with("heuristic12", "heuristic1"));
    assert!(text_starts_with("human", "human"));
    assert!(text_starts_with("anything", ""));
    assert!(!text_starts_with("huma", "human"));
    assert!(!text_starts_with("heuristic", "human"));
}

#[test]
fn the_tail_starts_after_the_first_colon() {
    assert_eq!(tail_token("a:b:c"), Some("b:c"));
    assert_eq!(tail_token("abc"), None);
    assert_eq!(tail_token("abc:"), Some(""));
    assert_eq!(tail_token(":x"), Some("x"));
}

#[test]
fn seeds_are_read_up_to_sixty_four_bits() {
    assert_eq!(parse_number("18446744073709551615"), Some(u64::MAX));
    assert_eq!(parse_number("18446744073709551616"), None);
    assert_eq!(parse_number("42"), Some(42));
    assert_eq!(parse_number(" 42"), None);
}

#[test]
fn names_of_agents_are_made_out() {
    let human = |name: &str| Some(BotSpec::Human { name: name.to_string() });
    assert_eq!(parse_bot_spec("human", 3, 9), human("Human 3"));
    assert_eq!(parse_bot_spec("Human: Ada ", 3, 9), human("Ada"));
    assert_eq!(parse_bot_spec("humanoid:x:y", 0, 9), human("x:y"));
    assert_eq!(parse_bot_spec("random:77", 2, 9), Some(BotSpec::Random { seed: 77 }));
    assert_eq!(
        parse_bot_spec("RANDOM", 2, 9),
        Some(BotSpec::Random { seed: 9 ^ (3 * 0x9E37_79B9) })
    );
    assert_eq!(
        parse_bot_spec("random:many", 0, 1),
        Some(BotSpec::Random { seed: 1 ^ 0x9E37_79B9 })
    );
    let heuristic = |variant: u8| Some(BotSpec::Heuristic { variant });
    assert_eq!(parse_bot_spec("heuristic", 0, 0), heuristic(1));
    assert_eq!(parse_bot_spec("Heuristic4", 0, 0), heuristic(4));
    assert_eq!(parse_bot_spec("heuristic6", 0, 0), heuristic(6));
    assert_eq!(parse_bot_spec("heuristic8", 0, 0), heuristic(8));
    assert_eq!(parse_bot_spec("heuristic10", 0, 0), heuristic(10));
    assert_eq!(parse_bot_spec("heuristic12", 0, 0), heuristic(12));
    for variant in 14..=18u8 {
        assert_eq!(parse_bot_spec(&format!("heuristic{variant}"), 0, 0), heuristic(variant));
    }
    assert_eq!(parse_bot_spec("heuristic19", 0, 0), heuristic(1));
    assert_eq!(parse_bot_spec("heuristic100", 0, 0), heuristic(10));
    assert_eq!(parse_bot_spec("heuristics", 0, 0), heuristic(1));
    assert_eq!(parse_bot_spec("policy", 0, 0), None);
    assert_eq!(parse_bot_spec("", 0, 0), None);
    assert_eq!(parse_bot_spec(" human", 0, 0), None);
}
