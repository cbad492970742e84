//! Names of agents as they are given on the command line.
//!
//! A name is `human`, `random` or `heuristic`, the last with or without a number; a
//! colon may follow, and after it the name of the person or the seed of the random
//! agent. Capital and small letters are the same, and whatever follows the name up to
//! the colon does not count.

use vstd::prelude::*;
use vstd::string::*;
use crate::text::{
    head_of, head_token, lowercase_text, lowered, parse_number, seed_in, starts_with, tail_of,
    tail_token, text_starts_with, trim_text, trimmed,
};
use crate::visualize::{decimal, number_text};

verus! {

/// The agent that a name asks for.
#[derive(Clone, Debug, PartialEq, Eq)]
pub enum BotSpec {
    /// A person at the console, with a name.
    Human { name: String },
    /// The random agent, with its seed.
    Random { seed: u64 },
    /// A rule-based agent: 1 for the scoring agent, else the number of the agent.
    Heuristic { variant: u8 },
}

/// Largest seat index for which a seed is derived.
pub const SEAT_LIMIT: usize = 0xFFFF_FFFF;

/// The rule-based agent that a name in small letters asks for.
pub open spec fn variant_of(lower: Seq<char>) -> Option<u8> {
    if starts_with(lower, "heuristic10"@) {
        Some(10)
    } else if starts_with(lower, "heuristic12"@) {
        Some(12)
    } else if starts_with(lower, "heuristic14"@) {
        Some(14)
    } else if starts_with(lower, "heuristic15"@) {
        Some(15)
    } else if starts_with(lower, "heuristic16"@) {
        Some(16)
    } else if starts_with(lower, "heuristic17"@) {
        Some(17)
    } else if starts_with(lower, "heuristic18"@) {
        Some(18)
    } else if starts_with(lower, "heuristic4"@) {
        Some(4)
    } else if starts_with(lower, "heuristic6"@) {
        Some(6)
    } else if starts_with(lower, "heuristic8"@) {
        Some(8)
    } else if starts_with(lower, "heuristic"@) {
        Some(1)
    } else {
        None
    }
}

/// The seed of a random agent at seat `index` that is given none of its own.
pub open spec fn seat_seed(index: usize, seed: u64) -> u64 {
    seed ^ (((index + 1) * 0x9E37_79B9) as u64)
}

/// The name of the person that a name asks for: what follows the colon, without the
/// white space around it, and "Human" with the seat index where there is no colon.
pub open spec fn human_name(spec: Seq<char>, index: usize) -> Seq<char> {
    match tail_of(spec) {
        Some(rest) => trimmed(rest),
        None => "Human "@ + decimal(index as nat),
    }
}

/// The seed that a name asks for: the number after the colon, and the seed of the seat
/// where there is no colon or no number after it.
pub open spec fn random_seed(spec: Seq<char>, index: usize, seed: u64) -> u64 {
    match tail_of(spec) {
        Some(rest) => match seed_in(rest) {
            Some(own) => own,
            None => seat_seed(index, seed),
        },
        None => seat_seed(index, seed),
    }
}

/// Returns a normalized label for a bot spec: the part before any colon, without the
/// white space around it, in small letters.
pub fn label_for_spec(spec: &str) -> (label: String)
    ensures
        label@ == lowered(trimmed(head_of(spec@))),
{
    lowercase_text(trim_text(head_token(spec)))
}

/// The rule-based agent that a name in small letters asks for.
fn heuristic_variant(lower: &str) -> (variant: Option<u8>)
    ensures
        variant == variant_of(lower@),
{
    if text_starts_with(lower, "heuristic10") {
        Some(10)
    } else if text_starts_with(lower, "heuristic12") {
        Some(12)
    } else if text_starts_with(lower, "heuristic14") {
        Some(14)
    } else if text_starts_with(lower, "heuristic15") {
        Some(15)
    } else if text_starts_with(lower, "heuristic16") {
        Some(16)
    } else if text_starts_with(lower, "heuristic17") {
        Some(17)
    } else if text_starts_with(lower, "heuristic18") {
        Some(18)
    } else if text_starts_with(lower, "heuristic4") {
        Some(4)
    } else if text_starts_with(lower, "heuristic6") {
        Some(6)
    } else if text_starts_with(lower, "heuristic8") {
        Some(8)
    } else if text_starts_with(lower, "heuristic") {
        Some(1)
    } else {
        None
    }
}

/// Makes out which agent a name asks for, for the seat `index` of a game with the given
/// seed; nothing for a name that is none of `human`, `random` and `heuristic`.
pub fn parse_bot_spec(spec: &str, index: usize, seed: u64) -> (parsed: Option<BotSpec>)
    requires
        index <= SEAT_LIMIT,
    ensures
        match parsed {
            Some(BotSpec::Human { name }) => starts_with(lowered(spec@), "human"@) && name@
                == human_name(spec@, index),
            Some(BotSpec::Random { seed: own }) => !starts_with(lowered(spec@), "human"@)
                && starts_with(lowered(spec@), "random"@) && own == random_seed(
                spec@,
                index,
                seed,
            ),
            Some(BotSpec::Heuristic { variant }) => !starts_with(lowered(spec@), "human"@)
                && !starts_with(lowered(spec@), "random"@) && variant_of(lowered(spec@)) == Some(
                variant,
            ),
            None => !starts_with(lowered(spec@), "human"@) && !starts_with(
                lowered(spec@),
                "random"@,
            ) && variant_of(lowered(spec@)) is None,
        },
{
    let spec_lower = lowercase_text(spec);
    if text_starts_with(spec_lower.as_str(), "human") {
        let name = match tail_token(spec) {
            Some(rest) => String::from_str(trim_text(rest)),
            None => {
                let mut name = String::from_str("Human ");
                name.append(number_text(index).as_str());
                name
            },
        };
        Some(BotSpec::Human { name })
    } else if text_starts_with(spec_lower.as_str(), "random") {
        let own: Option<u64> = match tail_token(spec) {
            Some(rest) => parse_number(rest),
            None => None,
        };
        let custom_seed: u64 = match own {
            Some(value) => value,
            None => {
                assert((index + 1) * 0x9E37_79B9 <= u64::MAX) by (nonlinear_arith)
                    requires
                        index <= 0xFFFF_FFFF,
                ;
                seed ^ ((index as u64 + 1) * 0x9E37_79B9)
            },
        };
        Some(BotSpec::Random { seed: custom_seed })
    } else {
        match heuristic_variant(spec_lower.as_str()) {
            Some(variant) => Some(BotSpec::Heuristic { variant }),
            None => None,
        }
    }
}

} // verus!
