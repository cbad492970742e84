//! Work on text: what the console agent and the naming of agents need.

use vstd::prelude::*;
use vstd::string::*;

verus! {

/// A text without the white space at its start and at its end, as `str::trim` of the
/// standard library leaves it.
pub uninterp spec fn trimmed(text: Seq<char>) -> Seq<char>;

/// A character with the capital letters A to Z turned into the small letters a to z.
pub open spec fn lower_char(c: char) -> char {
    if 'A' <= c && c <= 'Z' {
        ((c as u32) + 32) as char
    } else {
        c
    }
}

/// A text with its capital letters A to Z turned into small letters.
pub open spec fn lowered(text: Seq<char>) -> Seq<char> {
    Seq::new(text.len(), |i: int| lower_char(text[i]))
}

/// Calls `str::trim` of the standard library, which strips the white space at the
/// start and at the end of a text. The result is named, not spelled out: what counts as
/// white space is a matter of the character tables.
#[verifier::external_body]
pub(crate) fn trim_text(text: &str) -> (out: &str)
    ensures
        out@ == trimmed(text@),
{
    text.trim()
}

/// Calls `str::to_ascii_lowercase` of the standard library, which turns the letters A
/// to Z into a to z and leaves every other character as it is.
#[verifier::external_body]
pub(crate) fn lowercase_text(text: &str) -> (out: String)
    ensures
        out@ == lowered(text@),
{
    text.to_ascii_lowercase()
}

/// Calls `str::eq_ignore_ascii_case` of the standard library, which tells whether two
/// texts are the same once the letters A to Z of both are turned into a to z.
#[verifier::external_body]
pub(crate) fn same_ignoring_case(a: &str, b: &str) -> (same: bool)
    ensures
        same == (lowered(a@) == lowered(b@)),
{
    a.eq_ignore_ascii_case(b)
}

/// The place of the first colon of a text from place `from` on, and the length of the
/// text where there is none.
pub open spec fn colon_from(text: Seq<char>, from: int) -> int
    decreases text.len() - from,
{
    if from < 0 || from >= text.len() {
        text.len() as int
    } else if text[from] == ':' {
        from
    } else {
        colon_from(text, from + 1)
    }
}

/// The part of a text before its first colon: the whole text where it has none.
pub open spec fn head_of(text: Seq<char>) -> Seq<char> {
    text.take(colon_from(text, 0))
}

/// The part of a text before its first colon.
pub fn head_token(text: &str) -> (head: &str)
    ensures
        head@ == head_of(text@),
{
    let len = text.unicode_len();
    let mut at: usize = 0;
    let mut found = false;
    while at < len && !found
        invariant
            0 <= at <= len == text@.len(),
            found ==> at < len && text@[at as int] == ':',
            colon_from(text@, 0) == colon_from(text@, at as int),
        decreases len - at + (if found {
            0int
        } else {
            1
        }),
    {
        if text.get_char(at) == ':' {
            found = true;
        } else {
            at = at + 1;
        }
    }
    text.substring_char(0, at)
}

/// The value of a decimal digit.
pub open spec fn digit_value(c: char) -> Option<nat> {
    if '0' <= c && c <= '9' {
        Some((c as u32 - '0' as u32) as nat)
    } else {
        None
    }
}

/// The number that the first `upto` characters of a text spell in decimal digits, where
/// they are all digits.
pub open spec fn digits_value(text: Seq<char>, upto: int) -> Option<nat>
    decreases upto,
{
    if upto <= 0 {
        Some(0)
    } else {
        match (digits_value(text, upto - 1), digit_value(text[upto - 1])) {
            (Some(before), Some(digit)) => Some(before * 10 + digit),
            _ => None,
        }
    }
}

/// The number that a text spells: a number in decimal digits, with or without a plus
/// sign before it.
pub open spec fn number_in(text: Seq<char>) -> Option<nat> {
    let digits = if text.len() > 0 && text[0] == '+' {
        text.skip(1)
    } else {
        text
    };
    if digits.len() == 0 {
        None
    } else {
        digits_value(digits, digits.len() as int)
    }
}

/// The number that a text spells, where it fits 64 bits.
pub open spec fn seed_in(text: Seq<char>) -> Option<u64> {
    match number_in(text) {
        Some(value) => if value <= u64::MAX {
            Some(value as u64)
        } else {
            None
        },
        None => None,
    }
}

/// The index that a text spells: a number that fits the machine's integers.
pub open spec fn index_in(text: Seq<char>) -> Option<usize> {
    match number_in(text) {
        Some(value) => if value <= usize::MAX {
            Some(value as usize)
        } else {
            None
        },
        None => None,
    }
}

/// A text starts with another.
pub open spec fn starts_with(text: Seq<char>, prefix: Seq<char>) -> bool {
    prefix.len() <= text.len() && text.take(prefix.len() as int) == prefix
}

/// The part of a text after its first colon, where it has one.
pub open spec fn tail_of(text: Seq<char>) -> Option<Seq<char>> {
    if colon_from(text, 0) < text.len() {
        Some(text.skip(colon_from(text, 0) + 1))
    } else {
        None
    }
}

/// A number that the first characters of a text spell is no more than the one that
/// more of its characters spell.
proof fn lemma_digits_grow(text: Seq<char>, upto: int, more: int)
    requires
        0 <= upto <= more,
        digits_value(text, more) is Some,
    ensures
        digits_value(text, upto) is Some,
        digits_value(text, upto)->Some_0 <= digits_value(text, more)->Some_0,
    decreases more - upto,
{
    if upto < more {
        lemma_digits_grow(text, upto, more - 1);
    }
}

/// Reads the number that a text spells, where it fits 64 bits.
pub fn parse_number(text: &str) -> (value: Option<u64>)
    ensures
        value == seed_in(text@),
{
    let len = text.unicode_len();
    if len == 0 {
        return None;
    }
    let start: usize = if text.get_char(0) == '+' {
        1
    } else {
        0
    };
    if start == len {
        return None;
    }
    let ghost digits = if start == 1 {
        text@.skip(1)
    } else {
        text@
    };
    let mut value: u64 = 0;
    let mut at: usize = start;
    while at < len
        invariant
            start <= at <= len == text@.len(),
            start <= 1,
            start < len,
            (start == 1) == (text@[0] == '+'),
            digits == (if start == 1 {
                text@.skip(1)
            } else {
                text@
            }),
            digits.len() == len - start,
            digits_value(digits, at - start) == Some(value as nat),
        decreases len - at,
    {
        let c = text.get_char(at);
        assert(digits[at - start] == c);
        if c < '0' || c > '9' {
            proof {
                assert(digits_value(digits, at - start + 1) is None);
                if digits_value(digits, digits.len() as int) is Some {
                    lemma_digits_grow(digits, at - start + 1, digits.len() as int);
                }
            }
            return None;
        }
        let digit: u64 = (c as u32 - '0' as u32) as u64;
        let grown = match value.checked_mul(10) {
            Some(tens) => tens.checked_add(digit),
            None => None,
        };
        match grown {
            Some(next) => {
                value = next;
            },
            None => {
                proof {
                    assert(digits_value(digits, at - start + 1) == Some(
                        (value * 10 + digit) as nat,
                    ));
                    if digits_value(digits, digits.len() as int) is Some {
                        lemma_digits_grow(digits, at - start + 1, digits.len() as int);
                    }
                }
                return None;
            },
        }
        at = at + 1;
    }
    Some(value)
}

/// Reads the index that a text spells.
pub fn parse_index(text: &str) -> (value: Option<usize>)
    ensures
        value == index_in(text@),
{
    match parse_number(text) {
        Some(number) => if number <= usize::MAX as u64 {
            Some(number as usize)
        } else {
            None
        },
        None => None,
    }
}

/// Whether a text starts with another.
pub fn text_starts_with(text: &str, prefix: &str) -> (starts: bool)
    ensures
        starts == starts_with(text@, prefix@),
{
    let len = prefix.unicode_len();
    if len > text.unicode_len() {
        return false;
    }
    let mut at: usize = 0;
    while at < len
        invariant
            0 <= at <= len == prefix@.len() <= text@.len(),
            forall|i: int| 0 <= i < at ==> text@[i] == prefix@[i],
        decreases len - at,
    {
        if text.get_char(at) != prefix.get_char(at) {
            assert(text@.take(len as int)[at as int] != prefix@[at as int]);
            return false;
        }
        at = at + 1;
    }
    assert(text@.take(len as int) =~= prefix@);
    true
}

/// The part of a text after its first colon, where it has one.
pub fn tail_token(text: &str) -> (tail: Option<&str>)
    ensures
        match tail {
            Some(rest) => tail_of(text@) == Some(rest@),
            None => tail_of(text@) is None,
        },
{
    let len = text.unicode_len();
    let mut at: usize = 0;
    let mut found = false;
    while at < len && !found
        invariant
            0 <= at <= len == text@.len(),
            found ==> at < len && text@[at as int] == ':',
            colon_from(text@, 0) == colon_from(text@, at as int),
        decreases len - at + (if found {
            0int
        } else {
            1
        }),
    {
        if text.get_char(at) == ':' {
            found = true;
        } else {
            at = at + 1;
        }
    }
    if found {
        Some(text.substring_char(at + 1, len))
    } else {
        None
    }
}

} // verus!
