//! The number guessing game: a secret number from one to a hundred, and the verdict
//! on each guess.
use vstd::prelude::*;
use rand::Rng;
use crate::text::{chars_of, parse_u32, parse_u32_spec, trim, trimmed};

verus! {

/// A number drawn from `low` to `high` inclusive, from `rand::thread_rng().gen_range`.
/// Only the range is stated: the draw is random.
#[verifier::external_body]
fn random_in_range(low: u32, high: u32) -> (r: u32)
    requires
        low <= high,
    ensures
        low <= r <= high,
{
    rand::thread_rng().gen_range(low..=high)
}

/// The smallest secret number.
pub const SECRET_LOW: u32 = 1;

/// The largest secret number.
pub const SECRET_HIGH: u32 = 100;

/// The range the secret number is drawn from, both ends included.
pub fn secret_range() -> (r: (u32, u32))
    ensures
        r == (SECRET_LOW, SECRET_HIGH),
{
    (SECRET_LOW, SECRET_HIGH)
}

/// The secret number, drawn from one to a hundred: the range that `secret_range`
/// gives is what is handed to the draw.
pub fn secret_number() -> (r: u32)
    ensures
        SECRET_LOW <= r <= SECRET_HIGH,
{
    let (low, high) = secret_range();
    random_in_range(low, high)
}

/// The verdict on one line of input.
#[derive(PartialEq, Eq, Structural, Clone, Copy, Debug)]
pub enum GuessOutcome {
    /// The line does not hold a number.
    Invalid,
    /// The guess is below the secret.
    Less,
    /// The guess is above the secret.
    Greater,
    /// The guess is the secret.
    Win,
}

/// The verdict on the line `line`: its trimmed text read as a `u32`, compared with
/// the secret.
pub open spec fn outcome_of(line: Seq<char>, secret: u32) -> GuessOutcome {
    match parse_u32_spec(trimmed(line)) {
        None => GuessOutcome::Invalid,
        Some(g) => if g == secret {
            GuessOutcome::Win
        } else if g > secret {
            GuessOutcome::Greater
        } else {
            GuessOutcome::Less
        },
    }
}

/// Judges one line of input against the secret.
pub fn check_guess(line: &str, secret: u32) -> (r: GuessOutcome)
    ensures
        r == outcome_of(line@, secret),
{
    let chars = chars_of(line);
    let t = trim(chars.as_slice());
    match parse_u32(t.as_slice()) {
        None => GuessOutcome::Invalid,
        Some(g) => if g == secret {
            GuessOutcome::Win
        } else if g > secret {
            GuessOutcome::Greater
        } else {
            GuessOutcome::Less
        },
    }
}

} // verus!

verus! {

/// A line that reads as the number `g` (after trimming) wins exactly when `g` is
/// the secret, is judged greater exactly when `g` is above the secret and less
/// exactly when it is below: numbers are compared by value, not as text.
pub proof fn law_guess_compares_by_value(line: Seq<char>, secret: u32, g: u32)
    requires
        parse_u32_spec(trimmed(line)) == Some(g),
    ensures
        (outcome_of(line, secret) == GuessOutcome::Win) == (g == secret),
        (outcome_of(line, secret) == GuessOutcome::Greater) == (g > secret),
        (outcome_of(line, secret) == GuessOutcome::Less) == (g < secret),
{
}

/// A line that holds the base-ten digits of `g` (and perhaps white space around
/// them) is judged by comparing `g` with the secret as numbers: `"9"` is less than
/// a secret of 50 and `"100"` greater.
pub proof fn law_guess_digits_compare_by_value(line: Seq<char>, secret: u32, g: u32)
    requires
        trimmed(line) == crate::text::decimal(g as nat),
    ensures
        (outcome_of(line, secret) == GuessOutcome::Win) == (g == secret),
        (outcome_of(line, secret) == GuessOutcome::Greater) == (g > secret),
        (outcome_of(line, secret) == GuessOutcome::Less) == (g < secret),
{
    crate::text::law_u32_decimal_roundtrip(g);
    law_guess_compares_by_value(line, secret, g);
}

/// A line whose trimmed text does not read as a number is invalid, whatever the
/// secret.
pub proof fn law_guess_unreadable_is_invalid(line: Seq<char>, secret: u32)
    requires
        parse_u32_spec(trimmed(line)) is None,
    ensures
        outcome_of(line, secret) == GuessOutcome::Invalid,
{
}

} // verus!
