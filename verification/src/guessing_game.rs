//! A guessing game: a secret number between 1 and 100, and guesses that are
//! read as text and judged too small, too big or right.

use crate::text::trim;
use crate::text::trimmed;
use crate::text::to_chars;
use vstd::prelude::*;

verus! {

/// A guess between 1 and 100.
pub struct Guess {
    value: u32,
}

impl Guess {
    /// The number guessed.
    pub closed spec fn spec_value(self) -> u32 {
        self.value
    }

    /// A guess of `value`, which must lie between 1 and 100.
    pub fn new(value: u32) -> (guess: Guess)
        requires
            1 <= value <= 100,
        ensures
            guess.spec_value() == value,
    {
        Guess { value }
    }

    /// The number guessed.
    pub fn value(&self) -> (value: u32)
        ensures
            value == self.spec_value(),
    {
        self.value
    }
}

/// `rand::Rng::gen_range` on the thread's generator: some number from `low`
/// up to, but not including, `high`. Which one is a matter of chance.
#[verifier::external_body]
fn random_between(low: u32, high: u32) -> (n: u32)
    requires
        low < high,
    ensures
        low <= n < high,
{
    rand::Rng::gen_range(&mut rand::thread_rng(), low, high)
}

/// Picks the number to be guessed: any number from 1 to 100.
pub fn secret_number() -> (secret: u32)
    ensures
        1 <= secret <= 100,
{
    random_between(1, 101)
}

/// Why a text is not a number.
#[derive(PartialEq, Eq, Structural, Debug, Clone, Copy)]
pub enum ParseError {
    /// There is nothing to read.
    Empty,
    /// Something other than a digit stands where a digit must.
    InvalidDigit,
    /// The number does not fit 32 bits.
    TooLarge,
}

impl ParseError {
    /// The words for each error.
    pub open spec fn text(self) -> Seq<char> {
        match self {
            ParseError::Empty => "cannot parse integer from empty string"@,
            ParseError::InvalidDigit => "invalid digit found in string"@,
            ParseError::TooLarge => "number too large to fit in target type"@,
        }
    }

    /// The words that tell the user what went wrong.
    pub fn message(&self) -> (msg: &'static str)
        ensures
            msg@ == self.text(),
    {
        match self {
            ParseError::Empty => "cannot parse integer from empty string",
            ParseError::InvalidDigit => "invalid digit found in string",
            ParseError::TooLarge => "number too large to fit in target type",
        }
    }
}

/// The value of a decimal digit, or ten for any other character.
pub open spec fn digit_value(c: char) -> nat {
    if '0' <= c <= '9' {
        (c as nat - '0' as nat) as nat
    } else {
        10
    }
}

/// Reads `digits` from left to right onto `so_far`. The first character that
/// is no digit, or the first digit with which the number leaves the range of
/// `u32`, ends the reading with its error.
pub open spec fn read_digits(digits: Seq<char>, so_far: nat) -> Result<u32, ParseError>
    decreases digits.len(),
{
    if digits.len() == 0 {
        Ok(so_far as u32)
    } else if digit_value(digits[0]) >= 10 {
        Err(ParseError::InvalidDigit)
    } else if so_far * 10 + digit_value(digits[0]) > u32::MAX {
        Err(ParseError::TooLarge)
    } else {
        read_digits(digits.skip(1), so_far * 10 + digit_value(digits[0]))
    }
}

/// The number that `s` stands for: decimal digits, at least one, with or
/// without a plus sign in front.
pub open spec fn read_number(s: Seq<char>) -> Result<u32, ParseError> {
    if s.len() == 0 {
        Err(ParseError::Empty)
    } else {
        let digits = if s[0] == '+' {
            s.skip(1)
        } else {
            s
        };
        if digits.len() == 0 {
            Err(ParseError::InvalidDigit)
        } else {
            read_digits(digits, 0)
        }
    }
}

/// Reads `s` as a number.
pub fn parse_number(s: &str) -> (number: Result<u32, ParseError>)
    ensures
        number == read_number(s@),
{
    let chars = to_chars(s);
    if chars.len() == 0 {
        return Err(ParseError::Empty);
    }
    let start: usize = if chars[0] == '+' {
        1
    } else {
        0
    };
    if start == chars.len() {
        return Err(ParseError::InvalidDigit);
    }
    let ghost digits = chars@.skip(start as int);
    let mut so_far: u32 = 0;
    let mut i: usize = start;
    assert(chars@.skip(0) == chars@);
    assert(read_number(s@) == read_digits(digits, 0));
    while i < chars.len()
        invariant
            start <= i <= chars.len(),
            digits == chars@.skip(start as int),
            read_number(s@) == read_digits(digits, 0),
            read_digits(digits, 0) == read_digits(chars@.skip(i as int), so_far as nat),
        decreases chars.len() - i,
    {
        let c = chars[i];
        assert(chars@.skip(i as int).skip(1) == chars@.skip(i + 1));
        assert(chars@.skip(i as int)[0] == c);
        if c < '0' || c > '9' {
            return Err(ParseError::InvalidDigit);
        }
        let digit = (c as u32) - ('0' as u32);
        assert(digit == digit_value(c));
        if so_far > (u32::MAX - digit) / 10 {
            assert(so_far * 10 + digit > u32::MAX);
            return Err(ParseError::TooLarge);
        }
        so_far = so_far * 10 + digit;
        i += 1;
    }
    assert(chars@.skip(chars@.len() as int).len() == 0);
    Ok(so_far)
}

/// Reads a line that the user typed as a guess: white space around it does
/// not count.
pub fn parse_guess(line: &str) -> (guess: Result<u32, ParseError>)
    ensures
        guess == read_number(trimmed(line@)),
{
    parse_number(trim(line))
}

/// What a turn of the game comes to.
#[derive(PartialEq, Eq, Structural, Debug, Clone, Copy)]
pub enum Turn {
    /// The line was no number; the player may try again.
    Invalid(ParseError),
    /// The guess was below the secret number.
    TooSmall(u32),
    /// The guess was above the secret number.
    TooBig(u32),
    /// The guess was the secret number: the game is over.
    Win(u32),
}

/// How `guess` stands to `secret`.
pub open spec fn judged(guess: u32, secret: u32) -> Turn {
    if guess < secret {
        Turn::TooSmall(guess)
    } else if guess > secret {
        Turn::TooBig(guess)
    } else {
        Turn::Win(guess)
    }
}

/// Judges a guess against the secret number.
pub fn judge(guess: u32, secret: u32) -> (turn: Turn)
    ensures
        turn == judged(guess, secret),
{
    if guess < secret {
        Turn::TooSmall(guess)
    } else if guess > secret {
        Turn::TooBig(guess)
    } else {
        Turn::Win(guess)
    }
}

/// Plays one turn: reads the line that the player typed and judges the guess
/// against `secret`.
pub fn take_turn(secret: u32, line: &str) -> (turn: Turn)
    ensures
        turn == match read_number(trimmed(line@)) {
            Ok(guess) => judged(guess, secret),
            Err(error) => Turn::Invalid(error),
        },
{
    match parse_guess(line) {
        Ok(guess) => judge(guess, secret),
        Err(error) => Turn::Invalid(error),
    }
}

} // verus!
