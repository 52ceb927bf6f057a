use rust_primer::guessing_game::judge;
use rust_primer::guessing_game::parse_guess;
use rust_primer::guessing_game::parse_number;
use rust_primer::guessing_game::secret_number;
use rust_primer::guessing_game::take_turn;
use rust_primer::guessing_game::Guess;
use rust_primer::guessing_game::ParseError;
use rust_primer::guessing_game::Turn;

#[test]
fn secret_number_is_between_1_and_100() {
    let mut seen = [false; 101];
    for _ in 0..5000 {
        let secret = secret_number();
        assert!(1 <= secret && secret <= 100);
        seen[secret as usize] = true;
    }
    assert!(seen.iter().filter(|s| **s).count() > 50);
}

#[test]
fn guess_keeps_its_value() {
    assert_eq!(Guess::new(1).value(), 1);
    assert_eq!(Guess::new(42).value(), 42);
    assert_eq!(Guess::new(100).value(), 100);
}

#[test]
fn numbers_are_read_as_the_standard_library_reads_them() {
    let samples = [
        "", "0", "7", "42", "007", "+5", "+", "-", "-5", "+-5", "++5", "5+", " 5", "5 ", "4294967295",
        "4294967296", "04294967295", "99999999999", "99999999999x", "4294967295x", "42949672960x",
        "x99999999999", "1_000", "１２", "12a", "a12", "0x10", "1e3", "+0", "+4294967295", "+4294967296",
    ];
    for sample in samples {
        let expected = sample.parse::<u32>();
        let got = parse_number(sample);
        match (expected, got) {
            (Ok(n), Ok(m)) => assert_eq!(n, m, "value of {:?}", sample),
            (Err(e), Err(f)) => assert_eq!(e.to_string(), f.message(), "error of {:?}", sample),
            (e, g) => panic!("{:?}: expected {:?}, got {:?}", sample, e, g),
        }
    }
}

#[test]
fn each_error_has_its_input() {
    assert_eq!(parse_number(""), Err(ParseError::Empty));
    assert_eq!(parse_number("4 2"), Err(ParseError::InvalidDigit));
    assert_eq!(parse_number("4294967296"), Err(ParseError::TooLarge));
    assert_eq!(parse_number("4294967295"), Ok(4294967295));
}

#[test]
fn a_guess_may_have_white_space_around_it() {
    assert_eq!(parse_guess("42\n"), Ok(42));
    assert_eq!(parse_guess("  \t42\r\n"), Ok(42));
    assert_eq!(parse_guess("\u{3000}+7\u{a0}"), Ok(7));
    assert_eq!(parse_guess("\n"), Err(ParseError::Empty));
    assert_eq!(parse_guess("4 2\n"), Err(ParseError::InvalidDigit));
    assert_eq!(parse_guess("forty-two\n"), Err(ParseError::InvalidDigit));
}

#[test]
fn a_guess_is_too_small_too_big_or_right() {
    assert_eq!(judge(1, 50), Turn::TooSmall(1));
    assert_eq!(judge(49, 50), Turn::TooSmall(49));
    assert_eq!(judge(50, 50), Turn::Win(50));
    assert_eq!(judge(51, 50), Turn::TooBig(51));
    assert_eq!(judge(u32::MAX, 50), Turn::TooBig(u32::MAX));
}

#[test]
fn a_turn_reads_and_judges() {
    assert_eq!(take_turn(50, "50\n"), Turn::Win(50));
    assert_eq!(take_turn(50, " 7 \n"), Turn::TooSmall(7));
    assert_eq!(take_turn(50, "700\n"), Turn::TooBig(700));
    assert_eq!(take_turn(50, "fifty\n"), Turn::Invalid(ParseError::InvalidDigit));
    assert_eq!(take_turn(50, "\n"), Turn::Invalid(ParseError::Empty));
    assert_eq!(take_turn(50, "99999999999\n"), Turn::Invalid(ParseError::TooLarge));
}

#[test]
fn errors_speak_as_the_standard_library_does() {
    assert_eq!(ParseError::Empty.message(), "cannot parse integer from empty string");
    assert_eq!(ParseError::InvalidDigit.message(), "invalid digit found in string");
    assert_eq!(ParseError::TooLarge.message(), "number too large to fit in target type");
}
