use duration_gate::{parse_duration, IntParseError, ParseDurationError, MAX_WAIT_MS};

fn invalid_reason(text: &str) -> IntParseError {
    match parse_duration(text) {
        Err(ParseDurationError::InvalidDuration { input, parse }) => {
            assert_eq!(input, text);
            parse
        }
        other => panic!("{:?} was not refused as invalid: {:?}", text, other),
    }
}

#[test]
fn longest_wait_is_ten_seconds() {
    assert_eq!(MAX_WAIT_MS, 10000);
}

#[test]
fn every_number_in_range_is_accepted() {
    for n in 0..=10000u64 {
        assert!(matches!(parse_duration(&format!("{}", n)), Ok(m) if m == n));
    }
}

#[test]
fn numbers_above_the_range_are_too_long() {
    for n in [10001u64, 10002, 65536, 5000000, 4294967296, u64::MAX - 1, u64::MAX] {
        match parse_duration(&format!("{}", n)) {
            Err(ParseDurationError::DurationTooLong { input, max }) => {
                assert_eq!(input, n);
                assert_eq!(max, 10000);
            }
            other => panic!("unexpected outcome for {}: {:?}", n, other),
        }
    }
}

#[test]
fn boundary_is_inclusive() {
    assert!(matches!(parse_duration("10000"), Ok(10000)));
    assert!(matches!(
        parse_duration("10001"),
        Err(ParseDurationError::DurationTooLong { input: 10001, max: 10000 })
    ));
}

#[test]
fn zero_is_accepted() {
    assert!(matches!(parse_duration("0"), Ok(0)));
}

#[test]
fn leading_zeros_count_for_nothing() {
    assert!(matches!(parse_duration("0005"), Ok(5)));
    assert!(matches!(parse_duration("00000000000000000000000000010000"), Ok(10000)));
    assert!(matches!(
        parse_duration("00000000000000000000000000010001"),
        Err(ParseDurationError::DurationTooLong { input: 10001, max: 10000 })
    ));
}

#[test]
fn empty_text_is_invalid() {
    assert_eq!(invalid_reason(""), IntParseError::Empty);
}

#[test]
fn stray_characters_are_invalid() {
    for text in ["500x", "x500", "5 00", " 500", "500 ", "\t5", "5\n", "abc", "0x10", "1_000"] {
        assert_eq!(invalid_reason(text), IntParseError::InvalidDigit);
    }
}

#[test]
fn signs_are_invalid() {
    for text in ["+5", "-5", "+", "-", "+0", "-0", "5+", "5-"] {
        assert_eq!(invalid_reason(text), IntParseError::InvalidDigit);
    }
}

#[test]
fn fractions_and_exponents_are_invalid() {
    for text in ["1.5", "1.0", ".5", "5.", "1e3", "1E3", "1,5"] {
        assert_eq!(invalid_reason(text), IntParseError::InvalidDigit);
    }
}

#[test]
fn digits_of_other_scripts_are_invalid() {
    for text in ["\u{0665}", "5\u{0660}", "\u{ff15}", "\u{00b2}", "5\u{00e9}"] {
        assert_eq!(invalid_reason(text), IntParseError::InvalidDigit);
    }
}

#[test]
fn numbers_beyond_sixty_four_bits_are_invalid() {
    for text in [
        "18446744073709551616",
        "18446744073709551620",
        "99999999999999999999",
        "100000000000000000000",
        "340282366920938463463374607431768211456",
    ] {
        assert_eq!(invalid_reason(text), IntParseError::PosOverflow);
    }
}

#[test]
fn largest_sixty_four_bit_number_is_read_and_too_long() {
    assert!(matches!(
        parse_duration("18446744073709551615"),
        Err(ParseDurationError::DurationTooLong { input: 18446744073709551615, max: 10000 })
    ));
}

#[test]
fn first_obstacle_from_the_left_decides() {
    assert_eq!(invalid_reason("99999999999999999999x"), IntParseError::PosOverflow);
    assert_eq!(invalid_reason("x99999999999999999999"), IntParseError::InvalidDigit);
    assert_eq!(invalid_reason("18446744073709551615x"), IntParseError::InvalidDigit);
    assert_eq!(invalid_reason("1844674407370955161x6"), IntParseError::InvalidDigit);
}

#[test]
fn same_text_gives_the_same_outcome() {
    for text in ["", "0", "500", "10000", "10001", "500x", "99999999999999999999"] {
        let first = format!("{:?}", parse_duration(text));
        let second = format!("{:?}", parse_duration(text));
        assert_eq!(first, second);
    }
}

#[test]
fn unsigned_texts_are_read_as_the_standard_library_reads_them() {
    let texts = [
        "", "0", "7", "42", "500", "0500", "9999", "10000", "10001", "500x", "x", " 1", "1 ",
        "-1", "1.0", "18446744073709551615", "18446744073709551616", "99999999999999999999x",
        "1844674407370955161x6", "\u{0665}",
    ];
    for text in texts {
        let ours = duration_gate::decimal::parse_u64(text).ok();
        let theirs = text.parse::<u64>().ok();
        assert_eq!(ours, theirs);
    }
}
