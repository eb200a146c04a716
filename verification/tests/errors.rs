use duration_gate::{parse_duration, IntParseError, ParseDurationError};

#[test]
fn too_long_message_names_the_number_and_the_limit() {
    let e = ParseDurationError::DurationTooLong { input: 5000000, max: 10000 };
    assert_eq!(
        e.message(),
        "the duration `5000000` is too long. Only `10000` milliseconds are allowed."
    );
}

#[test]
fn missing_message_names_the_parameter() {
    assert_eq!(
        ParseDurationError::DurationMissing.message(),
        "query param `wait` is missing, e.g. ?wait=2000"
    );
}

#[test]
fn invalid_message_names_the_text_and_the_reason() {
    let e = ParseDurationError::InvalidDuration {
        input: String::from("500x"),
        parse: IntParseError::InvalidDigit,
    };
    assert_eq!(e.message(), "`500x` is not a valid duration, error: invalid digit found in string");
}

#[test]
fn reasons_read_as_the_standard_library_words_them() {
    let empty = "".parse::<u64>().unwrap_err();
    let digit = "x".parse::<u64>().unwrap_err();
    let large = "18446744073709551616".parse::<u64>().unwrap_err();
    assert_eq!(IntParseError::Empty.message(), format!("{}", empty));
    assert_eq!(IntParseError::InvalidDigit.message(), format!("{}", digit));
    assert_eq!(IntParseError::PosOverflow.message(), format!("{}", large));
}

#[test]
fn messages_of_refused_texts() {
    let cases = [
        ("", "`` is not a valid duration, error: cannot parse integer from empty string"),
        (
            "99999999999999999999",
            "`99999999999999999999` is not a valid duration, error: number too large to fit in target type",
        ),
        ("10001", "the duration `10001` is too long. Only `10000` milliseconds are allowed."),
    ];
    for (text, message) in cases {
        match parse_duration(text) {
            Err(e) => assert_eq!(e.message(), message),
            Ok(n) => panic!("{:?} was accepted as {}", text, n),
        }
    }
}
