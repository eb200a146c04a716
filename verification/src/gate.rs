//! The rule that turns the text of a `wait` parameter into a duration.

use crate::decimal::{
    all_digits, decimal_digits, decimal_value, digit_prefix_len, lemma_digit_prefix,
    lemma_digit_prefix_len, lemma_written_then_read, parse_u64, parse_u64_spec,
};
use crate::errors::{outcome_view, DurationFault, ParseDurationError};
use vstd::prelude::*;

verus! {

/// The longest wait that is granted, in milliseconds.
pub const MAX_WAIT_MS: u64 = 10000;

/// What the text of a `wait` parameter is worth: the number of milliseconds
/// it denotes where that is at most `MAX_WAIT_MS`, else the reason why not.
pub open spec fn parse_duration_spec(text: Seq<char>) -> Result<u64, DurationFault> {
    match parse_u64_spec(text) {
        Err(parse) => Err(DurationFault::Invalid { input: text, parse }),
        Ok(millis) => if millis > MAX_WAIT_MS {
            Err(DurationFault::TooLong { input: millis, max: MAX_WAIT_MS })
        } else {
            Ok(millis)
        },
    }
}

/// Validates the text of a `wait` parameter.
pub fn parse_duration(value: &str) -> (r: Result<u64, ParseDurationError>)
    ensures
        outcome_view(r) == parse_duration_spec(value@),
        r matches Ok(millis) ==> millis <= MAX_WAIT_MS,
{
    match parse_u64(value) {
        Err(parse) => Err(ParseDurationError::InvalidDuration { input: value.to_owned(), parse }),
        Ok(millis) => if millis > MAX_WAIT_MS {
            Err(ParseDurationError::DurationTooLong { input: millis, max: MAX_WAIT_MS })
        } else {
            Ok(millis)
        },
    }
}

/// A numeral of a number up to `MAX_WAIT_MS` is accepted and gives that
/// number, whatever zeros lead it.
pub proof fn lemma_numeral_in_range_accepted(text: Seq<char>)
    requires
        text.len() > 0,
        all_digits(text),
        decimal_value(text) <= MAX_WAIT_MS,
    ensures
        parse_duration_spec(text) == Ok::<u64, DurationFault>(decimal_value(text) as u64),
{
    assert(text.take(text.len() as int) =~= text);
    lemma_digit_prefix_len(text, text.len() as int);
}

/// Every number up to `MAX_WAIT_MS`, written in base ten, is accepted and
/// comes back as itself.
pub proof fn lemma_written_in_range_accepted(millis: u64)
    requires
        millis <= MAX_WAIT_MS,
    ensures
        parse_duration_spec(decimal_digits(millis as nat)) == Ok::<u64, DurationFault>(millis),
{
    lemma_written_then_read(millis);
}

/// A numeral of a number above `MAX_WAIT_MS` that a `u64` still holds is
/// refused as too long, and the error carries the number and the limit.
pub proof fn lemma_numeral_above_range_too_long(text: Seq<char>)
    requires
        text.len() > 0,
        all_digits(text),
        MAX_WAIT_MS < decimal_value(text) <= u64::MAX,
    ensures
        parse_duration_spec(text) == Err::<u64, DurationFault>(
            DurationFault::TooLong { input: decimal_value(text) as u64, max: MAX_WAIT_MS },
        ),
{
    assert(text.take(text.len() as int) =~= text);
    lemma_digit_prefix_len(text, text.len() as int);
}

/// A text that is empty, holds a character that is no digit, or denotes a
/// number above `u64::MAX` is refused as invalid, and the error carries the
/// text.
pub proof fn lemma_no_numeral_invalid(text: Seq<char>)
    requires
        text.len() == 0 || !all_digits(text) || decimal_value(text) > u64::MAX,
    ensures
        parse_duration_spec(text) matches Err(DurationFault::Invalid { input, .. }) && input
            == text,
{
    lemma_digit_prefix(text);
    let k = digit_prefix_len(text) as int;
    if text.len() > 0 && k == text.len() {
        assert(text.take(k) =~= text);
    }
}

/// Validation depends on the text alone: two results for one text are the
/// same.
pub proof fn lemma_same_text_same_outcome(
    text: Seq<char>,
    first: Result<u64, ParseDurationError>,
    second: Result<u64, ParseDurationError>,
)
    requires
        outcome_view(first) == parse_duration_spec(text),
        outcome_view(second) == parse_duration_spec(text),
    ensures
        outcome_view(first) == outcome_view(second),
{
}

} // verus!
