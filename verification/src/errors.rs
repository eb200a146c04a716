//! The ways in which a wait duration can be refused.

use crate::decimal::{decimal_digits, render_u64, IntParseError};
use vstd::prelude::*;
use vstd::string::StringExecFns;

verus! {

/// Why no wait duration came out of a request. The three kinds exclude each
/// other.
#[derive(Debug)]
#[allow(inconsistent_fields)]
pub enum ParseDurationError {
    /// The text is a number, but one above the longest wait allowed.
    DurationTooLong { input: u64, max: u64 },
    /// The request holds no `wait` parameter.
    DurationMissing,
    /// The text is not the decimal numeral of a `u64`.
    InvalidDuration { input: String, parse: IntParseError },
}

/// A `ParseDurationError` as a mathematical value: the text it carries is a
/// sequence of characters.
#[allow(inconsistent_fields)]
pub enum DurationFault {
    TooLong { input: u64, max: u64 },
    Missing,
    Invalid { input: Seq<char>, parse: IntParseError },
}

impl View for ParseDurationError {
    type V = DurationFault;

    open spec fn view(&self) -> DurationFault {
        match *self {
            ParseDurationError::DurationTooLong { input, max } => DurationFault::TooLong {
                input,
                max,
            },
            ParseDurationError::DurationMissing => DurationFault::Missing,
            ParseDurationError::InvalidDuration { input, parse } => DurationFault::Invalid {
                input: input@,
                parse,
            },
        }
    }
}

/// What a validation gave, with the error taken by its view.
pub open spec fn outcome_view(r: Result<u64, ParseDurationError>) -> Result<u64, DurationFault> {
    match r {
        Ok(millis) => Ok(millis),
        Err(e) => Err(e@),
    }
}

/// The sentence that says why reading a number failed.
pub open spec fn parse_message(parse: IntParseError) -> Seq<char> {
    match parse {
        IntParseError::Empty => "cannot parse integer from empty string"@,
        IntParseError::InvalidDigit => "invalid digit found in string"@,
        IntParseError::PosOverflow => "number too large to fit in target type"@,
    }
}

/// The full detail of an error, as it is written to a log: the parameter's
/// name, the text or number that was refused, and the reason.
pub open spec fn fault_message(fault: DurationFault) -> Seq<char> {
    match fault {
        DurationFault::TooLong { input, max } => "the duration `"@ + decimal_digits(input as nat)
            + "` is too long. Only `"@ + decimal_digits(max as nat)
            + "` milliseconds are allowed."@,
        DurationFault::Missing => "query param `wait` is missing, e.g. ?wait=2000"@,
        DurationFault::Invalid { input, parse } => "`"@ + input
            + "` is not a valid duration, error: "@ + parse_message(parse),
    }
}

impl IntParseError {
    /// Says in a sentence why reading a number failed.
    pub fn message(&self) -> (text: String)
        ensures
            text@ == parse_message(*self),
    {
        match self {
            IntParseError::Empty => "cannot parse integer from empty string".to_owned(),
            IntParseError::InvalidDigit => "invalid digit found in string".to_owned(),
            IntParseError::PosOverflow => "number too large to fit in target type".to_owned(),
        }
    }
}

impl ParseDurationError {
    /// Writes the error out in full, for a log.
    pub fn message(&self) -> (text: String)
        ensures
            text@ == fault_message(self@),
    {
        match self {
            ParseDurationError::DurationTooLong { input, max } => {
                let mut text = "the duration `".to_owned();
                text.append(render_u64(*input).as_str());
                text.append("` is too long. Only `");
                text.append(render_u64(*max).as_str());
                text.append("` milliseconds are allowed.");
                text
            },
            ParseDurationError::DurationMissing => {
                "query param `wait` is missing, e.g. ?wait=2000".to_owned()
            },
            ParseDurationError::InvalidDuration { input, parse } => {
                let mut text = "`".to_owned();
                text.append(input.as_str());
                text.append("` is not a valid duration, error: ");
                text.append(parse.message().as_str());
                text
            },
        }
    }
}

} // verus!
