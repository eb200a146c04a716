//! From the query parameters of a request to the duration to wait, and from
//! there to the text of the response.

use crate::decimal::{decimal_digits, render_u64};
use crate::errors::{outcome_view, DurationFault, ParseDurationError};
use crate::gate::{parse_duration, parse_duration_spec, MAX_WAIT_MS};
use query_map::QueryMap;
use vstd::prelude::*;
use vstd::string::StringExecFns;

verus! {

/// The query parameters of a request, as `query_map` holds them: each name
/// with the values given for it, in the order in which they were given.
#[verifier::external_type_specification]
#[verifier::external_body]
pub struct ExQueryMap(QueryMap);

/// What a `QueryMap` holds: the values of each name that occurs in it.
pub uninterp spec fn query_entries(query: QueryMap) -> Map<Seq<char>, Seq<Seq<char>>>;

/// The first value that `entries` holds for `key`, if it holds one.
pub open spec fn first_value(entries: Map<Seq<char>, Seq<Seq<char>>>, key: Seq<char>) -> Option<
    Seq<char>,
> {
    if entries.contains_key(key) && entries[key].len() > 0 {
        Some(entries[key][0])
    } else {
        None
    }
}

/// The text of an optional string slice.
pub open spec fn option_text(raw: Option<&str>) -> Option<Seq<char>> {
    match raw {
        Some(text) => Some(text@),
        None => None,
    }
}

/// `QueryMap::first` of `query_map`: looks `key` up and hands out the first
/// of its values. Nothing comes back where the name does not occur or has no
/// value. The contract is taken from the method's source and is not proved.
#[verifier::external_body]
fn first_parameter<'a>(query: &'a QueryMap, key: &str) -> (r: Option<&'a str>)
    ensures
        option_text(r) == first_value(query_entries(*query), key@),
{
    query.first(key)
}

/// The name of the query parameter that holds the duration.
pub open spec fn wait_key() -> Seq<char> {
    "wait"@
}

/// What a request is worth whose `wait` parameter is `raw`: without the
/// parameter nothing is examined.
pub open spec fn decide_wait_spec(raw: Option<Seq<char>>) -> Result<u64, DurationFault> {
    match raw {
        None => Err(DurationFault::Missing),
        Some(text) => parse_duration_spec(text),
    }
}

/// Decides on a request from the value of its `wait` parameter, `None` where
/// the request has no such parameter.
pub fn decide_wait(raw: Option<&str>) -> (r: Result<u64, ParseDurationError>)
    ensures
        outcome_view(r) == decide_wait_spec(option_text(raw)),
        raw is None <==> r matches Err(ParseDurationError::DurationMissing),
        r matches Ok(millis) ==> millis <= MAX_WAIT_MS,
{
    match raw {
        None => Err(ParseDurationError::DurationMissing),
        Some(text) => parse_duration(text),
    }
}

/// Decides on a request from its query parameters: the number of
/// milliseconds to wait before the response, or why there will be no wait.
pub fn process_request(query: &QueryMap) -> (r: Result<u64, ParseDurationError>)
    ensures
        outcome_view(r) == decide_wait_spec(first_value(query_entries(*query), wait_key())),
        !query_entries(*query).contains_key(wait_key()) ==> r matches Err(
            ParseDurationError::DurationMissing,
        ),
        r matches Ok(millis) ==> millis <= MAX_WAIT_MS,
{
    decide_wait(first_parameter(query, "wait"))
}

/// The text of a response: the duration that was waited, or one fixed
/// sentence for every kind of error.
pub open spec fn response_body_spec(outcome: Result<u64, DurationFault>) -> Seq<char> {
    match outcome {
        Ok(millis) => "waited for "@ + decimal_digits(millis as nat) + " milliseconds"@,
        Err(_) => "invalid input"@,
    }
}

/// Writes the body of the response to a request that was decided as
/// `outcome`.
pub fn response_body(outcome: &Result<u64, ParseDurationError>) -> (body: String)
    ensures
        body@ == response_body_spec(outcome_view(*outcome)),
{
    match outcome {
        Ok(millis) => {
            let mut body = "waited for ".to_owned();
            body.append(render_u64(*millis).as_str());
            body.append(" milliseconds");
            body
        },
        Err(_) => "invalid input".to_owned(),
    }
}

} // verus!
