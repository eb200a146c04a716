//! Validation of a wait duration given as text: a decimal number of
//! milliseconds, at most ten seconds, taken from the `wait` query parameter
//! of a request.

pub mod decimal;
pub mod errors;
pub mod gate;
pub mod request;

pub use decimal::IntParseError;
pub use errors::ParseDurationError;
pub use gate::{parse_duration, MAX_WAIT_MS};
pub use request::{decide_wait, process_request, response_body};
