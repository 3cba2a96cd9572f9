//! Settings of the tracking loop and the parsing of their command-line values.
use vstd::prelude::*;

use crate::decimal::{parse_u64, u64_value};
use vstd::string::StringSliceAdditionalSpecFns;

verus! {

/// Default time between two polls of the idle loop, in ms.
pub const DEFAULT_INTERVAL_MS: u64 = 300;

/// Default wait after a failure before attaching again, in seconds.
pub const DEFAULT_ERROR_INTERVAL_SECS: u64 = 3;

/// Settings of the tracking loop.
pub struct Args {
    /// The song library's folder; found from the attached process when absent.
    pub osu_path: Option<String>,
    /// Time between two polls of the idle loop, in ms.
    pub interval_ms: u64,
    /// Wait after a failure before attaching again, in seconds.
    pub error_interval_secs: u64,
}

impl Default for Args {
    fn default() -> (r: Args)
        ensures
            r.osu_path.is_none(),
            r.interval_ms == DEFAULT_INTERVAL_MS,
            r.error_interval_secs == DEFAULT_ERROR_INTERVAL_SECS,
    {
        Args {
            osu_path: None,
            interval_ms: DEFAULT_INTERVAL_MS,
            error_interval_secs: DEFAULT_ERROR_INTERVAL_SECS,
        }
    }
}

/// A command-line value that is not a non-negative integer of 64 bits.
#[derive(Debug, PartialEq, Eq, Structural, Clone, Copy)]
pub struct ParseIntError;

fn parse_count(arg: &str) -> (r: Result<u64, ParseIntError>)
    ensures
        match u64_value(arg.spec_bytes()) {
            Some(v) => r == Ok::<u64, ParseIntError>(v),
            None => r is Err,
        },
{
    let b = arg.as_bytes();
    assert(b@.subrange(0, b@.len() as int) =~= b@);
    match parse_u64(b, 0, b.len()) {
        Some(v) => Ok(v),
        None => Err(ParseIntError),
    }
}

/// Reads an interval given in ms.
pub fn parse_interval_ms(arg: &str) -> (r: Result<u64, ParseIntError>)
    ensures
        match u64_value(arg.spec_bytes()) {
            Some(v) => r == Ok::<u64, ParseIntError>(v),
            None => r is Err,
        },
{
    parse_count(arg)
}

/// Reads an interval given in seconds.
pub fn parse_interval_secs(arg: &str) -> (r: Result<u64, ParseIntError>)
    ensures
        match u64_value(arg.spec_bytes()) {
            Some(v) => r == Ok::<u64, ParseIntError>(v),
            None => r is Err,
        },
{
    parse_count(arg)
}

} // verus!
