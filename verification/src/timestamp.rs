//! Timestamps: a UTC instant held as plain calendar fields, read from text
//! by the clock library behind a trusted wrapper.

use vstd::prelude::*;
use chrono::{Datelike, Timelike};

verus! {

/// A UTC instant: the calendar fields of a `YYYY-MM-DD HH:MM` text,
/// interpreted as UTC.
#[derive(Clone, Copy, Debug, PartialEq, Eq, Structural)]
pub struct Timestamp {
    pub year: i32,
    pub month: u32,
    pub day: u32,
    pub hour: u32,
    pub minute: u32,
}

/// What a timestamp text parses to under the fixed `YYYY-MM-DD HH:MM`
/// pattern, or nothing when it does not match the pattern or names no real
/// instant. This is the clock library's parse, a function of the text alone.
pub uninterp spec fn spec_parse_timestamp(s: Seq<char>) -> Option<Timestamp>;

/// Relies on chrono's `NaiveDateTime::parse_from_str` with format `%F %R`
/// (calendar date, a space, then hour and minute), whose result depends on
/// the text alone, and on chrono's `Datelike` and `Timelike` accessors to
/// read out the parsed fields. The error value carries chrono's own
/// rendering of the failure.
#[verifier::external_body]
pub(crate) fn parse_timestamp_text(s: &str) -> (r: Result<Timestamp, String>)
    ensures
        r is Ok <==> spec_parse_timestamp(s@) is Some,
        r matches Ok(t) ==> Some(t) == spec_parse_timestamp(s@),
{
    match chrono::NaiveDateTime::parse_from_str(s, "%F %R") {
        Ok(dt) => Ok(Timestamp {
            year: dt.year(),
            month: dt.month(),
            day: dt.day(),
            hour: dt.hour(),
            minute: dt.minute(),
        }),
        Err(e) => Err(format!("{}", e)),
    }
}

} // verus!
