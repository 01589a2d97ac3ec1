//! Calendar times, through chrono: reading the times flatpak prints and
//! writing them for the screen. Times are kept as seconds since the Unix epoch.

use std::fmt::Write;
use vstd::prelude::*;

verus! {

/// What chrono's `DateTime::parse_from_str(s, fmt)` gives: the instant as
/// seconds since the Unix epoch, or the text of its parse error.
pub uninterp spec fn parsed_time(s: Seq<char>, fmt: Seq<char>) -> core::result::Result<i64, Seq<char>>;

/// chrono: reads `s` as a time with a UTC offset in the strftime-style format
/// `fmt`; the result is the instant in seconds since the Unix epoch, or the
/// message of chrono's parse error. Both are named by `parsed_time`.
#[verifier::external_body]
pub(crate) fn parse_time(s: &str, fmt: &str) -> (r: core::result::Result<i64, String>)
    ensures
        match r {
            Ok(t) => parsed_time(s@, fmt@) == Ok::<i64, Seq<char>>(t),
            Err(m) => parsed_time(s@, fmt@) == Err::<i64, Seq<char>>(m@),
        },
{
    match chrono::DateTime::parse_from_str(s, fmt) {
        Ok(t) => Ok(t.timestamp()),
        Err(e) => Err(e.to_string()),
    }
}

/// The text chrono's `DateTime::<Utc>::from_timestamp(secs, 0)` formats with
/// `fmt`, or none when the time is out of chrono's range or `fmt` is not a
/// format chrono can write.
pub uninterp spec fn utc_time_text(secs: i64, fmt: Seq<char>) -> Option<Seq<char>>;

/// chrono: the UTC time `secs` seconds after the Unix epoch, formatted with
/// the strftime-style `fmt`; `None` when chrono cannot represent the time, or
/// when writing it with `fmt` fails (an invalid format reports an error when
/// written). Both are named by `utc_time_text`.
#[verifier::external_body]
pub(crate) fn format_utc_time(secs: i64, fmt: &str) -> (r: Option<String>)
    ensures
        match r {
            Some(s) => utc_time_text(secs, fmt@) == Some(s@),
            None => utc_time_text(secs, fmt@) is None,
        },
{
    let t = chrono::DateTime::from_timestamp(secs, 0)?;
    let mut out = String::new();
    match write!(out, "{}", t.format(fmt)) {
        Ok(()) => Some(out),
        Err(_) => None,
    }
}

} // verus!
