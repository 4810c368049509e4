//! Calendar formatting of Unix timestamps, done by `chrono`.
use vstd::prelude::*;

use std::fmt::Write;

verus! {

/// The text `chrono` gives for the instant `secs` seconds after the Unix epoch,
/// seen at the fixed offset `offset_secs` east of UTC and formatted with the
/// strftime pattern `fmt`; `None` where the instant or the offset is out of
/// chrono's range or the pattern cannot be formatted.
pub uninterp spec fn chrono_fixed_offset_text(secs: i64, offset_secs: i32, fmt: Seq<char>) -> Option<
    Seq<char>,
>;

/// `Option<String>` read by characters.
pub open spec fn opt_string_view(o: Option<String>) -> Option<Seq<char>> {
    match o {
        Some(s) => Some(s@),
        None => None,
    }
}

/// Formats an instant at a fixed offset from UTC.
///
/// Trusted: calls `chrono::DateTime::from_timestamp`, `FixedOffset::east_opt`,
/// `with_timezone` and `format`, and writes the result into a `String`,
/// mapping each `None` and a formatting error to `None`. The result is named by
/// `chrono_fixed_offset_text`: it depends on the three arguments alone.
#[verifier::external_body]
pub(crate) fn format_fixed_offset(secs: i64, offset_secs: i32, fmt: &str) -> (r: Option<String>)
    ensures
        opt_string_view(r) == chrono_fixed_offset_text(secs, offset_secs, fmt@),
{
    let dt = chrono::DateTime::from_timestamp(secs, 0)?;
    let tz = chrono::FixedOffset::east_opt(offset_secs)?;
    let mut out = String::new();
    match write!(out, "{}", dt.with_timezone(&tz).format(fmt)) {
        Ok(()) => Some(out),
        Err(_) => None,
    }
}

/// The last second chrono represents: December 31 of the year 262142, 23:59:59 UTC.
pub open spec fn chrono_max_timestamp() -> int {
    8210266876799
}

/// An offset from UTC that chrono's `FixedOffset` accepts: strictly less than a
/// day either way.
pub open spec fn valid_utc_offset(offset_secs: i32) -> bool {
    -86400 < offset_secs < 86400
}

/// `o` is what chrono gives for the instant `secs` with the pattern `fmt` at
/// some offset within a day of UTC.
pub open spec fn local_text(o: Option<Seq<char>>, secs: i64, fmt: Seq<char>) -> bool {
    exists|offset_secs: i32|
        valid_utc_offset(offset_secs) && o == #[trigger] chrono_fixed_offset_text(secs, offset_secs, fmt)
}

/// Formats an instant in the machine's local time zone.
///
/// Trusted: calls `chrono::DateTime::from_timestamp`, `with_timezone(&Local)` and
/// `format`, writing into a `String`. Stated: the machine's zone gives the
/// instant an offset, a `FixedOffset` within a day of UTC, and the result is the
/// text at that offset (`with_timezone(&Local)` keeps the offset as a
/// `FixedOffset`, so the text is the one `format_fixed_offset` gives). Which
/// offset it is depends on the machine and is not stated. Past chrono's last
/// representable second, `from_timestamp` gives `None` and so does this function.
#[verifier::external_body]
pub(crate) fn format_local(secs: i64, fmt: &str) -> (r: Option<String>)
    ensures
        secs > chrono_max_timestamp() ==> r is None,
        local_text(opt_string_view(r), secs, fmt@),
{
    let dt = chrono::DateTime::from_timestamp(secs, 0)?;
    let mut out = String::new();
    match write!(out, "{}", dt.with_timezone(&chrono::Local).format(fmt)) {
        Ok(()) => Some(out),
        Err(_) => None,
    }
}

/// The current local time, formatted.
///
/// Trusted: calls `chrono::Local::now` and `format`. Nothing is stated of the
/// text: it depends on the clock and the time zone of the machine.
#[verifier::external_body]
pub(crate) fn now_local(fmt: &str) -> (r: String) {
    let mut out = String::new();
    let _ = write!(out, "{}", chrono::Local::now().format(fmt));
    out
}

} // verus!
