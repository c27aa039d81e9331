//! Time on the scan clock: seconds since the Unix epoch, in UTC.

use std::fmt::Write;
use vstd::prelude::*;

verus! {

/// Seconds in one hour, the width of a partition.
pub const HOUR: i64 = 3600;

/// Seconds in one day, the width of a day directory.
pub const DAY: i64 = 86400;

/// The strftime pattern of a day directory's name.
pub const DATE_FORMAT: &'static str = "%Y%m%d";

/// The strftime pattern of a partition file's name.
pub const TIME_FORMAT: &'static str = "%H";

/// The hour that holds second `t`, counted from the epoch.
pub open spec fn hour_of(t: int) -> int {
    t / 3600
}

/// The day that holds second `t`, counted from the epoch.
pub open spec fn day_of(t: int) -> int {
    t / 86400
}

/// The first second of the day after the one that holds `t`.
pub open spec fn next_midnight(t: int) -> int {
    (t / 86400 + 1) * 86400
}

/// The first second of the day after the one that holds `t`.
pub fn following_midnight(t: i64) -> (m: i64)
    requires
        t <= i64::MAX - 86400,
    ensures
        m == next_midnight(t as int),
        t < m <= t + 86400,
{
    let q: i64 = t / DAY;
    let r: i64 = t % DAY;
    if r < 0 {
        q * DAY
    } else {
        (q + 1) * DAY
    }
}

/// The text that chrono's `DateTime::format` gives for the UTC instant
/// `secs` seconds after the epoch under the strftime pattern `pattern`; the
/// empty text where chrono has no such instant or refuses the pattern.
pub uninterp spec fn utc_text(secs: int, pattern: Seq<char>) -> Seq<char>;

/// The Unix time of `hour`:00:00 UTC on the given day of the proleptic
/// Gregorian calendar, as chrono's `Utc.with_ymd_and_hms` computes it; `None`
/// where chrono has no such moment.
pub uninterp spec fn utc_hour_start(year: int, month: int, day: int, hour: int) -> Option<int>;

/// Calls `chrono::DateTime::from_timestamp` and `DateTime::format`, and
/// writes what `format` hands back into a string. The text depends on `secs`
/// and `pattern` alone (the instant is in UTC, and no locale is involved) and
/// is named `utc_text`. Where `from_timestamp` has no instant, or the pattern
/// is one that chrono cannot write out, the text is empty.
#[verifier::external_body]
pub(crate) fn format_utc(secs: i64, pattern: &str) -> (text: String)
    ensures
        text@ == utc_text(secs as int, pattern@),
{
    let mut text = String::new();
    match chrono::DateTime::from_timestamp(secs, 0) {
        Some(moment) => match write!(text, "{}", moment.format(pattern)) {
            Ok(()) => text,
            Err(_) => String::new(),
        },
        None => String::new(),
    }
}

/// Calls chrono's `Utc.with_ymd_and_hms(year, month, day, hour, 0, 0)` and
/// takes the timestamp of the single moment it finds. The result depends on
/// the four numbers alone and is named `utc_hour_start`; it is `None` where
/// chrono finds no moment (a day that the month does not have, an hour past
/// 23, a year out of chrono's range).
#[verifier::external_body]
pub(crate) fn hour_start(year: i32, month: u32, day: u32, hour: u32) -> (secs: Option<i64>)
    ensures
        secs matches Some(s) ==> utc_hour_start(year as int, month as int, day as int, hour as int) == Some(s as int),
        secs is None ==> utc_hour_start(year as int, month as int, day as int, hour as int) is None,
{
    match chrono::TimeZone::with_ymd_and_hms(&chrono::Utc, year, month, day, hour, 0, 0) {
        chrono::LocalResult::Single(moment) => Some(moment.timestamp()),
        chrono::LocalResult::None => None,
        chrono::LocalResult::Ambiguous(_, _) => None,
    }
}

} // verus!
