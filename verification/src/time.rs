//! Wall-clock time and its textual form.
//!
//! A moment in time is carried as the number of non-leap microseconds since
//! the Unix epoch. On disk a moment appears as an RFC 3339 string; chrono
//! produces and reads that form, behind the trusted items below.

use vstd::prelude::*;

verus! {

/// Last microsecond tick of year 9999 begins here: timestamps up to this
/// bound are printed with a four-digit year, the only form the RFC 3339
/// parser reads back.
pub const MICROS_AT_YEAR_9999: i64 = 253_402_300_799_000_000;

/// The RFC 3339 rendering (microsecond precision, `Z` suffix) of a timestamp,
/// as chrono's `to_rfc3339_opts` produces it. The rendering depends on the
/// timestamp alone.
pub uninterp spec fn rfc3339_of(t: i64) -> Seq<char>;

/// The timestamp a string denotes under chrono's `parse_from_rfc3339`,
/// taken at microsecond precision; `None` where the string does not parse.
pub uninterp spec fn rfc3339_val(s: Seq<char>) -> Option<i64>;

/// The rendered timestamp contains no quote character, so it can sit inside
/// a JSON string without escaping.
pub open spec fn quote_free(s: Seq<char>) -> bool {
    forall|i: int| 0 <= i < s.len() ==> s[i] != '"'
}

/// Relies on chrono's `Utc::now` and `DateTime::timestamp_micros`: the
/// current wall-clock time. Nothing is promised of the clock's reading.
#[verifier::external_body]
pub fn now_epoch_micros() -> i64 {
    chrono::Utc::now().timestamp_micros()
}

/// Relies on chrono's `DateTime::from_timestamp_micros` and
/// `to_rfc3339_opts(SecondsFormat::Micros, true)`: renders a timestamp as an
/// RFC 3339 string such as `2018-01-26T18:30:09.453829Z`. The rendering
/// never holds a quote character; `from_timestamp_micros` returns `None`
/// only far outside the years 0 to 9999; and within those years the
/// rendering has a four-digit year, which `parse_from_rfc3339` reads back
/// to the same microsecond count.
#[verifier::external_body]
pub fn format_rfc3339_micros(t: i64) -> (r: Option<String>)
    ensures
        r matches Some(s) ==> s@ == rfc3339_of(t) && quote_free(s@),
        r is None ==> !(0 <= t <= MICROS_AT_YEAR_9999),
        r matches Some(s) ==> (0 <= t <= MICROS_AT_YEAR_9999 ==> rfc3339_val(s@) == Some(t)),
{
    chrono::DateTime::<chrono::Utc>::from_timestamp_micros(t)
        .map(|d| d.to_rfc3339_opts(chrono::SecondsFormat::Micros, true))
}

/// Relies on chrono's `DateTime::parse_from_rfc3339` and
/// `timestamp_micros`: reads an RFC 3339 string back to a microsecond
/// timestamp; `None` where the string does not parse. The result depends on
/// the string alone.
#[verifier::external_body]
pub fn parse_rfc3339_micros(s: &str) -> (r: Option<i64>)
    ensures
        r == rfc3339_val(s@),
{
    chrono::DateTime::parse_from_rfc3339(s).ok().map(|d| d.timestamp_micros())
}

} // verus!
