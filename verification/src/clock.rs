//! Instants in UTC and their text forms, through `chrono`.

use vstd::prelude::*;

use crate::auth::{MAX_TIMESTAMP, SECS_PER_DAY};
use crate::error::AppError;

verus! {

broadcast use vstd::string::group_string_axioms;

/// An instant: whole seconds since the Unix epoch and the nanoseconds past them.
#[derive(Debug, Clone, Copy, PartialEq, Eq)]
pub struct Instant {
    pub secs: i64,
    pub nanos: u32,
}

/// An instant at or after the epoch that `chrono` can represent.
pub open spec fn representable(t: Instant) -> bool {
    0 <= t.secs <= MAX_TIMESTAMP && t.nanos < 1_000_000_000
}

/// The system clock as an instant, as `chrono::Utc::now` reads it
/// (`SystemTime::now` since the Unix epoch, checked by
/// `DateTime::from_timestamp`), or `None` where `Utc::now` would panic: a
/// clock before the epoch or past the last instant `chrono` represents.
#[verifier::external_body]
pub fn now() -> (t: Option<Instant>)
    ensures
        t matches Some(i) ==> representable(i),
{
    let d = std::time::SystemTime::now().duration_since(std::time::UNIX_EPOCH).ok()?;
    let secs = i64::try_from(d.as_secs()).ok()?;
    chrono::DateTime::from_timestamp(secs, d.subsec_nanos())?;
    Some(Instant { secs, nanos: d.subsec_nanos() })
}

/// The answer when the system clock cannot be read as an instant.
pub open spec fn clock_unreadable_text() -> Seq<char> {
    "system clock out of range"@
}

/// Whether `r` is what `current` answers for the clock reading `reading`:
/// the instant read, or the internal error when none could be read.
pub open spec fn current_answer(r: Result<Instant, AppError>, reading: Option<Instant>) -> bool {
    match reading {
        Some(t) => r == Ok::<Instant, AppError>(t),
        None => r matches Err(AppError::Internal(m)) && m@ == clock_unreadable_text(),
    }
}

/// The current instant, or an internal error when the system clock lies
/// before the Unix epoch or past the range of `chrono`. The instant is the
/// one the clock was read at (a possible result of `now`), unchanged.
pub fn current() -> (r: Result<Instant, AppError>)
    ensures
        r matches Ok(t) ==> representable(t),
        r matches Err(e) ==> e matches AppError::Internal(m) && m@ == clock_unreadable_text(),
        exists|reading: Option<Instant>|
            #[trigger] call_ensures(now, (), reading) && current_answer(r, reading),
{
    let read = now;
    let reading = read();
    let r = match reading {
        Some(t) => Ok(t),
        None => {
            let mut m = String::new();
            crate::text::push_str(&mut m, "system clock out of range");
            Err(AppError::Internal(m))
        },
    };
    assert(call_ensures(now, (), reading) && current_answer(r, reading));
    r
}

/// RFC 3339 text of an instant, as `DateTime::<Utc>::to_rfc3339` writes it.
pub uninterp spec fn rfc3339_text(secs: int, nanos: int) -> Seq<char>;

/// `DateTime::<Utc>::to_rfc3339` of the instant.
#[verifier::external_body]
pub fn rfc3339(t: Instant) -> (r: String)
    requires
        representable(t),
    ensures
        r@ == rfc3339_text(t.secs as int, t.nanos as int),
{
    chrono::DateTime::from_timestamp(t.secs, t.nanos).unwrap().to_rfc3339()
}

/// The text `DateTime::<Utc>::format(pattern)` gives for an instant.
pub uninterp spec fn utc_format_text(secs: int, nanos: int, pattern: Seq<char>) -> Seq<char>;

/// `DateTime::<Utc>::format(pattern).to_string()` for the two patterns
/// the server uses (both valid, so formatting cannot fail).
#[verifier::external_body]
fn format_utc(t: Instant, pattern: &str) -> (r: String)
    requires
        representable(t),
        pattern@ == "%Y-%m-%d"@ || pattern@ == "%Y%m%d-%H%M"@,
    ensures
        r@ == utc_format_text(t.secs as int, t.nanos as int, pattern@),
{
    chrono::DateTime::from_timestamp(t.secs, t.nanos).unwrap().format(pattern).to_string()
}

/// The calendar day of an instant, `YYYY-MM-DD`.
pub fn day_label(t: Instant) -> (r: String)
    requires
        representable(t),
    ensures
        r@ == utc_format_text(t.secs as int, t.nanos as int, "%Y-%m-%d"@),
{
    format_utc(t, "%Y-%m-%d")
}

/// The minute of an instant, `YYYYMMDD-HHMM`.
pub fn minute_label(t: Instant) -> (r: String)
    requires
        representable(t),
    ensures
        r@ == utc_format_text(t.secs as int, t.nanos as int, "%Y%m%d-%H%M"@),
{
    format_utc(t, "%Y%m%d-%H%M")
}

/// `t` plus `days` whole days (a UTC day is 86400 seconds), when the result
/// is still representable.
pub fn plus_days(t: Instant, days: u32) -> (r: Option<Instant>)
    requires
        representable(t),
    ensures
        r is Some <==> t.secs + days * SECS_PER_DAY <= MAX_TIMESTAMP,
        r matches Some(u) ==> u.secs == t.secs + days * SECS_PER_DAY && u.nanos == t.nanos
            && representable(u),
{
    let span = (days as i64) * SECS_PER_DAY;
    if span > MAX_TIMESTAMP - t.secs {
        None
    } else {
        Some(Instant { secs: t.secs + span, nanos: t.nanos })
    }
}

} // verus!
