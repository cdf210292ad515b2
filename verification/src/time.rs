//! Points in time, as the registry's data carries them.
use chrono::TimeZone;
use vstd::prelude::*;

verus! {

/// A point in time in UTC.
#[derive(Debug, Clone, Copy, PartialEq, Eq, Structural)]
pub struct Timestamp {
    /// Non-leap seconds since 1970-01-01T00:00:00Z.
    pub secs: i64,
    /// Nanoseconds since the last whole second; from 1,000,000,000 on in a leap
    /// second.
    pub nanos: u32,
}

/// The Unix epoch, 1970-01-01T00:00:00Z.
pub open spec fn unix_epoch() -> Timestamp {
    Timestamp { secs: 0, nanos: 0 }
}

/// The Unix epoch is where seconds are counted from.
pub proof fn law_unix_epoch()
    ensures
        unix_epoch().secs == 0,
        unix_epoch().nanos == 0,
{
}

/// Whether a number of seconds and of nanoseconds is a point in time that a
/// calendar date and a time of day can express: the years -262143 to 262142,
/// and nanoseconds beyond a whole second only at the end of a minute.
pub open spec fn on_calendar(secs: i64, nanos: u32) -> bool {
    &&& -8_334_601_228_800 <= secs <= 8_210_266_876_799
    &&& nanos < 1_000_000_000 || (nanos < 2_000_000_000 && secs as int % 60 == 59)
}

/// What every reading of the clock has: it is not before the Unix epoch, and
/// the nanoseconds are less than a second.
pub open spec fn clock_reading(now: Timestamp) -> bool {
    0 <= now.secs && now.nanos < 1_000_000_000
}

/// `chrono::Utc::now`: the clock's reading. Which one it is rests on the time of
/// the call and is left open; there is none while the clock of the machine is set
/// to a time before the Unix epoch.
#[verifier::external_body]
pub(crate) fn utc_now() -> (now: Timestamp)
    ensures
        clock_reading(now),
{
    let now = chrono::Utc::now();
    Timestamp { secs: now.timestamp(), nanos: now.timestamp_subsec_nanos() }
}

/// `chrono::TimeZone::timestamp_opt` for UTC: the point in time that many
/// seconds and nanoseconds after the Unix epoch, or `None` where
/// [`on_calendar`] does not hold.
#[verifier::external_body]
pub(crate) fn utc_timestamp_opt(secs: i64, nanos: u32) -> (time: Option<Timestamp>)
    ensures
        time == (if on_calendar(secs, nanos) {
            Some(Timestamp { secs, nanos })
        } else {
            None
        }),
{
    chrono::Utc.timestamp_opt(secs, nanos).single().map(
        |time| Timestamp { secs: time.timestamp(), nanos: time.timestamp_subsec_nanos() },
    )
}

/// `chrono::DateTime::UNIX_EPOCH`: 1970-01-01T00:00:00Z.
#[verifier::external_body]
pub(crate) fn utc_epoch() -> (epoch: Timestamp)
    ensures
        epoch == unix_epoch(),
{
    let epoch = chrono::DateTime::UNIX_EPOCH;
    Timestamp { secs: epoch.timestamp(), nanos: epoch.timestamp_subsec_nanos() }
}

/// A date of the calendar.
#[derive(Debug, Clone, Copy, PartialEq, Eq, Structural)]
pub struct CalendarDate {
    /// The year, negative before the common era.
    pub year: i32,
    /// The month, counted from one.
    pub month: u32,
    /// The day of the month, counted from one.
    pub day: u32,
}

} // verus!
