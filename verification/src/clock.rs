//! Wall-clock capture. The daemon schedules in local time and stamps records
//! in UTC; both clocks are read through chrono and handed to the rest of the
//! library as plain integer fields.
use vstd::prelude::*;

verus! {

/// Epoch second of 9999-12-31 23:59:59 UTC: the largest instant the schedule
/// arithmetic accepts.
pub const MAX_EPOCH_SECONDS: i64 = 253_402_300_799;

/// One reading of the local wall clock, reduced to the fields the scheduler
/// consumes. `weekday` counts 1 = Monday through 7 = Sunday.
#[derive(Clone, Copy, Debug)]
pub struct LocalDateTime {
    pub epoch_seconds: i64,
    pub weekday: u32,
    pub hour: u32,
    pub minute: u32,
    pub second: u32,
}

impl LocalDateTime {
    /// The field ranges every captured reading satisfies.
    pub open spec fn fields_valid(self) -> bool {
        &&& 1 <= self.weekday <= 7
        &&& self.hour < 24
        &&& self.minute < 60
        &&& self.second < 60
    }

    /// A reading the schedule arithmetic accepts: valid fields and an epoch
    /// second between 1970 and the year 9999.
    pub open spec fn wf(self) -> bool {
        &&& self.fields_valid()
        &&& 0 <= self.epoch_seconds <= MAX_EPOCH_SECONDS
    }

    /// Seconds since local midnight.
    pub open spec fn seconds_of_day(self) -> int {
        self.hour * 3600 + self.minute * 60 + self.second
    }
}

/// One reading of the UTC clock, reduced to calendar fields for naming a
/// snapshot directory and stamping state records.
#[derive(Clone, Copy, Debug)]
pub struct UtcTimestamp {
    pub year: i32,
    pub month: u32,
    pub day: u32,
    pub hour: u32,
    pub minute: u32,
    pub second: u32,
    pub millisecond: u32,
    pub epoch_seconds: i64,
}

impl UtcTimestamp {
    /// The field ranges every captured reading satisfies; the year bound is
    /// checked separately because the clock alone cannot promise it.
    pub open spec fn fields_valid(self) -> bool {
        &&& 1 <= self.month <= 12
        &&& 1 <= self.day <= 31
        &&& self.hour < 24
        &&& self.minute < 60
        &&& self.second < 60
        &&& self.millisecond < 2000
    }

    /// A reading the snapshot-name formatter accepts: valid fields and a
    /// four-digit year.
    pub open spec fn wf(self) -> bool {
        &&& self.fields_valid()
        &&& 0 <= self.year <= 9999
    }
}

/// Relies on chrono::Local::now for one reading of the local clock, and on
/// chrono's accessors to decompose it into (epoch seconds, weekday, hour,
/// minute, second): DateTime::timestamp (non-leap seconds since the Unix
/// epoch, of which nothing can be promised), Datelike::weekday with
/// Weekday::num_days_from_monday (0 = Monday through 6 = Sunday),
/// Timelike::hour ("from 0 to 23"), and Timelike::minute and
/// Timelike::second ("from 0 to 59"; a leap second is carried in the
/// nanosecond field).
#[verifier::external_body]
fn read_local_clock() -> (t: (i64, u32, u32, u32, u32))
    ensures
        t.1 < 7,
        t.2 < 24,
        t.3 < 60,
        t.4 < 60,
{
    let dt = chrono::Local::now();
    (
        dt.timestamp(),
        chrono::Datelike::weekday(&dt).num_days_from_monday(),
        chrono::Timelike::hour(&dt),
        chrono::Timelike::minute(&dt),
        chrono::Timelike::second(&dt),
    )
}

/// Read the local clock once and capture every field the scheduler needs;
/// the weekday moves from chrono's 0-based count to 1 = Monday through
/// 7 = Sunday.
pub fn capture_local_now() -> (t: LocalDateTime)
    ensures
        t.fields_valid(),
{
    let raw = read_local_clock();
    LocalDateTime {
        epoch_seconds: raw.0,
        weekday: raw.1 + 1,
        hour: raw.2,
        minute: raw.3,
        second: raw.4,
    }
}

/// Relies on chrono::Utc::now for one reading of the UTC clock, and on
/// chrono's accessors to decompose it: Datelike::year (unbounded),
/// Datelike::month ("from 1 to 12"), Datelike::day ("from 1 to 31"),
/// Timelike::hour ("from 0 to 23"), Timelike::minute and Timelike::second
/// ("from 0 to 59"), DateTime::timestamp_subsec_millis (below 2000: above
/// 999 only during a leap second), and DateTime::timestamp (of which nothing
/// can be promised).
#[verifier::external_body]
pub fn capture_utc_now() -> (t: UtcTimestamp)
    ensures
        t.fields_valid(),
{
    let dt = chrono::Utc::now();
    UtcTimestamp {
        year: chrono::Datelike::year(&dt),
        month: chrono::Datelike::month(&dt),
        day: chrono::Datelike::day(&dt),
        hour: chrono::Timelike::hour(&dt),
        minute: chrono::Timelike::minute(&dt),
        second: chrono::Timelike::second(&dt),
        millisecond: dt.timestamp_subsec_millis(),
        epoch_seconds: dt.timestamp(),
    }
}

/// Read the local clock and reject readings outside the library's epoch
/// range; `None` only for a clock before 1970 or past the year 9999.
pub fn checked_local_now() -> (r: Option<LocalDateTime>)
    ensures
        r matches Some(t) ==> t.wf(),
{
    let t = capture_local_now();
    if 0 <= t.epoch_seconds && t.epoch_seconds <= MAX_EPOCH_SECONDS {
        Some(t)
    } else {
        None
    }
}

/// Read the UTC clock and reject readings outside the library's range;
/// `None` only for a clock before 1970 or past the year 9999.
pub fn checked_utc_now() -> (r: Option<UtcTimestamp>)
    ensures
        r matches Some(t) ==> t.wf() && 0 <= t.epoch_seconds <= MAX_EPOCH_SECONDS,
{
    let t = capture_utc_now();
    if 0 <= t.year && t.year <= 9999 && 0 <= t.epoch_seconds && t.epoch_seconds <= MAX_EPOCH_SECONDS
    {
        Some(t)
    } else {
        None
    }
}

} // verus!
