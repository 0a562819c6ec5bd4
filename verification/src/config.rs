//! Configuration model: the job list, the schedule variants and the exact
//! arithmetic that turns a schedule and a clock reading into the number of
//! seconds until the next run.
use vstd::prelude::*;

use crate::clock::{LocalDateTime, MAX_EPOCH_SECONDS};

verus! {

/// Default number of completed snapshots kept per target.
pub const DEFAULT_RETENTION_COUNT: usize = 5;

/// Largest interval, in seconds, the schedule arithmetic accepts; beyond it
/// a duration no longer fits the millisecond range a signed 64-bit count
/// offers.
pub const MAX_INTERVAL_SECONDS: u64 = 9_223_372_036_854_775;

/// Seconds in one day and in one week.
pub const SECONDS_PER_DAY: i64 = 86_400;

pub const SECONDS_PER_WEEK: i64 = 604_800;

pub fn default_retention_count() -> (r: usize)
    ensures
        r == DEFAULT_RETENTION_COUNT,
{
    DEFAULT_RETENTION_COUNT
}

pub fn default_log_level() -> (r: String)
    ensures
        r@ == "info"@,
{
    String::from_str("info")
}

pub fn default_state_path() -> (r: String)
    ensures
        r@ == ".keephive_state.json"@,
{
    String::from_str(".keephive_state.json")
}

/// Log file rotation strategy, consumed by the logging collaborator.
#[derive(Clone, Copy, Debug, PartialEq, Eq, Structural)]
pub enum LogRotation {
    Daily,
    Hourly,
    Never,
}

impl Default for LogRotation {
    fn default() -> (r: Self)
        ensures
            r == LogRotation::Daily,
    {
        LogRotation::Daily
    }
}

/// When a backup job fires.
#[derive(Clone, Copy, Debug, PartialEq, Eq, Structural)]
pub enum Schedule {
    /// Every `seconds` seconds, measured from the last successful run.
    Interval { seconds: u64 },
    /// Daily at `hour:minute` local time.
    Daily { hour: u32, minute: u32 },
    /// Weekly on `day` (1 = Monday through 7 = Sunday) at `hour:minute`
    /// local time.
    Weekly { day: u32, hour: u32, minute: u32 },
}

/// One configured backup job.
#[derive(Debug)]
pub struct BackupJob {
    pub id: String,
    pub source: String,
    pub target: String,
    pub schedule: Schedule,
    pub description: String,
}

impl Clone for BackupJob {
    fn clone(&self) -> (r: Self)
        ensures
            r == *self,
    {
        BackupJob {
            id: self.id.clone(),
            source: self.source.clone(),
            target: self.target.clone(),
            schedule: self.schedule,
            description: self.description.clone(),
        }
    }
}

/// The root configuration document.
#[derive(Clone, Debug)]
pub struct ServiceConfig {
    pub jobs: Vec<BackupJob>,
    pub retention_count: usize,
    pub log_level: String,
    pub state_path: String,
    pub log_directory: Option<String>,
    pub log_rotation: LogRotation,
}

impl Schedule {
    /// A schedule whose fields are in range: hour, minute and weekday within
    /// the clock, and an interval short enough for duration arithmetic.
    pub open spec fn wf(self) -> bool {
        match self {
            Schedule::Interval { seconds } => seconds <= MAX_INTERVAL_SECONDS,
            Schedule::Daily { hour, minute } => hour < 24 && minute < 60,
            Schedule::Weekly { day, hour, minute } => 1 <= day <= 7 && hour < 24 && minute < 60,
        }
    }

    /// Seconds from local midnight to `hour:minute`.
    pub open spec fn target_seconds_of_day(hour: u32, minute: u32) -> int {
        hour * 3600 + minute * 60
    }

    /// Seconds until the next run of an interval schedule: zero when it has
    /// never run or the interval has elapsed, the remainder of the interval
    /// otherwise.
    pub open spec fn interval_duration_spec(seconds: u64, now_epoch: int, last_run: Option<i64>) -> int {
        match last_run {
            Option::None => 0,
            Option::Some(last) => if now_epoch - last >= seconds {
                0
            } else {
                seconds - (now_epoch - last)
            },
        }
    }

    /// Seconds until the next occurrence of `hour:minute`: today's if the
    /// time of day has not yet been reached, tomorrow's otherwise.
    pub open spec fn daily_duration_spec(hour: u32, minute: u32, now: LocalDateTime) -> int {
        let target = Self::target_seconds_of_day(hour, minute);
        if now.seconds_of_day() < target {
            target - now.seconds_of_day()
        } else {
            SECONDS_PER_DAY - now.seconds_of_day() + target
        }
    }

    /// Whole days until the next occurrence of weekday `day`: zero on the
    /// day itself while `hour:minute` (compared at minute precision) has not
    /// passed, seven once it has.
    pub open spec fn weekly_days_until_spec(day: u32, hour: u32, minute: u32, now: LocalDateTime) -> int {
        if now.weekday < day {
            day - now.weekday
        } else if now.weekday == day {
            if now.hour > hour || (now.hour == hour && now.minute >= minute) {
                7
            } else {
                0
            }
        } else {
            7 - (now.weekday - day)
        }
    }

    /// Seconds until the next occurrence of weekday `day` at `hour:minute`.
    pub open spec fn weekly_duration_spec(day: u32, hour: u32, minute: u32, now: LocalDateTime) -> int {
        Self::weekly_days_until_spec(day, hour, minute, now) * SECONDS_PER_DAY
            + Self::target_seconds_of_day(hour, minute) - now.seconds_of_day()
    }

    /// Seconds from `now` until this schedule next fires.
    pub open spec fn next_run_duration_spec(self, now: LocalDateTime, last_run: Option<i64>) -> int {
        match self {
            Schedule::Interval { seconds } => Self::interval_duration_spec(
                seconds,
                now.epoch_seconds as int,
                last_run,
            ),
            Schedule::Daily { hour, minute } => Self::daily_duration_spec(hour, minute, now),
            Schedule::Weekly { day, hour, minute } => Self::weekly_duration_spec(
                day,
                hour,
                minute,
                now,
            ),
        }
    }

    /// Seconds from `now` until this schedule next fires. `last_run` is the
    /// epoch second of the last successful run and only interval schedules
    /// consult it: a missed daily or weekly run is not backfilled.
    pub fn next_run_duration(&self, now: &LocalDateTime, last_run: Option<i64>) -> (r: i64)
        requires
            self.wf(),
            now.wf(),
            last_run matches Some(l) ==> 0 <= l <= MAX_EPOCH_SECONDS,
        ensures
            r == self.next_run_duration_spec(*now, last_run),
            0 <= r,
            self matches Schedule::Daily { .. } ==> 0 < r <= SECONDS_PER_DAY,
            self matches Schedule::Weekly { .. } ==> 0 < r <= SECONDS_PER_WEEK,
    {
        match self {
            Schedule::Interval { seconds } => {
                match last_run {
                    Option::None => 0,
                    Option::Some(last) => {
                        let elapsed: i64 = now.epoch_seconds - last;
                        let interval: i64 = *seconds as i64;
                        if elapsed >= interval {
                            0
                        } else {
                            interval - elapsed
                        }
                    },
                }
            },
            Schedule::Daily { hour, minute } => Self::calculate_next_daily(*hour, *minute, now),
            Schedule::Weekly { day, hour, minute } => Self::calculate_next_weekly(
                *day,
                *hour,
                *minute,
                now,
            ),
        }
    }

    /// Seconds until the next daily occurrence of `hour:minute`.
    pub fn calculate_next_daily(hour: u32, minute: u32, now: &LocalDateTime) -> (r: i64)
        requires
            hour < 24,
            minute < 60,
            now.fields_valid(),
        ensures
            r == Self::daily_duration_spec(hour, minute, *now),
            0 < r <= SECONDS_PER_DAY,
    {
        let target: i64 = (hour as i64) * 3600 + (minute as i64) * 60;
        let tod: i64 = (now.hour as i64) * 3600 + (now.minute as i64) * 60 + (now.second as i64);
        if tod < target {
            target - tod
        } else {
            SECONDS_PER_DAY - tod + target
        }
    }

    /// Seconds until the next weekly occurrence of `day` at `hour:minute`.
    pub fn calculate_next_weekly(day: u32, hour: u32, minute: u32, now: &LocalDateTime) -> (r: i64)
        requires
            1 <= day <= 7,
            hour < 24,
            minute < 60,
            now.fields_valid(),
        ensures
            r == Self::weekly_duration_spec(day, hour, minute, *now),
            0 < r <= SECONDS_PER_WEEK,
    {
        let days_until: i64 = if now.weekday < day {
            (day - now.weekday) as i64
        } else if now.weekday == day {
            if now.hour > hour || (now.hour == hour && now.minute >= minute) {
                7
            } else {
                0
            }
        } else {
            (7 - (now.weekday - day)) as i64
        };
        let target: i64 = (hour as i64) * 3600 + (minute as i64) * 60;
        let tod: i64 = (now.hour as i64) * 3600 + (now.minute as i64) * 60 + (now.second as i64);
        days_until * SECONDS_PER_DAY + target - tod
    }
}

/// A daily schedule fires within a day: before today's `hour:minute` the
/// wait is at most 24 hours, and from that time on it is positive and at
/// most 24 hours.
pub proof fn lemma_daily_schedule_monotonicity(hour: u32, minute: u32, now: LocalDateTime)
    requires
        hour < 24,
        minute < 60,
        now.fields_valid(),
    ensures
        now.seconds_of_day() < Schedule::target_seconds_of_day(hour, minute) ==> Schedule::daily_duration_spec(
            hour,
            minute,
            now,
        ) <= SECONDS_PER_DAY,
        now.seconds_of_day() >= Schedule::target_seconds_of_day(hour, minute) ==> 0 < Schedule::daily_duration_spec(
            hour,
            minute,
            now,
        ) <= SECONDS_PER_DAY,
{
}

} // verus!
