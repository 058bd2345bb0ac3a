//! When a producer is due: either a fixed interval after the last fire
//! started, or the next occurrence of a cron expression.  Times are epoch
//! milliseconds on the UTC clock.
use vstd::prelude::*;

verus! {

/// The small delay added after a fire completes before the next cron
/// occurrence is computed, so the tick that has just fired is not matched
/// again.
pub const CRON_EPSILON_MILLIS: u64 = 100;

/// The last instant the cron occurrence search accepts: the final
/// millisecond of year 9999 UTC.  The instant handed to the calendar
/// arithmetic of the occurrence search must stay clear of the calendar's
/// own end of time, where its addition aborts; everything the library
/// schedules is capped here, far below that edge.
pub const MAX_SCHEDULE_MILLIS: u64 = 253_402_300_799_999;

#[verifier::external_type_specification]
#[verifier::external_body]
pub struct ExSchedule(cron::Schedule);

/// Whether the cron parser accepts `expr`.
pub uninterp spec fn cron_accepts(expr: Seq<char>) -> bool;

/// The earliest occurrence of the cron schedule compiled from `expr` that
/// lies strictly after `now_millis`, if there is one.
pub uninterp spec fn cron_next(expr: Seq<char>, now_millis: u64) -> Option<u64>;

/// A cron schedule compiled once at registration time.  The expression has
/// six space-separated fields (second, minute, hour, day of month, month,
/// day of week) with `*`, ranges, steps and lists.
pub struct CronSchedule {
    text: String,
    compiled: cron::Schedule,
}

impl View for CronSchedule {
    type V = Seq<char>;

    closed spec fn view(&self) -> Seq<char> {
        self.text@
    }
}

impl CronSchedule {
    /// Compiles a cron expression.
    /// Relies on `cron::Schedule::from_str`: whether the expression parses
    /// depends on the expression text alone.
    #[verifier::external_body]
    pub fn compile(expression: &str) -> (r: Option<CronSchedule>)
        ensures
            r is Some <==> cron_accepts(expression@),
            r matches Some(s) ==> s@ == expression@,
    {
        match <cron::Schedule as core::str::FromStr>::from_str(expression) {
            Ok(compiled) => Some(CronSchedule { text: expression.to_owned(), compiled }),
            Err(_) => None,
        }
    }

    /// The next occurrence of the schedule strictly after `now_millis`.
    /// Relies on `cron::Schedule::after` over the UTC timeline: the
    /// occurrence search starts one second past the given instant and
    /// yields whole-second candidates, so any occurrence returned is
    /// strictly later than the instant; the result depends on the
    /// expression and the instant alone.  The search adds that one second
    /// with the calendar's aborting addition, so instants in the calendar's
    /// last representable second are excluded; the bound here keeps callers
    /// hundreds of millennia clear of it.
    #[verifier::external_body]
    pub fn next_after(&self, now_millis: u64) -> (r: Option<u64>)
        requires
            now_millis <= MAX_SCHEDULE_MILLIS,
        ensures
            r == cron_next(self@, now_millis),
            r matches Some(t) ==> now_millis < t,
    {
        let now = match i64::try_from(now_millis).ok().and_then(
            chrono::DateTime::<chrono::Utc>::from_timestamp_millis,
        ) {
            Some(instant) => instant,
            None => {
                return None;
            },
        };
        match self.compiled.after(&now).next() {
            Some(occurrence) => u64::try_from(occurrence.timestamp_millis()).ok(),
            None => None,
        }
    }
}

/// Addition on the millisecond clock; a sum past the end of the
/// representable clock saturates.
pub open spec fn sat_add(a: u64, b: u64) -> u64 {
    if a + b > u64::MAX {
        u64::MAX
    } else {
        (a + b) as u64
    }
}

/// Executable saturating addition on the millisecond clock.
pub fn clock_add(a: u64, b: u64) -> (r: u64)
    ensures
        r == sat_add(a, b),
{
    if b > u64::MAX - a {
        u64::MAX
    } else {
        a + b
    }
}

/// An instant capped at the last scheduled millisecond, so that the cron
/// occurrence search is never asked about the calendar's edge.
pub open spec fn clamped(t: u64) -> u64 {
    if t > MAX_SCHEDULE_MILLIS {
        MAX_SCHEDULE_MILLIS
    } else {
        t
    }
}

/// Executable cap of an instant at the last scheduled millisecond.
pub fn clock_clamp(t: u64) -> (r: u64)
    ensures
        r == clamped(t),
{
    if t > MAX_SCHEDULE_MILLIS {
        MAX_SCHEDULE_MILLIS
    } else {
        t
    }
}

/// The timing configuration of a schedule descriptor, as submitted.
pub enum TimingConfig {
    /// Fire every so many seconds, counted from the start of the last fire.
    IntervalSeconds(u64),
    /// Fire at each occurrence of a cron expression.
    CronExpression(String),
}

/// The compiled timing of a running producer.
pub enum Timing {
    /// Fire every so many milliseconds, counted from the start of the
    /// last fire.
    Interval { interval_millis: u64 },
    /// Fire at each occurrence of the compiled cron schedule.
    Cron { schedule: CronSchedule },
}

/// The interval of `seconds` seconds in milliseconds, saturated to the
/// representable clock.
pub open spec fn interval_millis_of(seconds: u64) -> u64 {
    if seconds * 1000 > u64::MAX {
        u64::MAX
    } else {
        (seconds * 1000) as u64
    }
}

/// Executable conversion of a second count to milliseconds, saturated to
/// the representable clock.
pub fn interval_to_millis(seconds: u64) -> (r: u64)
    ensures
        r == interval_millis_of(seconds),
{
    if seconds > u64::MAX / 1000 {
        u64::MAX
    } else {
        seconds * 1000
    }
}

/// The compiled timing `t` realizes the configuration `c`.
pub open spec fn timing_matches(t: Timing, c: TimingConfig) -> bool {
    match (t, c) {
        (Timing::Interval { interval_millis }, TimingConfig::IntervalSeconds(s)) => interval_millis
            == interval_millis_of(s),
        (Timing::Cron { schedule }, TimingConfig::CronExpression(e)) => schedule@ == e@,
        _ => false,
    }
}

/// The first due time of a producer that defers its first fire, computed
/// at registration time `now`.
pub open spec fn first_due(t: Timing, now: u64) -> Option<u64> {
    match t {
        Timing::Interval { interval_millis } => Some(sat_add(now, interval_millis)),
        Timing::Cron { schedule } => cron_next(schedule@, clamped(now)),
    }
}

/// The due time of the fire after one that started at `started` and
/// completed at `completed`: a fixed interval from the start of the fire,
/// or the next cron occurrence strictly after completion plus a small
/// epsilon.
pub open spec fn next_due(t: Timing, started: u64, completed: u64) -> Option<u64> {
    match t {
        Timing::Interval { interval_millis } => Some(sat_add(started, interval_millis)),
        Timing::Cron { schedule } => cron_next(
            schedule@,
            clamped(sat_add(completed, CRON_EPSILON_MILLIS)),
        ),
    }
}

} // verus!
