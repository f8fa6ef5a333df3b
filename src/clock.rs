//! Points in time and spans of time, as nanosecond counts.
//!
//! A timestamp is the number of nanoseconds since the Unix epoch (UTC); a
//! span is a signed number of nanoseconds. Timestamps stay inside the range of
//! calendar dates from the year -9999 to the year 9999, spans inside the range
//! of a signed 64-bit count of seconds.
use vstd::prelude::*;

verus! {

pub const NANOS_PER_SECOND: i128 = 1_000_000_000;

pub const NANOS_PER_DAY: i128 = 86_400_000_000_000;

/// How far a snooze pushes a due reminder: five minutes.
pub const SNOOZE_NANOS: i128 = 300_000_000_000;

/// How far a sweep pushes a paused reminder: one second.
pub const TICK_NANOS: i128 = 1_000_000_000;

/// -9999-01-01T00:00:00Z.
pub const MIN_TIME: i128 = -377_705_116_800_000_000_000;

/// 9999-12-31T23:59:59.999999999Z.
pub const MAX_TIME: i128 = 253_402_300_799_999_999_999;

/// The largest span: `i64::MAX` seconds and 999,999,999 nanoseconds.
pub const MAX_SPAN: i128 = 9_223_372_036_854_775_807_999_999_999;

/// The largest distance from UTC of a fixed offset: 25:59:59.
pub const MAX_OFFSET_SECONDS: i32 = 93_599;

pub open spec fn valid_time(t: int) -> bool {
    MIN_TIME <= t <= MAX_TIME
}

pub open spec fn valid_span(d: int) -> bool {
    -MAX_SPAN <= d <= MAX_SPAN
}

/// The timestamp closest to `t` that lies in the valid range.
pub open spec fn clamp_time(t: int) -> int {
    if t < MIN_TIME {
        MIN_TIME as int
    } else if t > MAX_TIME {
        MAX_TIME as int
    } else {
        t
    }
}

/// The current time as read from a clock at a fixed UTC offset.
#[derive(Clone, Copy, Debug, PartialEq, Eq, Structural)]
pub struct Now {
    /// Nanoseconds since the Unix epoch.
    pub unix_nanos: i128,
    /// The clock's distance from UTC, in seconds.
    pub offset_seconds: i32,
}

impl Now {
    pub open spec fn valid(self) -> bool {
        &&& valid_time(self.unix_nanos as int)
        &&& -MAX_OFFSET_SECONDS <= self.offset_seconds <= MAX_OFFSET_SECONDS
    }

    /// Reads the system clock; `offset_seconds` is the local offset to apply.
    /// A clock reading outside the valid range is clamped into it.
    pub fn read(offset_seconds: i32) -> (r: Now)
        requires
            -MAX_OFFSET_SECONDS <= offset_seconds <= MAX_OFFSET_SECONDS,
        ensures
            r.valid(),
            r.offset_seconds == offset_seconds,
    {
        let t = current_unix_nanos();
        Now { unix_nanos: clamp(t), offset_seconds }
    }
}

/// Relies on `time::OffsetDateTime::now_utc` and `unix_timestamp_nanos`: the
/// current time as nanoseconds since the Unix epoch. Nothing is known of it.
#[verifier::external_body]
fn current_unix_nanos() -> (r: i128) {
    time::OffsetDateTime::now_utc().unix_timestamp_nanos()
}

/// Clamps `t` into the valid range of timestamps.
pub fn clamp(t: i128) -> (r: i128)
    ensures
        r == clamp_time(t as int),
        valid_time(r as int),
{
    if t < MIN_TIME {
        MIN_TIME
    } else if t > MAX_TIME {
        MAX_TIME
    } else {
        t
    }
}

/// Adds a span to a timestamp, saturating at the ends of the valid range.
pub fn saturating_add(t: i128, d: i128) -> (r: i128)
    requires
        valid_time(t as int),
        valid_span(d as int),
    ensures
        r == clamp_time(t + d),
        valid_time(r as int),
{
    clamp(t + d)
}

/// Subtracts a span from a timestamp, saturating at the ends of the valid range.
pub fn saturating_sub(t: i128, d: i128) -> (r: i128)
    requires
        valid_time(t as int),
        valid_span(d as int),
    ensures
        r == clamp_time(t - d),
        valid_time(r as int),
{
    clamp(t - d)
}

/// The local time of day of `t`, in nanoseconds after local midnight.
pub open spec fn time_of_day(t: int, offset_seconds: int) -> int {
    (t + offset_seconds * NANOS_PER_SECOND) % (NANOS_PER_DAY as int)
}

/// The instant on the local date of `now` whose local time of day is that of
/// `t`.
pub open spec fn same_time_today(t: int, now: Now) -> int {
    let local_now = now.unix_nanos + now.offset_seconds * NANOS_PER_SECOND;
    let local_midnight = local_now - local_now % (NANOS_PER_DAY as int);
    local_midnight + time_of_day(t, now.offset_seconds as int) - now.offset_seconds
        * NANOS_PER_SECOND
}

/// The first instant at or after `now` whose local time of day is that of `t`,
/// kept inside the valid range.
pub open spec fn next_occurrence(t: int, now: Now) -> int {
    let today = same_time_today(t, now);
    if today < now.unix_nanos {
        clamp_time(today + NANOS_PER_DAY)
    } else {
        clamp_time(today)
    }
}

/// Moves `t` onto the local date of `now`, keeping its local time of day, and
/// then a day on while it lies before `now`.
pub fn next_occurrence_of(t: i128, now: Now) -> (r: i128)
    requires
        valid_time(t as int),
        now.valid(),
    ensures
        r == next_occurrence(t as int, now),
        valid_time(r as int),
{
    let offset_nanos: i128 = now.offset_seconds as i128 * NANOS_PER_SECOND;
    let local_now: i128 = now.unix_nanos + offset_nanos;
    let local_t: i128 = t + offset_nanos;
    let now_of_day: i128 = match local_now.checked_rem_euclid(NANOS_PER_DAY) {
        Some(v) => v,
        None => 0,
    };
    let t_of_day: i128 = match local_t.checked_rem_euclid(NANOS_PER_DAY) {
        Some(v) => v,
        None => 0,
    };
    let mut finish: i128 = local_now - now_of_day + t_of_day - offset_nanos;
    if finish < now.unix_nanos {
        finish = finish + NANOS_PER_DAY;
    }
    clamp(finish)
}

} // verus!
