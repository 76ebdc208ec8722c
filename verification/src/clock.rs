//! Points in time and local wall-clock readings.

use crate::text::{decimal, decimal_string};
use chrono::Timelike;
use vstd::prelude::*;

verus! {

/// Milliseconds in one minute
pub const MILLIS_PER_MINUTE: i64 = 60_000;

/// Seconds in one day
pub const SECONDS_PER_DAY: u32 = 86_400;

/// Every instant no further than this many milliseconds from the epoch,
/// some 253,000 years, has a place on the calendar
pub const CALENDAR_REACH: i64 = 8_000_000_000_000_000;

/// A point in time: milliseconds since the Unix epoch, in UTC
#[derive(Clone, Copy, Debug, PartialEq, Eq, Structural)]
pub struct Instant {
    pub millis: i64,
}

/// A time of day on the local wall clock
#[derive(Clone, Copy, Debug, PartialEq, Eq, Structural)]
pub struct WallClock {
    /// Whole seconds since local midnight
    pub second_of_day: u32,
    /// Nanoseconds past that second
    pub nanos: u32,
}

/// A signed span of milliseconds, in whole minutes, rounded toward zero
pub open spec fn whole_minutes(millis: int) -> int {
    if millis >= 0 {
        millis / (MILLIS_PER_MINUTE as int)
    } else {
        -((-millis) / (MILLIS_PER_MINUTE as int))
    }
}

/// Minutes from `now` until `at`; negative when `at` has already passed
pub open spec fn minutes_between(at: Instant, now: Instant) -> int {
    whole_minutes(at.millis - now.millis)
}

/// Rounding toward zero keeps the order of spans.
pub proof fn lemma_whole_minutes_monotonic(a: int, b: int)
    requires
        a <= b,
    ensures
        whole_minutes(a) <= whole_minutes(b),
{
    if a >= 0 {
        assert(a / 60_000 <= b / 60_000) by (nonlinear_arith)
            requires
                0 <= a <= b,
        ;
    } else if b >= 0 {
        assert((-a) / 60_000 >= 0) by (nonlinear_arith)
            requires
                -a >= 0,
        ;
        assert(b / 60_000 >= 0) by (nonlinear_arith)
            requires
                b >= 0,
        ;
    } else {
        assert((-b) / 60_000 <= (-a) / 60_000) by (nonlinear_arith)
            requires
                0 <= -b <= -a,
        ;
    }
}

impl Instant {
    /// Minutes from `now` until this instant, rounded toward zero
    pub fn minutes_after(&self, now: Instant) -> (minutes: i64)
        ensures
            minutes == minutes_between(*self, now),
    {
        let span: i128 = self.millis as i128 - now.millis as i128;
        if span >= 0 {
            let whole: i128 = span / (MILLIS_PER_MINUTE as i128);
            whole as i64
        } else {
            let back: i128 = -span;
            let whole: i128 = back / (MILLIS_PER_MINUTE as i128);
            (-whole) as i64
        }
    }

    /// The current moment, read from the system clock
    pub fn now() -> Instant {
        system_now()
    }

    /// The local time of day at this instant: the UTC time of day moved by
    /// the offset of the machine's time zone at that instant. There is one
    /// exactly for the instants that have a place on the calendar.
    pub fn local_time(&self) -> (clock: Option<WallClock>)
        ensures
            clock is Some <==> on_calendar(*self),
            clock matches Some(c) ==> is_local_reading(*self, c),
            clock matches Some(c) ==> c.is_valid() && c.nanos == subsecond_nanos(*self),
    {
        let clock = local_clock(*self);
        proof {
            if let Some(c) = clock {
                lemma_local_reading(*self, c);
            }
        }
        clock
    }
}

/// The first instant that has a place on the calendar: the first
/// millisecond of the year 262144 BCE
pub const CALENDAR_FIRST: i64 = -8_334_601_228_800_000;

/// The last instant that has a place on the calendar: the last millisecond
/// of the year 262142 CE
pub const CALENDAR_LAST: i64 = 8_210_266_876_799_999;

/// Whether an instant has a place on the calendar
pub open spec fn on_calendar(at: Instant) -> bool {
    CALENDAR_FIRST <= at.millis <= CALENDAR_LAST
}

/// Every instant within `CALENDAR_REACH` of the epoch has a place on the
/// calendar.
pub proof fn lemma_within_reach(at: Instant)
    requires
        -CALENDAR_REACH <= at.millis <= CALENDAR_REACH,
    ensures
        on_calendar(at),
{
}

/// The second of the day, in UTC, in which an instant lies
pub open spec fn utc_second_of_day(at: Instant) -> int {
    (at.millis / 1000) % (SECONDS_PER_DAY as int)
}

/// The nanoseconds by which an instant lies past its whole second
pub open spec fn subsecond_nanos(at: Instant) -> int {
    (at.millis % 1000) * 1_000_000
}

/// The time of day at an instant in a zone that is `offset` seconds ahead
/// of UTC: the UTC time of day moved by the offset, around the clock. The
/// part below the second is that of the instant.
pub open spec fn shifted(at: Instant, offset: int) -> WallClock {
    WallClock {
        second_of_day: ((utc_second_of_day(at) + offset) % (SECONDS_PER_DAY as int)) as u32,
        nanos: subsecond_nanos(at) as u32,
    }
}

/// Whether a reading is the local time of day at an instant in some zone: a
/// zone is ahead of UTC, or behind it, by a whole number of seconds that is
/// less than a day.
pub open spec fn is_local_reading(at: Instant, reading: WallClock) -> bool {
    exists|offset: int|
        -(SECONDS_PER_DAY as int) < offset < SECONDS_PER_DAY as int && reading == #[trigger] shifted(
            at,
            offset,
        )
}

/// The local time of day at an instant is a reading that a clock can show,
/// and its part below the second is that of the instant, whatever the zone.
pub proof fn lemma_local_reading(at: Instant, reading: WallClock)
    requires
        is_local_reading(at, reading),
    ensures
        reading.is_valid(),
        reading.nanos == subsecond_nanos(at),
        reading.nanos < 1_000_000_000,
        reading.nanos % 1_000_000 == 0,
{
    let offset = choose|offset: int|
        -(SECONDS_PER_DAY as int) < offset < SECONDS_PER_DAY as int && reading == #[trigger] shifted(
            at,
            offset,
        );
    assert(reading == shifted(at, offset));
    assert(0 <= at.millis % 1000 < 1000);
}

/// An hour of the day on a twelve-hour dial: 12 for midnight and noon
pub open spec fn dial_hour(hour: nat) -> nat {
    if hour % 12 == 0 {
        12
    } else {
        hour % 12
    }
}

/// How an hour of the day reads: the hour on a twelve-hour dial, with a
/// space in front of a single digit, then `am` before noon and `pm` from
/// noon on
pub open spec fn hour_text(hour: nat) -> Seq<char> {
    (if dial_hour(hour) < 10 {
        " "@
    } else {
        ""@
    }) + decimal(dial_hour(hour)) + (if hour < 12 {
        "am"@
    } else {
        "pm"@
    })
}

impl WallClock {
    /// A reading that a clock can show: the second lies within one day. The
    /// nanoseconds may pass one second where a leap second is shown.
    pub open spec fn is_valid(&self) -> bool {
        self.second_of_day < SECONDS_PER_DAY
    }

    /// Whether this reading lies in the closed range from `first` to `last`,
    /// both given in whole seconds since midnight
    pub open spec fn within(&self, first: nat, last: nat) -> bool {
        first <= self.second_of_day && (self.second_of_day < last || (self.second_of_day == last
            && self.nanos == 0))
    }

    /// The hour of the day: from 0 to 23 for a reading that a clock can show
    pub fn hour(&self) -> (hour: u32)
        ensures
            hour == self.second_of_day / 3600,
            self.is_valid() ==> hour < 24,
    {
        self.second_of_day / 3600
    }

    /// The hour of this reading as text, such as ` 5pm` or `12am`
    pub fn hour_label(&self) -> (text: String)
        ensures
            text@ == hour_text((self.second_of_day / 3600) as nat),
    {
        let hour: u32 = self.hour();
        let dial: u32 = if hour % 12 == 0 {
            12
        } else {
            hour % 12
        };
        let mut text = if dial < 10 {
            String::from_str(" ")
        } else {
            String::from_str("")
        };
        let digits = decimal_string(dial as u64);
        text.append(digits.as_str());
        if hour < 12 {
            text.append("am");
        } else {
            text.append("pm");
        }
        text
    }
}

/// Reads the system clock through `chrono::Utc::now` and gives the reading
/// as `DateTime::timestamp_millis` counts it. Nothing is claimed of the value.
#[verifier::external_body]
fn system_now() -> (now: Instant) {
    Instant { millis: chrono::Utc::now().timestamp_millis() }
}

/// Places an instant on the machine's local calendar: `DateTime::from_timestamp_millis`,
/// then `DateTime::with_timezone` to `chrono::Local`, then the time of day
/// as `Timelike::num_seconds_from_midnight` and `Timelike::nanosecond` give
/// it. `from_timestamp_millis` accepts exactly the instants whose date lies
/// between `NaiveDate::MIN` and `NaiveDate::MAX`, which are the two bounds
/// of `on_calendar`. The zone is the machine's, so which offset is used is
/// not claimed: only that the time of day is the UTC one moved by the
/// seconds of some `FixedOffset`, which are fewer than a day's, and that
/// the part below the second is left as `from_timestamp_millis` made it.
#[verifier::external_body]
fn local_clock(at: Instant) -> (clock: Option<WallClock>)
    ensures
        clock is Some <==> on_calendar(at),
        clock matches Some(c) ==> is_local_reading(at, c),
{
    match chrono::DateTime::from_timestamp_millis(at.millis) {
        Some(utc) => {
            let time = utc.with_timezone(&chrono::Local).time();
            Some(WallClock { second_of_day: time.num_seconds_from_midnight(), nanos: time.nanosecond() })
        },
        None => None,
    }
}

} // verus!
