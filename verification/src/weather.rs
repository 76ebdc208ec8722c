//! The weather forecast: the current period, and the periods worth
//! showing from the hours to come.

use crate::clock::{is_local_reading, on_calendar, subsecond_nanos, Instant, WallClock};
use crate::text::{signed_decimal, signed_decimal_string};
use vstd::prelude::*;

verus! {

/// First second of the day, in local time, whose forecast is shown: 04:30:00
pub const DAY_START: u32 = 16_200;

/// Last second of the day, in local time, whose forecast is shown: 22:30:00
pub const DAY_END: u32 = 81_000;

/// We show every n periods in the future
pub const PERIOD_INTERVAL: usize = 4;

/// A measured value that may be missing
#[derive(Clone, Copy, Debug, PartialEq, Eq)]
pub struct Unit {
    pub value: Option<i32>,
}

/// The forecast for one span of time
#[derive(Clone, Copy, Debug, PartialEq, Eq)]
pub struct ForecastPeriod {
    pub start_time: Instant,
    pub end_time: Instant,
    pub temperature: i32,
    pub probability_of_precipitation: Unit,
}

/// The periods of a forecast, in the provider's order: the current one
/// first, then the hours to come
#[derive(Clone, Debug, PartialEq, Eq)]
pub struct ForecastProperties {
    pub periods: Vec<ForecastPeriod>,
}

/// A forecast as the provider reports it
#[derive(Clone, Debug, PartialEq, Eq)]
pub struct Weather {
    pub properties: ForecastProperties,
}

/// Whether a period's local start lies in the part of the day that is
/// shown, both ends included. A start that has no local reading does not.
pub open spec fn in_daytime(clock: Option<WallClock>) -> bool {
    clock matches Some(reading) && reading.within(DAY_START as nat, DAY_END as nat)
}

/// Whether the period at index `i` is one of those sampled: the first
/// after the current one, and every `PERIOD_INTERVAL`-th from there
pub open spec fn on_stride(i: int) -> bool {
    i >= 1 && (i - 1) % (PERIOD_INTERVAL as int) == 0
}

/// Whether the period at index `i` is shown, given the local start of each
/// period: it is sampled, and it starts in the daytime. An index without a
/// local start is not shown.
pub open spec fn shown(clocks: Seq<Option<WallClock>>, i: int) -> bool {
    on_stride(i) && i < clocks.len() && in_daytime(clocks[i])
}

/// The indices below `n` of the periods that are shown, in ascending order
pub open spec fn future_indices(clocks: Seq<Option<WallClock>>, n: int) -> Seq<int>
    decreases n,
{
    if n <= 0 {
        Seq::empty()
    } else if shown(clocks, n - 1) {
        future_indices(clocks, n - 1).push(n - 1)
    } else {
        future_indices(clocks, n - 1)
    }
}

/// The periods that are shown, in the forecast's order
pub open spec fn future_of(periods: Seq<ForecastPeriod>, clocks: Seq<Option<WallClock>>) -> Seq<
    ForecastPeriod,
> {
    future_indices(clocks, periods.len() as int).map_values(|i: int| periods[i])
}

/// What holds of the local start that is read for the period at index
/// `i`, whatever the time zone: a period that is not sampled gets none; a
/// sampled period gets one exactly if its start has a place on the
/// calendar; and a reading is the local time of day at the period's start
/// in some zone.
pub open spec fn reading_of(period: ForecastPeriod, i: int, clock: Option<WallClock>) -> bool {
    &&& !on_stride(i) ==> clock is None
    &&& on_stride(i) ==> (clock is Some <==> on_calendar(period.start_time))
    &&& clock matches Some(reading) ==> is_local_reading(period.start_time, reading)
}

/// What holds of the local starts that are read for a forecast: one entry
/// for each period, each as `reading_of` says
pub open spec fn readings_of(periods: Seq<ForecastPeriod>, clocks: Seq<Option<WallClock>>) -> bool {
    &&& clocks.len() == periods.len()
    &&& forall|i: int| 0 <= i < periods.len() ==> reading_of(periods[i], i, #[trigger] clocks[i])
}

/// Whether a period stands in the forecast after the current one, at an
/// index that is sampled
pub open spec fn sampled(periods: Seq<ForecastPeriod>, period: ForecastPeriod) -> bool {
    exists|i: int| 1 <= i < periods.len() && on_stride(i) && #[trigger] periods[i] == period
}

/// Whether a period stands in the forecast after the current one, at an
/// index that is sampled and whose local start lies in the daytime
pub open spec fn sampled_by_day(
    periods: Seq<ForecastPeriod>,
    clocks: Seq<Option<WallClock>>,
    period: ForecastPeriod,
) -> bool {
    exists|i: int|
        1 <= i < periods.len() && shown(clocks, i) && #[trigger] periods[i] == period
}

/// Each index of the shown periods lies after the current period and within
/// the forecast, is sampled, and starts in the daytime; the indices ascend.
pub proof fn lemma_future_indices(clocks: Seq<Option<WallClock>>, n: int)
    ensures
        forall|k: int|
            0 <= k < future_indices(clocks, n).len() ==> {
                let i = #[trigger] future_indices(clocks, n)[k];
                1 <= i < n && on_stride(i) && i < clocks.len() && in_daytime(clocks[i])
            },
        forall|j: int, k: int|
            0 <= j < k < future_indices(clocks, n).len() ==> future_indices(clocks, n)[j]
                < future_indices(clocks, n)[k],
        future_indices(clocks, n).len() <= (if n <= 0 {
            0
        } else {
            n
        }),
    decreases n,
{
    if n > 0 {
        lemma_future_indices(clocks, n - 1);
    }
}

/// The sequence of future periods never holds the current period, the one
/// at index 0, nor a period that does not start in the daytime: each of its
/// items stands in the forecast at a sampled index from 1 on, with a local
/// start within the day's window, and the items keep the forecast's order.
pub proof fn lemma_future_periods(periods: Seq<ForecastPeriod>, clocks: Seq<Option<WallClock>>)
    ensures
        future_of(periods, clocks).len() == future_indices(clocks, periods.len() as int).len(),
        forall|k: int|
            0 <= k < future_of(periods, clocks).len() ==> {
                let i = future_indices(clocks, periods.len() as int)[k];
                &&& 1 <= i < periods.len()
                &&& #[trigger] future_of(periods, clocks)[k] == periods[i]
                &&& on_stride(i)
                &&& i < clocks.len()
                &&& in_daytime(clocks[i])
            },
        forall|j: int, k: int|
            0 <= j < k < future_of(periods, clocks).len() ==> future_indices(
                clocks,
                periods.len() as int,
            )[j] < future_indices(clocks, periods.len() as int)[k],
{
    lemma_future_indices(clocks, periods.len() as int);
}

impl WallClock {
    /// Whether this time of day lies in the part of the day whose
    /// forecast is shown
    pub fn is_daytime(&self) -> (daytime: bool)
        ensures
            daytime == in_daytime(Some(*self)),
    {
        DAY_START <= self.second_of_day && (self.second_of_day < DAY_END || (self.second_of_day
            == DAY_END && self.nanos == 0))
    }
}

impl View for Weather {
    type V = Seq<ForecastPeriod>;

    open spec fn view(&self) -> Seq<ForecastPeriod> {
        self.properties.periods@
    }
}

impl Default for Weather {
    /// A forecast without periods: what is shown before the first response
    fn default() -> (weather: Self)
        ensures
            weather@.len() == 0,
    {
        Weather { properties: ForecastProperties { periods: Vec::new() } }
    }
}

impl Weather {
    /// Get the current forecast period: the first one. An empty forecast
    /// has none.
    pub fn now(&self) -> (current: Option<&ForecastPeriod>)
        ensures
            self@.len() == 0 ==> current is None,
            self@.len() > 0 ==> current == Some(&self@[0]),
    {
        if self.properties.periods.len() == 0 {
            None
        } else {
            Some(&self.properties.periods[0])
        }
    }

    /// Get the list of periods that should be shown in the list, given the
    /// local start of each period. Of the periods after the first, every
    /// `PERIOD_INTERVAL`-th is sampled, and of those the ones that start in
    /// the middle of the night are left out.
    pub fn future_periods_at(&self, local_starts: &Vec<Option<WallClock>>) -> (future: Vec<
        ForecastPeriod,
    >)
        ensures
            future@ == future_of(self@, local_starts@),
            forall|k: int|
                0 <= k < future@.len() ==> sampled_by_day(self@, local_starts@, #[trigger] future@[k]),
    {
        proof {
            lemma_future_periods(self@, local_starts@);
            assert forall|k: int| 0 <= k < future_of(self@, local_starts@).len() implies sampled_by_day(
                self@,
                local_starts@,
                #[trigger] future_of(self@, local_starts@)[k],
            ) by {
                let i = future_indices(local_starts@, self@.len() as int)[k];
                assert(self@[i] == future_of(self@, local_starts@)[k]);
            }
        }
        let periods = &self.properties.periods;
        let mut future: Vec<ForecastPeriod> = Vec::new();
        let mut i: usize = 0;
        while i < periods.len()
            invariant
                i <= periods.len(),
                periods@ == self@,
                future@ == future_indices(local_starts@, i as int).map_values(|k: int| self@[k]),
            decreases periods.len() - i,
        {
            let ghost before = future_indices(local_starts@, i as int);
            if i >= 1 && (i - 1) % PERIOD_INTERVAL == 0 && i < local_starts.len() {
                let daytime = match local_starts[i] {
                    Some(reading) => reading.is_daytime(),
                    None => false,
                };
                if daytime {
                    future.push(periods[i]);
                    assert(future@ =~= before.push(i as int).map_values(|k: int| self@[k]));
                }
            }
            i += 1;
        }
        future
    }

    /// The local start of each sampled period, as the machine's time zone
    /// places it; `None` for the periods that are not sampled
    pub fn local_starts(&self) -> (starts: Vec<Option<WallClock>>)
        ensures
            readings_of(self@, starts@),
    {
        let periods = &self.properties.periods;
        let mut starts: Vec<Option<WallClock>> = Vec::new();
        let mut i: usize = 0;
        while i < periods.len()
            invariant
                i <= periods.len(),
                periods@ == self@,
                starts@.len() == i,
                forall|k: int| 0 <= k < i ==> reading_of(self@[k], k, #[trigger] starts@[k]),
            decreases periods.len() - i,
        {
            if i >= 1 && (i - 1) % PERIOD_INTERVAL == 0 {
                starts.push(periods[i].start_time());
            } else {
                starts.push(None);
            }
            i += 1;
        }
        starts
    }

    /// Get the list of periods that should be shown in the list. This skips
    /// periods in the middle of the night, by the machine's time zone:
    /// whatever it makes of the start times, the list is the one that
    /// `future_periods_at` gives for those readings.
    pub fn future_periods(&self) -> (future: Vec<ForecastPeriod>)
        ensures
            exists|clocks: Seq<Option<WallClock>>|
                readings_of(self@, clocks) && future@ == #[trigger] future_of(self@, clocks),
            forall|k: int| 0 <= k < future@.len() ==> sampled(self@, #[trigger] future@[k]),
    {
        let starts = self.local_starts();
        let future = self.future_periods_at(&starts);
        proof {
            assert forall|k: int| 0 <= k < future@.len() implies sampled(self@, #[trigger] future@[k]) by {
                assert(sampled_by_day(self@, starts@, future@[k]));
                let i = choose|i: int|
                    1 <= i < self@.len() && shown(starts@, i) && #[trigger] self@[i] == future@[k];
                assert(self@[i] == future@[k]);
            }
        }
        future
    }
}

/// How a temperature reads: the degrees in decimal and a degree sign
pub open spec fn temperature_label(degrees: int) -> Seq<char> {
    signed_decimal(degrees) + "°"@
}

/// How a chance of precipitation reads: the percentage in decimal and a
/// percent sign, with 0 where the provider gave none
pub open spec fn precipitation_label(chance: Option<i32>) -> Seq<char> {
    signed_decimal(
        match chance {
            Some(percent) => percent as int,
            None => 0,
        },
    ) + "%"@
}

impl ForecastPeriod {
    /// Localized time of day for the start of this period, by the
    /// machine's time zone
    pub fn start_time(&self) -> (clock: Option<WallClock>)
        ensures
            clock is Some <==> on_calendar(self.start_time),
            clock matches Some(reading) ==> is_local_reading(self.start_time, reading),
            clock matches Some(reading) ==> reading.is_valid() && reading.nanos == subsecond_nanos(
                self.start_time,
            ),
    {
        self.start_time.local_time()
    }

    /// Formatted temperature
    pub fn temperature(&self) -> (text: String)
        ensures
            text@ == temperature_label(self.temperature as int),
    {
        let mut text = signed_decimal_string(self.temperature as i64);
        text.append("°");
        text
    }

    /// Formatted probability of precipitation
    pub fn prob_of_precip(&self) -> (text: String)
        ensures
            text@ == precipitation_label(self.probability_of_precipitation.value),
    {
        let percent: i32 = match self.probability_of_precipitation.value {
            Some(percent) => percent,
            None => 0,
        };
        let mut text = signed_decimal_string(percent as i64);
        text.append("%");
        text
    }
}

} // verus!
