//! Transit predictions: raw departure records grouped by the configured
//! lines and stops, and turned into short countdown lists.

use crate::clock::{lemma_whole_minutes_monotonic, minutes_between, Instant};
use crate::departures::DepartureIndex;
use crate::text::{as_ints, comma_list, comma_separated, decimal, decimal_string, signed_decimal, signed_decimal_string};
use itertools::Itertools;
use vstd::prelude::*;
use vstd::relations::{sorted_by, total_ordering};
use vstd::seq_lib::lemma_sorted_unique;

verus! {

/// Max number of pending departures to show for a stop
pub const MAX_PREDICTIONS: usize = 2;

/// A stop to show predictions for
#[derive(Debug, PartialEq, Eq)]
pub struct TransitStop {
    /// Name shown beside the countdowns
    pub name: String,
    /// The provider's number for the stop
    pub id: u32,
}

/// Configuration for a transit line to show predictions for
#[derive(Debug, PartialEq, Eq)]
pub struct TransitLine {
    pub name: String,
    /// The stops of interest on this line, in display order
    pub stops: Vec<TransitStop>,
}

impl Clone for TransitStop {
    fn clone(&self) -> (copy: Self)
        ensures
            copy == *self,
    {
        TransitStop { name: self.name.clone(), id: self.id }
    }
}

impl TransitLine {
    /// Whether two lines are configured alike: the same name, and the same
    /// stops in the same order
    pub open spec fn same_as(&self, other: &TransitLine) -> bool {
        self.name@ == other.name@ && self.stops@ == other.stops@
    }
}

impl Clone for TransitLine {
    fn clone(&self) -> (copy: Self)
        ensures
            copy.same_as(self),
    {
        let stops = self.stops.clone();
        assert(stops@ =~= self.stops@);
        TransitLine { name: self.name.clone(), stops }
    }
}

/// One prediction as the provider reports it
#[derive(Clone, Debug, PartialEq, Eq)]
pub struct RawPrediction {
    /// Identifier of the route the vehicle runs on
    pub route: String,
    /// Identifier of the stop, as the provider writes it
    pub stop: String,
    /// Departure time; absent when the stop is being skipped
    pub departure: Option<Instant>,
}

/// Number of minutes until an event
#[derive(Clone, Copy, Debug, PartialEq, Eq, Structural)]
pub struct Countdown(pub i64);

/// The next few departures from one stop, soonest first
#[derive(Clone, Debug, PartialEq, Eq)]
pub struct CountdownList(pub Vec<Countdown>);

/// Predictions for one stop of a line
#[derive(Clone, Debug, PartialEq, Eq)]
pub struct StopPrediction {
    pub name: String,
    pub predictions: CountdownList,
}

/// Predictions for the stops of one line
#[derive(Clone, Debug, PartialEq, Eq)]
pub struct LinePrediction {
    pub name: String,
    pub stops: Vec<StopPrediction>,
}

/// Predictions for all tracked transit lines/stops
#[derive(Clone, Debug, PartialEq, Eq)]
pub struct TransitPredictions {
    pub lines: Vec<LinePrediction>,
}

/// The order of instants in time
pub open spec fn by_time() -> spec_fn(Instant, Instant) -> bool {
    |a: Instant, b: Instant| a.millis <= b.millis
}

/// The earliest instants of a list, at most `MAX_PREDICTIONS` of them, in
/// ascending order; instants that occur twice are kept twice
pub open spec fn soonest(instants: Seq<Instant>) -> Seq<Instant> {
    let ordered = instants.sort_by(by_time());
    if ordered.len() <= MAX_PREDICTIONS {
        ordered
    } else {
        ordered.subrange(0, MAX_PREDICTIONS as int)
    }
}

/// The minutes from `now` until each of the soonest instants
pub open spec fn countdowns(instants: Seq<Instant>, now: Instant) -> Seq<int> {
    soonest(instants).map_values(|at: Instant| minutes_between(at, now))
}

/// Sorting keeps every instant and puts them in ascending order.
pub proof fn lemma_ordered(instants: Seq<Instant>)
    ensures
        total_ordering(by_time()),
        sorted_by(instants.sort_by(by_time()), by_time()),
        instants.sort_by(by_time()).to_multiset() == instants.to_multiset(),
        instants.sort_by(by_time()).len() == instants.len(),
{
    assert(total_ordering(by_time()));
    instants.lemma_sort_by_ensures(by_time());
    instants.to_multiset_ensures();
    instants.sort_by(by_time()).to_multiset_ensures();
}

/// A countdown list is as long as the instants allow, up to the limit, and
/// its minutes never decrease.
pub proof fn lemma_countdowns(instants: Seq<Instant>, now: Instant)
    ensures
        countdowns(instants, now).len() == (if instants.len() <= MAX_PREDICTIONS {
            instants.len()
        } else {
            MAX_PREDICTIONS as nat
        }),
        forall|i: int, j: int|
            0 <= i <= j < countdowns(instants, now).len() ==> countdowns(instants, now)[i]
                <= countdowns(instants, now)[j],
{
    lemma_ordered(instants);
    let ordered = instants.sort_by(by_time());
    let kept = soonest(instants);
    assert forall|i: int, j: int| 0 <= i <= j < countdowns(instants, now).len() implies countdowns(
        instants,
        now,
    )[i] <= countdowns(instants, now)[j] by {
        assert(kept[i] == ordered[i]);
        assert(kept[j] == ordered[j]);
        if i < j {
            assert(by_time()(ordered[i], ordered[j]));
        }
        lemma_whole_minutes_monotonic(kept[i].millis - now.millis, kept[j].millis - now.millis);
    }
}

/// `Itertools::sorted` on the instants' millisecond counts: the same
/// instants, each as often as before, in ascending order
#[verifier::external_body]
fn sorted_ascending(list: Vec<Instant>) -> (sorted: Vec<Instant>)
    ensures
        sorted@.to_multiset() == list@.to_multiset(),
        forall|i: int, j: int| 0 <= i < j < sorted@.len() ==> sorted@[i].millis <= sorted@[j].millis,
{
    list.into_iter().map(|at| at.millis).sorted().map(|millis| Instant { millis }).collect()
}

impl View for CountdownList {
    type V = Seq<int>;

    open spec fn view(&self) -> Seq<int> {
        self.0@.map_values(|c: Countdown| c.0 as int)
    }
}

impl CountdownList {
    /// What every list made from departure times is: no longer than
    /// `MAX_PREDICTIONS`, with minutes that never decrease
    pub open spec fn is_well_formed(&self) -> bool {
        &&& self@.len() <= MAX_PREDICTIONS
        &&& forall|i: int, j: int| 0 <= i <= j < self@.len() ==> self@[i] <= self@[j]
    }

    /// Convert a list of timestamps into offsets in minutes from `now`,
    /// sorting and truncating as necessary.
    pub fn from_instants(value: Vec<Instant>, now: Instant) -> (list: CountdownList)
        ensures
            list@ == countdowns(value@, now),
            list.is_well_formed(),
            list@.len() == (if value@.len() <= MAX_PREDICTIONS {
                value@.len()
            } else {
                MAX_PREDICTIONS as nat
            }),
            forall|i: int, j: int| 0 <= i <= j < list@.len() ==> list@[i] <= list@[j],
    {
        let ghost given = value@;
        let sorted = sorted_ascending(value);
        proof {
            lemma_ordered(given);
            lemma_sorted_unique(sorted@, given.sort_by(by_time()), by_time());
            lemma_countdowns(given, now);
        }
        let keep: usize = if sorted.len() <= MAX_PREDICTIONS {
            sorted.len()
        } else {
            MAX_PREDICTIONS
        };
        let mut minutes: Vec<Countdown> = Vec::new();
        let mut i: usize = 0;
        while i < keep
            invariant
                i <= keep <= sorted.len(),
                minutes@.len() == i,
                soonest(given).len() == keep,
                forall|k: int| 0 <= k < keep ==> soonest(given)[k] == sorted@[k],
                forall|k: int|
                    0 <= k < i ==> (#[trigger] minutes@[k]).0 == minutes_between(sorted@[k], now),
            decreases keep - i,
        {
            minutes.push(Countdown(sorted[i].minutes_after(now)));
            i += 1;
        }
        let list = CountdownList(minutes);
        assert(list@ =~= countdowns(given, now));
        list
    }

    /// Convert a list of timestamps into offsets in minutes from the
    /// present moment. Whatever the clock reads, the list is the one that
    /// `from_instants` gives for that reading.
    pub fn from(value: Vec<Instant>) -> (list: CountdownList)
        ensures
            exists|now: Instant| list@ == countdowns(value@, now),
            list.is_well_formed(),
            list@.len() == (if value@.len() <= MAX_PREDICTIONS {
                value@.len()
            } else {
                MAX_PREDICTIONS as nat
            }),
            forall|i: int, j: int| 0 <= i <= j < list@.len() ==> list@[i] <= list@[j],
    {
        let now = Instant::now();
        CountdownList::from_instants(value, now)
    }

    /// The countdowns in minutes, soonest first
    pub fn minutes(&self) -> (minutes: Vec<i64>)
        ensures
            minutes@.len() == self@.len(),
            forall|i: int| 0 <= i < self@.len() ==> minutes@[i] == self@[i],
    {
        let mut minutes: Vec<i64> = Vec::new();
        let mut i: usize = 0;
        while i < self.0.len()
            invariant
                i <= self.0.len(),
                minutes@.len() == i,
                forall|k: int| 0 <= k < i ==> minutes@[k] == self@[k],
            decreases self.0.len() - i,
        {
            minutes.push(self.0[i].0);
            i += 1;
        }
        minutes
    }
}

/// The identifier under which the provider reports a stop: its number in
/// decimal
pub open spec fn stop_key(stop: TransitStop) -> Seq<char> {
    decimal(stop.id as nat)
}

/// Whether stop `s` of line `l` is the one a record names by `route` and `stop`
pub open spec fn watches(
    lines: Seq<TransitLine>,
    l: int,
    s: int,
    route: Seq<char>,
    stop: Seq<char>,
) -> bool {
    &&& 0 <= l < lines.len()
    &&& 0 <= s < lines[l].stops@.len()
    &&& lines[l].name@ == route
    &&& stop_key(lines[l].stops@[s]) == stop
}

/// Whether some configured line of that name has that stop
pub open spec fn configured(lines: Seq<TransitLine>, route: Seq<char>, stop: Seq<char>) -> bool {
    exists|l: int, s: int| #[trigger] watches(lines, l, s, route, stop)
}

/// Whether a stop before position (`l`, `s`), in configuration order, is the
/// one named
pub open spec fn configured_before(
    lines: Seq<TransitLine>,
    l: int,
    s: int,
    route: Seq<char>,
    stop: Seq<char>,
) -> bool {
    exists|a: int, b: int| #[trigger]
        watches(lines, a, b, route, stop) && (a < l || (a == l && b < s))
}

/// The departure times that the records report for a route and stop, in
/// the order of the records. A record without a departure time adds none.
pub open spec fn departures_for(records: Seq<RawPrediction>, route: Seq<char>, stop: Seq<char>) -> Seq<
    Instant,
>
    decreases records.len(),
{
    if records.len() == 0 {
        Seq::empty()
    } else {
        let earlier = departures_for(records.drop_last(), route, stop);
        let last = records.last();
        if last.route@ == route && last.stop@ == stop && last.departure is Some {
            earlier.push(last.departure->Some_0)
        } else {
            earlier
        }
    }
}

impl TransitPredictions {
    /// The predictions have the shape of the configuration: its lines in
    /// order, and under each its stops in order, by name.
    pub open spec fn mirrors(&self, lines: Seq<TransitLine>) -> bool {
        &&& self.lines@.len() == lines.len()
        &&& forall|l: int|
            0 <= l < lines.len() ==> {
                &&& (#[trigger] self.lines@[l]).name@ == lines[l].name@
                &&& self.lines@[l].stops@.len() == lines[l].stops@.len()
            }
        &&& forall|l: int, s: int|
            0 <= l < lines.len() && 0 <= s < lines[l].stops@.len() ==> (
            #[trigger] self.lines@[l].stops@[s]).name@ == lines[l].stops@[s].name@
    }

    /// The predictions mirror the configuration, and each stop shows the
    /// countdowns of the departures reported for its line's name and its
    /// own identifier.
    pub open spec fn gathers(
        &self,
        lines: Seq<TransitLine>,
        records: Seq<RawPrediction>,
        now: Instant,
    ) -> bool {
        &&& self.mirrors(lines)
        &&& forall|l: int, s: int|
            0 <= l < lines.len() && 0 <= s < lines[l].stops@.len() ==> (
            #[trigger] self.lines@[l].stops@[s]).predictions@ == countdowns(
                departures_for(records, lines[l].name@, stop_key(lines[l].stops@[s])),
                now,
            )
    }

    /// Every countdown list in the predictions is well formed.
    pub open spec fn is_well_formed(&self) -> bool {
        forall|l: int, s: int|
            0 <= l < self.lines@.len() && 0 <= s < self.lines@[l].stops@.len() ==> (
            #[trigger] self.lines@[l].stops@[s]).predictions.is_well_formed()
    }

    /// Gather predictions from the provider's records, with countdowns
    /// taken from `now`.
    pub fn from_response_at(lines: &Vec<TransitLine>, records: &Vec<RawPrediction>, now: Instant) -> (predictions:
        TransitPredictions)
        ensures
            predictions.gathers(lines@, records@, now),
            predictions.is_well_formed(),
    {
        let mut index = seed_index(lines);
        fill_index(&mut index, lines, records);
        let mut gathered: Vec<LinePrediction> = Vec::new();
        let mut l: usize = 0;
        while l < lines.len()
            invariant
                l <= lines.len(),
                gathered@.len() == l,
                index_holds(index@, lines@, records@),
                (TransitPredictions { lines: gathered }).gathers(lines@.take(l as int), records@, now),
            decreases lines.len() - l,
        {
            let line = &lines[l];
            let mut stops: Vec<StopPrediction> = Vec::new();
            let mut s: usize = 0;
            while s < line.stops.len()
                invariant
                    l < lines.len(),
                    *line == lines@[l as int],
                    s <= line.stops.len(),
                    stops@.len() == s,
                    index_holds(index@, lines@, records@),
                    forall|k: int|
                        0 <= k < s ==> {
                            &&& (#[trigger] stops@[k]).name@ == line.stops@[k].name@
                            &&& stops@[k].predictions@ == countdowns(
                                departures_for(records@, line.name@, stop_key(line.stops@[k])),
                                now,
                            )
                        },
                decreases line.stops.len() - s,
            {
                let stop = &line.stops[s];
                let key = decimal_string(stop.id as u64);
                assert(watches(lines@, l as int, s as int, line.name@, key@));
                let departures = index.departures(&line.name, &key);
                stops.push(
                    StopPrediction {
                        name: stop.name.clone(),
                        predictions: CountdownList::from_instants(departures, now),
                    },
                );
                s += 1;
            }
            gathered.push(LinePrediction { name: line.name.clone(), stops });
            l += 1;
            proof {
                let done = TransitPredictions { lines: gathered };
                assert(lines@.take(l as int) =~= lines@.take(l - 1).push(lines@[l - 1]));
                assert(done.gathers(lines@.take(l as int), records@, now));
            }
        }
        assert(lines@.take(l as int) =~= lines@);
        let predictions = TransitPredictions { lines: gathered };
        proof {
            lemma_gathered_is_well_formed(predictions, lines@, records@, now);
        }
        predictions
    }

    /// Gather predictions from the provider's records, with countdowns
    /// taken from the present moment. Whatever the clock reads, the result
    /// is the one that `from_response_at` gives for that reading.
    pub fn from_response(lines: &Vec<TransitLine>, records: &Vec<RawPrediction>) -> (predictions:
        TransitPredictions)
        ensures
            predictions.mirrors(lines@),
            predictions.is_well_formed(),
            exists|now: Instant| predictions.gathers(lines@, records@, now),
    {
        let now = Instant::now();
        TransitPredictions::from_response_at(lines, records, now)
    }
}

/// Whatever the records hold, the predictions gathered from them have
/// countdown lists no longer than the limit, with minutes that never
/// decrease.
pub proof fn lemma_gathered_is_well_formed(
    predictions: TransitPredictions,
    lines: Seq<TransitLine>,
    records: Seq<RawPrediction>,
    now: Instant,
)
    requires
        predictions.gathers(lines, records, now),
    ensures
        predictions.is_well_formed(),
{
    assert forall|l: int, s: int|
        0 <= l < predictions.lines@.len() && 0 <= s < predictions.lines@[l].stops@.len() implies (
    #[trigger] predictions.lines@[l].stops@[s]).predictions.is_well_formed() by {
        lemma_countdowns(
            departures_for(records, lines[l].name@, stop_key(lines[l].stops@[s])),
            now,
        );
    }
}

/// The same lines, the same records and the same `now` give the same
/// predictions: two results that gather them agree in every name and in
/// every countdown.
pub proof fn lemma_gathering_is_determined(
    first: TransitPredictions,
    second: TransitPredictions,
    lines: Seq<TransitLine>,
    records: Seq<RawPrediction>,
    now: Instant,
)
    requires
        first.gathers(lines, records, now),
        second.gathers(lines, records, now),
    ensures
        first.lines@.len() == second.lines@.len(),
        forall|l: int|
            0 <= l < first.lines@.len() ==> {
                &&& (#[trigger] first.lines@[l]).name@ == second.lines@[l].name@
                &&& first.lines@[l].stops@.len() == second.lines@[l].stops@.len()
            },
        forall|l: int, s: int|
            0 <= l < first.lines@.len() && 0 <= s < first.lines@[l].stops@.len() ==> {
                &&& (#[trigger] first.lines@[l].stops@[s]).name@ == second.lines@[l].stops@[s].name@
                &&& first.lines@[l].stops@[s].predictions@ == second.lines@[l].stops@[s].predictions@
            },
{
    assert forall|l: int, s: int|
        0 <= l < first.lines@.len() && 0 <= s < first.lines@[l].stops@.len() implies {
        &&& (#[trigger] first.lines@[l].stops@[s]).name@ == second.lines@[l].stops@[s].name@
        &&& first.lines@[l].stops@[s].predictions@ == second.lines@[l].stops@[s].predictions@
    } by {
        assert(second.lines@[l].stops@[s].name@ == lines[l].stops@[s].name@);
    }
}

/// The index tracks exactly the configured stops, and holds for each the
/// departures that the records report for it.
pub open spec fn index_holds(
    index: Map<(Seq<char>, Seq<char>), Seq<Instant>>,
    lines: Seq<TransitLine>,
    records: Seq<RawPrediction>,
) -> bool {
    forall|route: Seq<char>, stop: Seq<char>|
        {
            &&& #[trigger] index.contains_key((route, stop)) <==> configured(lines, route, stop)
            &&& index.contains_key((route, stop)) ==> index[(route, stop)] == departures_for(
                records,
                route,
                stop,
            )
        }
}

/// An index that tracks every configured stop, each without departures
fn seed_index(lines: &Vec<TransitLine>) -> (index: DepartureIndex)
    ensures
        index_holds(index@, lines@, Seq::empty()),
{
    let mut index = DepartureIndex::new();
    let mut l: usize = 0;
    while l < lines.len()
        invariant
            l <= lines.len(),
            forall|route: Seq<char>, stop: Seq<char>|
                {
                    &&& #[trigger] index@.contains_key((route, stop)) <==> configured_before(
                        lines@,
                        l as int,
                        0,
                        route,
                        stop,
                    )
                    &&& index@.contains_key((route, stop)) ==> index@[(route, stop)]
                        == Seq::<Instant>::empty()
                },
        decreases lines.len() - l,
    {
        let line = &lines[l];
        let mut s: usize = 0;
        while s < line.stops.len()
            invariant
                l < lines.len(),
                *line == lines@[l as int],
                s <= line.stops.len(),
                forall|route: Seq<char>, stop: Seq<char>|
                    {
                        &&& #[trigger] index@.contains_key((route, stop)) <==> configured_before(
                            lines@,
                            l as int,
                            s as int,
                            route,
                            stop,
                        )
                        &&& index@.contains_key((route, stop)) ==> index@[(route, stop)]
                            == Seq::<Instant>::empty()
                    },
            decreases line.stops.len() - s,
        {
            let key = decimal_string(line.stops[s].id as u64);
            let ghost before = index@;
            index.track(line.name.clone(), key);
            proof {
                let name = line.name@;
                let id = stop_key(line.stops@[s as int]);
                assert(watches(lines@, l as int, s as int, name, id));
                assert forall|route: Seq<char>, stop: Seq<char>|
                    #[trigger] index@.contains_key((route, stop)) <==> configured_before(
                        lines@,
                        l as int,
                        s + 1,
                        route,
                        stop,
                    ) by {
                    if configured_before(lines@, l as int, s + 1, route, stop) {
                        let (a, b) = choose|a: int, b: int| #[trigger]
                            watches(lines@, a, b, route, stop) && (a < l || (a == l && b < s + 1));
                        if a == l && b == s {
                            assert((route, stop) == (name, id));
                        } else {
                            assert(watches(lines@, a, b, route, stop) && (a < l || (a == l && b
                                < s)));
                            assert(before.contains_key((route, stop)));
                        }
                    }
                    if index@.contains_key((route, stop)) {
                        if (route, stop) == (name, id) {
                            assert(watches(lines@, l as int, s as int, route, stop) && (l < l || (l
                                == l && s < s + 1)));
                        } else {
                            assert(before.contains_key((route, stop)));
                            let (a, b) = choose|a: int, b: int| #[trigger]
                                watches(lines@, a, b, route, stop) && (a < l || (a == l && b < s));
                            assert(watches(lines@, a, b, route, stop) && (a < l || (a == l && b < s
                                + 1)));
                        }
                    }
                }
            }
            s += 1;
        }
        proof {
            assert forall|route: Seq<char>, stop: Seq<char>|
                configured_before(lines@, l as int, s as int, route, stop) <==> configured_before(
                    lines@,
                    l + 1,
                    0,
                    route,
                    stop,
                ) by {
                if configured_before(lines@, l as int, s as int, route, stop) {
                    let (a, b) = choose|a: int, b: int| #[trigger]
                        watches(lines@, a, b, route, stop) && (a < l || (a == l && b < s));
                    assert(watches(lines@, a, b, route, stop) && (a < l + 1 || (a == l + 1 && b
                        < 0)));
                }
                if configured_before(lines@, l + 1, 0, route, stop) {
                    let (a, b) = choose|a: int, b: int| #[trigger]
                        watches(lines@, a, b, route, stop) && (a < l + 1 || (a == l + 1 && b < 0));
                    assert(watches(lines@, a, b, route, stop) && (a < l || (a == l && b < s)));
                }
            }
        }
        l += 1;
    }
    proof {
        assert forall|route: Seq<char>, stop: Seq<char>|
            configured_before(lines@, l as int, 0, route, stop) <==> configured(lines@, route, stop) by {
            if configured(lines@, route, stop) {
                let (a, b) = choose|a: int, b: int| #[trigger] watches(lines@, a, b, route, stop);
                assert(watches(lines@, a, b, route, stop) && (a < l || (a == l && b < 0)));
            }
        }
    }
    index
}

/// Adds the departure of every record that names a tracked stop.
fn fill_index(index: &mut DepartureIndex, lines: &Vec<TransitLine>, records: &Vec<RawPrediction>)
    requires
        index_holds(old(index)@, lines@, Seq::empty()),
    ensures
        index_holds(final(index)@, lines@, records@),
{
    let mut i: usize = 0;
    while i < records.len()
        invariant
            i <= records.len(),
            index_holds(index@, lines@, records@.take(i as int)),
        decreases records.len() - i,
    {
        let record = &records[i];
        let ghost before = index@;
        // Departure time will be empty if the stop is being skipped
        match record.departure {
            Some(at) => {
                index.record(&record.route, &record.stop, at);
            },
            None => {},
        }
        proof {
            let seen = records@.take(i as int);
            assert(records@.take(i + 1).drop_last() =~= seen);
            assert(records@.take(i + 1).last() == *record);
            assert forall|route: Seq<char>, stop: Seq<char>|
                {
                    &&& #[trigger] index@.contains_key((route, stop)) <==> configured(
                        lines@,
                        route,
                        stop,
                    )
                    &&& index@.contains_key((route, stop)) ==> index@[(route, stop)]
                        == departures_for(records@.take(i + 1), route, stop)
                } by {
                assert(before.contains_key((route, stop)) <==> configured(lines@, route, stop));
                if (route, stop) != (record.route@, record.stop@) {
                    assert(!(record.route@ == route && record.stop@ == stop));
                }
            }
        }
        i += 1;
    }
    assert(records@.take(i as int) =~= records@);
}

/// Why a record adds no departure
#[derive(Clone, Copy, Debug, PartialEq, Eq, Structural)]
pub enum Rejection {
    /// The record has no departure time: the stop is being skipped
    Skipped,
    /// No configured line has the record's route
    UnknownRoute,
    /// A configured line has the record's route, but none of them the stop
    UnknownStop,
}

/// Whether some configured line has that name
pub open spec fn route_configured(lines: Seq<TransitLine>, route: Seq<char>) -> bool {
    exists|l: int| 0 <= l < lines.len() && (#[trigger] lines[l]).name@ == route
}

/// Decides whether a record counts: gives its departure time, or the
/// reason why it is dropped.
pub fn screen(lines: &Vec<TransitLine>, record: &RawPrediction) -> (verdict: Result<Instant, Rejection>)
    ensures
        match verdict {
            Ok(at) => record.departure == Some(at) && configured(lines@, record.route@, record.stop@),
            Err(Rejection::Skipped) => record.departure is None,
            Err(Rejection::UnknownRoute) => record.departure is Some && !route_configured(
                lines@,
                record.route@,
            ),
            Err(Rejection::UnknownStop) => record.departure is Some && route_configured(
                lines@,
                record.route@,
            ) && !configured(lines@, record.route@, record.stop@),
        },
{
    let at = match record.departure {
        Some(at) => at,
        None => {
            return Err(Rejection::Skipped);
        },
    };
    let mut route_seen = false;
    let mut l: usize = 0;
    while l < lines.len()
        invariant
            l <= lines.len(),
            record.departure == Some(at),
            route_seen <==> exists|a: int| 0 <= a < l && (#[trigger] lines@[a]).name@ == record.route@,
            !configured_before(lines@, l as int, 0, record.route@, record.stop@),
        decreases lines.len() - l,
    {
        let line = &lines[l];
        if line.name == record.route {
            route_seen = true;
            let mut s: usize = 0;
            while s < line.stops.len()
                invariant
                    l < lines.len(),
                    *line == lines@[l as int],
                    line.name@ == record.route@,
                    record.departure == Some(at),
                    s <= line.stops.len(),
                    !configured_before(lines@, l as int, s as int, record.route@, record.stop@),
                decreases line.stops.len() - s,
            {
                let key = decimal_string(line.stops[s].id as u64);
                if key == record.stop {
                    assert(watches(lines@, l as int, s as int, record.route@, record.stop@));
                    return Ok(at);
                }
                proof {
                    if configured_before(lines@, l as int, s + 1, record.route@, record.stop@) {
                        let (a, b) = choose|a: int, b: int| #[trigger]
                            watches(lines@, a, b, record.route@, record.stop@) && (a < l || (a == l
                                && b < s + 1));
                        assert(watches(lines@, a, b, record.route@, record.stop@) && (a < l || (a
                            == l && b < s)));
                    }
                }
                s += 1;
            }
        }
        proof {
            assert(lines@[l as int].name@ == record.route@ ==> route_seen);
            if configured_before(lines@, l + 1, 0, record.route@, record.stop@) {
                let (a, b) = choose|a: int, b: int| #[trigger]
                    watches(lines@, a, b, record.route@, record.stop@) && (a < l + 1 || (a == l + 1
                        && b < 0));
                if a == l {
                    assert(watches(lines@, a, b, record.route@, record.stop@) && (a < l || (a == l
                        && b < lines@[l as int].stops@.len())));
                } else {
                    assert(watches(lines@, a, b, record.route@, record.stop@) && (a < l || (a == l
                        && b < 0)));
                }
            }
        }
        l += 1;
    }
    proof {
        if configured(lines@, record.route@, record.stop@) {
            let (a, b) = choose|a: int, b: int| #[trigger]
                watches(lines@, a, b, record.route@, record.stop@);
            assert(watches(lines@, a, b, record.route@, record.stop@) && (a < l || (a == l && b
                < 0)));
        }
    }
    if route_seen {
        Err(Rejection::UnknownStop)
    } else {
        Err(Rejection::UnknownRoute)
    }
}

/// The departures of two runs of records, one after the other, are the
/// departures of the first run followed by those of the second.
pub proof fn lemma_departures_concat(
    first: Seq<RawPrediction>,
    second: Seq<RawPrediction>,
    route: Seq<char>,
    stop: Seq<char>,
)
    ensures
        departures_for(first + second, route, stop) == departures_for(first, route, stop)
            + departures_for(second, route, stop),
    decreases second.len(),
{
    if second.len() == 0 {
        assert(first + second =~= first);
        assert(departures_for(first, route, stop) + departures_for(second, route, stop)
            =~= departures_for(first, route, stop));
    } else {
        lemma_departures_concat(first, second.drop_last(), route, stop);
        assert((first + second).drop_last() =~= first + second.drop_last());
        assert((first + second).last() == second.last());
        assert(departures_for(first + second, route, stop) =~= departures_for(first, route, stop)
            + departures_for(second, route, stop));
    }
}

/// A record that does not name a route and stop, or that has no departure
/// time, can be taken out of the records without changing the departures
/// of that route and stop.
pub proof fn lemma_departures_without(
    records: Seq<RawPrediction>,
    i: int,
    route: Seq<char>,
    stop: Seq<char>,
)
    requires
        0 <= i < records.len(),
        records[i].departure is None || records[i].route@ != route || records[i].stop@ != stop,
    ensures
        departures_for(records.remove(i), route, stop) == departures_for(records, route, stop),
{
    let head = records.take(i);
    let tail = records.skip(i + 1);
    assert(records =~= head.push(records[i]) + tail);
    assert(records.remove(i) =~= head + tail);
    lemma_departures_concat(head.push(records[i]), tail, route, stop);
    lemma_departures_concat(head, tail, route, stop);
    assert(head.push(records[i]).drop_last() =~= head);
}

/// Every departure shown for a route and stop is the departure time of a
/// record that names them; so a record without a departure time is never
/// shown.
pub proof fn lemma_departures_reported(
    records: Seq<RawPrediction>,
    route: Seq<char>,
    stop: Seq<char>,
    k: int,
)
    requires
        0 <= k < departures_for(records, route, stop).len(),
    ensures
        exists|i: int|
            0 <= i < records.len() && (#[trigger] records[i]).route@ == route && records[i].stop@
                == stop && records[i].departure == Some(departures_for(records, route, stop)[k]),
    decreases records.len(),
{
    let earlier = departures_for(records.drop_last(), route, stop);
    let last = records.last();
    if last.route@ == route && last.stop@ == stop && last.departure is Some && k == earlier.len() {
        assert(records[records.len() - 1] == last);
    } else {
        lemma_departures_reported(records.drop_last(), route, stop, k);
        let i = choose|i: int|
            0 <= i < records.drop_last().len() && (#[trigger] records.drop_last()[i]).route@
                == route && records.drop_last()[i].stop@ == stop && records.drop_last()[i].departure
                == Some(earlier[k]);
        assert(records[i] == records.drop_last()[i]);
    }
}

/// A record without a departure time changes no prediction, wherever it
/// stands among the records.
pub proof fn lemma_skipped_record_is_dropped(
    predictions: TransitPredictions,
    lines: Seq<TransitLine>,
    records: Seq<RawPrediction>,
    i: int,
    now: Instant,
)
    requires
        0 <= i < records.len(),
        records[i].departure is None,
    ensures
        predictions.gathers(lines, records, now) <==> predictions.gathers(
            lines,
            records.remove(i),
            now,
        ),
{
    assert forall|l: int, s: int| 0 <= l < lines.len() && 0 <= s < lines[l].stops@.len() implies #[trigger] departures_for(
        records.remove(i),
        lines[l].name@,
        stop_key(lines[l].stops@[s]),
    ) == departures_for(records, lines[l].name@, stop_key(lines[l].stops@[s])) by {
        lemma_departures_without(records, i, lines[l].name@, stop_key(lines[l].stops@[s]));
    }
}

/// A record whose route and stop match no configured stop changes no
/// prediction, wherever it stands among the records.
pub proof fn lemma_unknown_record_is_dropped(
    predictions: TransitPredictions,
    lines: Seq<TransitLine>,
    records: Seq<RawPrediction>,
    i: int,
    now: Instant,
)
    requires
        0 <= i < records.len(),
        !configured(lines, records[i].route@, records[i].stop@),
    ensures
        predictions.gathers(lines, records, now) <==> predictions.gathers(
            lines,
            records.remove(i),
            now,
        ),
{
    assert forall|l: int, s: int| 0 <= l < lines.len() && 0 <= s < lines[l].stops@.len() implies #[trigger] departures_for(
        records.remove(i),
        lines[l].name@,
        stop_key(lines[l].stops@[s]),
    ) == departures_for(records, lines[l].name@, stop_key(lines[l].stops@[s])) by {
        let route = lines[l].name@;
        let stop = stop_key(lines[l].stops@[s]);
        assert(watches(lines, l, s, route, stop));
        lemma_departures_without(records, i, route, stop);
    }
}

/// How a countdown list reads: `None` where it is empty, else the minutes
/// with commas between them and an `m` behind
pub open spec fn countdown_label(minutes: Seq<int>) -> Seq<char> {
    if minutes.len() == 0 {
        "None"@
    } else {
        comma_list(minutes) + "m"@
    }
}

impl Countdown {
    /// The minutes as text
    pub fn label(&self) -> (text: String)
        ensures
            text@ == signed_decimal(self.0 as int),
    {
        signed_decimal_string(self.0)
    }
}

impl CountdownList {
    /// The list as text, with a marker of its own where it holds nothing
    pub fn label(&self) -> (text: String)
        ensures
            text@ == countdown_label(self@),
    {
        if self.0.len() == 0 {
            String::from_str("None")
        } else {
            let minutes = self.minutes();
            assert(as_ints(minutes@) =~= self@);
            let mut text = comma_separated(&minutes);
            text.append("m");
            text
        }
    }
}

impl Default for TransitPredictions {
    /// No lines at all: what is shown before the first response
    fn default() -> (predictions: Self)
        ensures
            predictions.lines@.len() == 0,
    {
        TransitPredictions { lines: Vec::new() }
    }
}

/// The numbers of all configured stops, line by line
pub open spec fn stop_numbers(lines: Seq<TransitLine>) -> Seq<int>
    decreases lines.len(),
{
    if lines.len() == 0 {
        Seq::empty()
    } else {
        stop_numbers(lines.drop_last()) + lines.last().stops@.map_values(
            |stop: TransitStop| stop.id as int,
        )
    }
}

/// The address that answers with the predictions for all configured stops
pub open spec fn transit_query(lines: Seq<TransitLine>) -> Seq<char> {
    "https://api-v3.mbta.com/predictions?filter[stop]="@ + comma_list(stop_numbers(lines))
}

/// Builds the address to ask for predictions for all configured stops.
pub fn transit_url(lines: &Vec<TransitLine>) -> (url: String)
    ensures
        url@ == transit_query(lines@),
{
    let mut numbers: Vec<i64> = Vec::new();
    let mut l: usize = 0;
    while l < lines.len()
        invariant
            l <= lines.len(),
            as_ints(numbers@) == stop_numbers(lines@.take(l as int)),
        decreases lines.len() - l,
    {
        let line = &lines[l];
        let ghost before = numbers@;
        let mut s: usize = 0;
        while s < line.stops.len()
            invariant
                s <= line.stops.len(),
                as_ints(numbers@) == as_ints(before) + line.stops@.take(s as int).map_values(
                    |stop: TransitStop| stop.id as int,
                ),
            decreases line.stops.len() - s,
        {
            let ghost prior = numbers@;
            numbers.push(line.stops[s].id as i64);
            proof {
                assert(line.stops@.take(s + 1) =~= line.stops@.take(s as int).push(line.stops@[s as int]));
                assert(as_ints(numbers@) =~= as_ints(prior).push(line.stops@[s as int].id as int));
                assert(as_ints(numbers@) =~= as_ints(before) + line.stops@.take(s + 1).map_values(
                    |stop: TransitStop| stop.id as int,
                ));
            }
            s += 1;
        }
        proof {
            assert(line.stops@.take(s as int) =~= line.stops@);
            assert(lines@.take(l + 1).drop_last() =~= lines@.take(l as int));
            assert(lines@.take(l + 1).last() == *line);
        }
        l += 1;
    }
    assert(lines@.take(l as int) =~= lines@);
    let mut url = String::from_str("https://api-v3.mbta.com/predictions?filter[stop]=");
    let list = comma_separated(&numbers);
    url.append(list.as_str());
    url
}

} // verus!
