//! An index of departure times, keyed by route and stop identifier.

use crate::clock::Instant;
use indexmap::IndexMap;
use vstd::prelude::*;

verus! {

/// `indexmap::IndexMap`, held as it is: nothing inside it is visible here
#[verifier::external_type_specification]
#[verifier::external_body]
#[verifier::reject_recursive_types(K)]
#[verifier::reject_recursive_types(V)]
#[verifier::reject_recursive_types(S)]
pub struct ExIndexMap<K, V, S>(IndexMap<K, V, S>);

/// What an `indexmap::IndexMap` from (route, stop) to departure times
/// holds: each key that is present, by its characters, with its list
pub uninterp spec fn index_entries(index: IndexMap<(String, String), Vec<Instant>>) -> Map<
    (Seq<char>, Seq<char>),
    Seq<Instant>,
>;

/// The map without any key
pub open spec fn no_entries() -> Map<(Seq<char>, Seq<char>), Seq<Instant>> {
    Map::empty()
}

/// `IndexMap::new`: a map that holds nothing
#[verifier::external_body]
fn index_new() -> (made: IndexMap<(String, String), Vec<Instant>>)
    ensures
        index_entries(made) == no_entries(),
{
    IndexMap::new()
}

/// `IndexMap::get`: a copy of the list stored under the key, when the key
/// is present; the map is left as it was
#[verifier::external_body]
fn index_get(index: &IndexMap<(String, String), Vec<Instant>>, route: &String, stop: &String) -> (found:
    Option<Vec<Instant>>)
    ensures
        found is Some <==> index_entries(*index).contains_key((route@, stop@)),
        found matches Some(list) ==> list@ == index_entries(*index)[(route@, stop@)],
{
    index.get(&(route.clone(), stop.clone())).cloned()
}

/// `IndexMap::insert`: afterwards the key holds the given list, whether or
/// not it was present, and every other key holds what it held
#[verifier::external_body]
fn index_insert(
    index: &mut IndexMap<(String, String), Vec<Instant>>,
    route: String,
    stop: String,
    list: Vec<Instant>,
)
    ensures
        index_entries(*final(index)) == index_entries(*old(index)).insert((route@, stop@), list@),
{
    index.insert((route, stop), list);
}

/// Departure times gathered per (route, stop) pair
pub struct DepartureIndex {
    entries: IndexMap<(String, String), Vec<Instant>>,
}

impl View for DepartureIndex {
    type V = Map<(Seq<char>, Seq<char>), Seq<Instant>>;

    closed spec fn view(&self) -> Map<(Seq<char>, Seq<char>), Seq<Instant>> {
        index_entries(self.entries)
    }
}

impl DepartureIndex {
    /// An index that tracks no stop
    pub fn new() -> (index: Self)
        ensures
            index@ == no_entries(),
    {
        DepartureIndex { entries: index_new() }
    }

    /// Starts tracking a stop of a route, with no departures. A stop that
    /// is tracked already loses what was gathered for it.
    pub fn track(&mut self, route: String, stop: String)
        ensures
            final(self)@ == old(self)@.insert((route@, stop@), Seq::<Instant>::empty()),
    {
        index_insert(&mut self.entries, route, stop, Vec::new());
    }

    /// Adds a departure to a tracked stop, after those gathered before.
    /// Says whether the stop is tracked; if not, nothing changes.
    pub fn record(&mut self, route: &String, stop: &String, at: Instant) -> (kept: bool)
        ensures
            kept == old(self)@.contains_key((route@, stop@)),
            kept ==> final(self)@ == old(self)@.insert(
                (route@, stop@),
                old(self)@[(route@, stop@)].push(at),
            ),
            !kept ==> final(self)@ == old(self)@,
    {
        match index_get(&self.entries, route, stop) {
            Some(list) => {
                let mut list = list;
                list.push(at);
                index_insert(&mut self.entries, route.clone(), stop.clone(), list);
                true
            },
            None => false,
        }
    }

    /// The departures gathered for a stop, in the order they were added;
    /// none for a stop that is not tracked
    pub fn departures(&self, route: &String, stop: &String) -> (list: Vec<Instant>)
        ensures
            list@ == (if self@.contains_key((route@, stop@)) {
                self@[(route@, stop@)]
            } else {
                Seq::<Instant>::empty()
            }),
    {
        match index_get(&self.entries, route, stop) {
            Some(list) => list,
            None => Vec::new(),
        }
    }
}

} // verus!
