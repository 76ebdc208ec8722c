//! The cycle of a background poller: fetch, emit on success, sleep.

use vstd::prelude::*;

verus! {

/// Seconds between two requests for transit predictions
pub const DATA_TTL: u64 = 30;

/// Seconds between two requests for the weather forecast
pub const FORECAST_TTL: u64 = 60;

/// Which source a poller asks
#[derive(Clone, Copy, Debug, PartialEq, Eq, Structural)]
pub enum PollerKind {
    Transit,
    Weather,
}

/// Where a poller stands in its cycle
#[derive(Clone, Copy, Debug, PartialEq, Eq, Structural)]
pub enum PollerState {
    /// A request is to be made, or is in flight
    Fetching,
    /// The poller waits for its interval to pass
    Sleeping,
}

/// What happened to a poller
#[derive(Clone, Copy, Debug, PartialEq, Eq, Structural)]
pub enum PollerEvent {
    /// The request gave new data
    Fetched,
    /// The request failed
    Unavailable,
    /// The interval has passed
    Woke,
}

/// What a poller is to do next
#[derive(Clone, Copy, Debug, PartialEq, Eq, Structural)]
pub enum PollerAction {
    /// Make a request
    Fetch,
    /// Send the new data as an update, then sleep for so many seconds
    EmitThenSleep(u64),
    /// Sleep for so many seconds, without sending anything
    Sleep(u64),
    /// Nothing: the event does not belong to the state
    Ignore,
}

impl PollerKind {
    /// Seconds that a poller of this kind sleeps between requests. The
    /// interval is fixed: a failure does not change it.
    pub open spec fn spec_interval(self) -> u64 {
        match self {
            PollerKind::Transit => DATA_TTL,
            PollerKind::Weather => FORECAST_TTL,
        }
    }

    /// Seconds that a poller of this kind sleeps between requests
    #[verifier::when_used_as_spec(spec_interval)]
    pub fn interval(self) -> (seconds: u64)
        ensures
            seconds == self.spec_interval(),
    {
        match self {
            PollerKind::Transit => DATA_TTL,
            PollerKind::Weather => FORECAST_TTL,
        }
    }
}

/// The state and the action that follow an event. After a request the
/// poller sleeps for its interval, and emits first if and only if the
/// request gave data; after the sleep it makes the next request. An event
/// that does not belong to the state changes nothing.
pub open spec fn stepped(kind: PollerKind, state: PollerState, event: PollerEvent) -> (
    PollerState,
    PollerAction,
) {
    match (state, event) {
        (PollerState::Fetching, PollerEvent::Fetched) => (
            PollerState::Sleeping,
            PollerAction::EmitThenSleep(kind.spec_interval()),
        ),
        (PollerState::Fetching, PollerEvent::Unavailable) => (
            PollerState::Sleeping,
            PollerAction::Sleep(kind.spec_interval()),
        ),
        (PollerState::Sleeping, PollerEvent::Woke) => (PollerState::Fetching, PollerAction::Fetch),
        _ => (state, PollerAction::Ignore),
    }
}

/// Where a poller starts: with a request
pub fn poller_start() -> (begin: (PollerState, PollerAction))
    ensures
        begin == (PollerState::Fetching, PollerAction::Fetch),
{
    (PollerState::Fetching, PollerAction::Fetch)
}

/// Decides what a poller does after an event.
pub fn poller_step(kind: PollerKind, state: PollerState, event: PollerEvent) -> (next: (
    PollerState,
    PollerAction,
))
    ensures
        next == stepped(kind, state, event),
{
    match state {
        PollerState::Fetching => match event {
            PollerEvent::Fetched => (PollerState::Sleeping, PollerAction::EmitThenSleep(kind.interval())),
            PollerEvent::Unavailable => (PollerState::Sleeping, PollerAction::Sleep(kind.interval())),
            PollerEvent::Woke => (state, PollerAction::Ignore),
        },
        PollerState::Sleeping => match event {
            PollerEvent::Woke => (PollerState::Fetching, PollerAction::Fetch),
            _ => (state, PollerAction::Ignore),
        },
    }
}

/// A poller has no last state: whatever came of a request, the poller
/// sleeps its fixed interval and then asks again, and a failed request
/// emits nothing.
pub proof fn lemma_poller_cycles(kind: PollerKind, fetched: bool)
    ensures
        ({
            let event = if fetched {
                PollerEvent::Fetched
            } else {
                PollerEvent::Unavailable
            };
            let (asleep, action) = stepped(kind, PollerState::Fetching, event);
            &&& asleep == PollerState::Sleeping
            &&& action == (if fetched {
                PollerAction::EmitThenSleep(kind.spec_interval())
            } else {
                PollerAction::Sleep(kind.spec_interval())
            })
            &&& stepped(kind, asleep, PollerEvent::Woke) == (PollerState::Fetching, PollerAction::Fetch)
        }),
{
}

} // verus!
