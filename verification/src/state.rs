//! The application state, and the messages that change it.

use crate::transit::TransitPredictions;
use crate::weather::Weather;
use std::sync::mpsc::Sender;
use vstd::prelude::*;
use vstd::std_specs::cmp::PartialEqSpecImpl;

verus! {

/// What data is being displayed?
#[derive(Clone, Copy, Debug, Eq)]
pub enum Mode {
    Weather,
    Transit,
}

impl PartialEq for Mode {
    /// Two modes are equal when they are the same mode
    fn eq(&self, other: &Self) -> (equal: bool) {
        match (self, other) {
            (Mode::Weather, Mode::Weather) => true,
            (Mode::Transit, Mode::Transit) => true,
            _ => false,
        }
    }
}

impl PartialEqSpecImpl for Mode {
    open spec fn obeys_eq_spec() -> bool {
        true
    }

    open spec fn eq_spec(&self, other: &Mode) -> bool {
        *self == *other
    }
}

impl Mode {
    /// The mode that follows this one; after the last comes the first
    pub open spec fn spec_next(self) -> Mode {
        match self {
            Mode::Weather => Mode::Transit,
            Mode::Transit => Mode::Weather,
        }
    }

    /// The mode that follows this one; after the last comes the first
    #[verifier::when_used_as_spec(spec_next)]
    pub fn next(self) -> (following: Mode)
        ensures
            following == self.spec_next(),
    {
        match self {
            Mode::Weather => Mode::Transit,
            Mode::Transit => Mode::Weather,
        }
    }

    /// List of all modes, in the order in which they follow each other
    pub open spec fn spec_all() -> Seq<Mode> {
        seq![Mode::Weather, Mode::Transit]
    }

    /// List of all modes, in the order in which they follow each other
    pub fn all() -> (modes: [Mode; 2])
        ensures
            modes@ == Mode::spec_all(),
    {
        let modes = [Mode::Weather, Mode::Transit];
        assert(modes@ =~= Mode::spec_all());
        modes
    }

    /// The name of the mode
    pub fn label(&self) -> (text: &'static str)
        ensures
            text@ == (match self {
                Mode::Weather => "Weather"@,
                Mode::Transit => "Transit"@,
            }),
    {
        match self {
            Mode::Weather => "Weather",
            Mode::Transit => "Transit",
        }
    }
}

/// A change to the state, sent by a background task
#[derive(Clone, Debug, PartialEq, Eq)]
pub enum Message {
    /// Switch to the given tab
    SwitchMode(Mode),
    /// Switch to the next tab
    AdvanceMode,
    /// Exit the program
    Quit,
    /// Update transit predictions
    TransitUpdated(TransitPredictions),
    /// Update the weather forecast
    WeatherUpdated(Weather),
}

/// Global application state. This is modified by [Message]s sent to an
/// mpsc channel
#[derive(Clone, Debug, PartialEq, Eq)]
pub struct State {
    pub weather: Weather,
    pub transit: TransitPredictions,
    pub mode: Mode,
}

impl Default for State {
    /// The weather tab, with nothing to show yet
    fn default() -> (state: Self)
        ensures
            state.mode == Mode::Weather,
            state.transit.lines@.len() == 0,
            state.weather@.len() == 0,
    {
        State { mode: Mode::Weather, transit: TransitPredictions::default(), weather: Weather::default() }
    }
}

impl State {
    /// The state after one message. A mode message changes the mode only;
    /// an update replaces one snapshot whole and leaves the rest; `Quit`
    /// changes nothing.
    pub open spec fn applied(self, message: Message) -> State {
        match message {
            Message::SwitchMode(mode) => State { mode, ..self },
            Message::AdvanceMode => State { mode: self.mode.spec_next(), ..self },
            Message::Quit => self,
            Message::TransitUpdated(transit) => State { transit, ..self },
            Message::WeatherUpdated(weather) => State { weather, ..self },
        }
    }

    /// The state after a run of messages, taken in order up to the first
    /// `Quit`; what follows it is not applied.
    pub open spec fn after(self, messages: Seq<Message>) -> State
        decreases messages.len(),
    {
        if messages.len() == 0 || messages[0] is Quit {
            self
        } else {
            self.applied(messages[0]).after(messages.drop_first())
        }
    }

    /// How many messages of a run are taken: all up to and including the
    /// first `Quit`, or all of them where there is none
    pub open spec fn taken(messages: Seq<Message>) -> nat
        decreases messages.len(),
    {
        if messages.len() == 0 {
            0
        } else if messages[0] is Quit {
            1
        } else {
            1 + State::taken(messages.drop_first())
        }
    }

    /// Applies one message. Says whether to go on: `false` on `Quit`.
    pub fn apply(&mut self, message: Message) -> (running: bool)
        ensures
            *final(self) == old(self).applied(message),
            running == !(message is Quit),
    {
        match message {
            Message::SwitchMode(mode) => {
                self.mode = mode;
                true
            },
            Message::AdvanceMode => {
                self.mode = self.mode.next();
                true
            },
            Message::Quit => false,
            Message::TransitUpdated(transit) => {
                self.transit = transit;
                true
            },
            Message::WeatherUpdated(weather) => {
                self.weather = weather;
                true
            },
        }
    }

    /// Applies a backlog of messages in the order they arrived, and stops
    /// at the first `Quit`. Gives the number of messages taken, and whether
    /// to go on: `false` where a `Quit` was among them.
    pub fn dispatch(&mut self, messages: Vec<Message>) -> (outcome: (usize, bool))
        ensures
            *final(self) == old(self).after(messages@),
            outcome.0 == State::taken(messages@),
            outcome.1 == (forall|i: int| 0 <= i < messages@.len() ==> !(messages@[i] is Quit)),
    {
        let ghost all = messages@;
        let ghost start = *self;
        let total: usize = messages.len();
        let mut rest = messages;
        let mut count: usize = 0;
        while rest.len() > 0
            invariant
                all == messages@,
                start == *old(self),
                all.len() == total,
                count + rest@.len() == all.len(),
                rest@ == all.skip(count as int),
                start.after(all) == self.after(rest@),
                State::taken(all) == count + State::taken(rest@),
                forall|i: int| 0 <= i < count ==> !(all[i] is Quit),
            decreases rest@.len(),
        {
            let ghost before = rest@;
            let ghost held = *self;
            let message = rest.remove(0);
            assert(message == before[0]);
            assert(held.after(before) == if before[0] is Quit {
                held
            } else {
                held.applied(before[0]).after(before.drop_first())
            });
            assert(State::taken(before) == if before[0] is Quit {
                1nat
            } else {
                1 + State::taken(before.drop_first())
            });
            assert(rest@ =~= before.drop_first());
            assert(rest@ =~= all.skip(count + 1));
            assert(message == all[count as int]);
            count += 1;
            let running = self.apply(message);
            if !running {
                return (count, false);
            }
        }
        (count, true)
    }
}

/// Applying the same transit update twice leaves the predictions that
/// applying it once leaves: an update replaces, it does not add.
pub proof fn lemma_transit_update_idempotent(state: State, update: TransitPredictions)
    ensures
        state.applied(Message::TransitUpdated(update)).transit == update,
        state.applied(Message::TransitUpdated(update)).applied(Message::TransitUpdated(update))
            == state.applied(Message::TransitUpdated(update)),
{
}

/// Applying the same weather update twice leaves the forecast that
/// applying it once leaves.
pub proof fn lemma_weather_update_idempotent(state: State, update: Weather)
    ensures
        state.applied(Message::WeatherUpdated(update)).weather == update,
        state.applied(Message::WeatherUpdated(update)).applied(Message::WeatherUpdated(update))
            == state.applied(Message::WeatherUpdated(update)),
{
}

/// The modes follow each other in the order of the list of all modes, and
/// after the last comes the first. Every mode is in that list, so advancing
/// once for each mode there is comes back to the mode it started from.
pub proof fn lemma_modes_cycle(mode: Mode)
    ensures
        exists|i: int| 0 <= i < Mode::spec_all().len() && Mode::spec_all()[i] == mode,
        forall|i: int|
            0 <= i < Mode::spec_all().len() ==> (#[trigger] Mode::spec_all()[i]).spec_next()
                == Mode::spec_all()[(i + 1) % (Mode::spec_all().len() as int)],
        mode.spec_next() != mode,
        mode.spec_next().spec_next() == mode,
{
    let all = Mode::spec_all();
    assert(all.len() == 2 && all[0] == Mode::Weather && all[1] == Mode::Transit);
    assert forall|i: int| 0 <= i < all.len() implies (#[trigger] all[i]).spec_next() == all[(i + 1) % (
    all.len() as int)] by {
        if i == 0 {
            assert((i + 1) % 2 == 1);
        } else {
            assert((i + 1) % 2 == 0);
        }
    }
    match mode {
        Mode::Weather => assert(all[0] == mode),
        Mode::Transit => assert(all[1] == mode),
    }
}

/// What the input source reports
#[derive(Clone, Copy, Debug, PartialEq, Eq, Structural)]
pub enum InputEvent {
    /// The escape key was pressed
    Escape,
    /// The left mouse button was released: a click or tap
    Tap,
    /// Anything else
    Other,
}

/// Handle user input and build the corresponding message. Return `None` if
/// the event should be ignored
pub fn input_message(event: InputEvent) -> (message: Option<Message>)
    ensures
        message == (match event {
            InputEvent::Escape => Some(Message::Quit),
            InputEvent::Tap => Some(Message::AdvanceMode),
            InputEvent::Other => None,
        }),
{
    match event {
        InputEvent::Escape => Some(Message::Quit),
        // Cycle mode on click/tap
        InputEvent::Tap => Some(Message::AdvanceMode),
        InputEvent::Other => None,
    }
}

/// What the input listener does with one reading of its source: the
/// message to send, if any, and whether to keep listening
#[derive(Clone, Debug, PartialEq, Eq)]
pub struct Heard {
    pub message: Option<Message>,
    pub listening: bool,
}

/// Decides what the listener does with one reading: an event becomes its
/// message, if it has one, and the listener goes on; a source that has
/// closed or failed, given as `None`, becomes one `Quit`, and the listener
/// stops.
pub fn listener_step(reading: Option<InputEvent>) -> (heard: Heard)
    ensures
        heard.listening == reading is Some,
        heard.message == (match reading {
            Some(InputEvent::Escape) => Some(Message::Quit),
            Some(InputEvent::Tap) => Some(Message::AdvanceMode),
            Some(InputEvent::Other) => None,
            None => Some(Message::Quit),
        }),
{
    match reading {
        Some(event) => Heard { message: input_message(event), listening: true },
        // Input closed - exit
        None => Heard { message: Some(Message::Quit), listening: false },
    }
}

/// `std::sync::mpsc::Sender`, held as it is: nothing inside it is visible here
#[verifier::external_type_specification]
#[verifier::external_body]
#[verifier::reject_recursive_types(T)]
pub struct ExSender<T>(Sender<T>);

/// `Sender::send`: hands the message to the channel, and says whether it
/// was taken. It is not taken once the receiving end is gone; nothing else
/// is claimed.
#[verifier::external_body]
fn channel_send(sender: &Sender<Message>, message: Message) -> (taken: bool) {
    sender.send(message).is_ok()
}

/// `Sender::clone`: one more sending handle. Nothing is claimed of it.
pub assume_specification<T>[ <Sender<T> as Clone>::clone ](sender: &Sender<T>) -> Sender<T>;

/// Message sender channel
pub struct Tx(pub Sender<Message>);

impl Clone for Tx {
    /// One more handle to the same channel, for one more sending task
    fn clone(&self) -> Self {
        Tx(self.0.clone())
    }
}

impl Tx {
    pub fn new(tx: Sender<Message>) -> (made: Self)
        ensures
            made.0 == tx,
    {
        Tx(tx)
    }

    /// Send a message. Says whether it was taken: sending only fails if the
    /// receiver has been dropped, and then the sending task has nothing
    /// left to do.
    pub fn send(&self, message: Message) -> (taken: bool) {
        channel_send(&self.0, message)
    }
}

} // verus!
