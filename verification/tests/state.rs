use heisenberg::clock::Instant;
use heisenberg::config::Config;
use heisenberg::fetch::{decoded, is_success, usable_body, Reply, Unavailable};
use heisenberg::poller::{
    poller_start, poller_step, PollerAction, PollerEvent, PollerKind, PollerState,
};
use heisenberg::selection::index_of;
use heisenberg::state::{
    input_message, listener_step, Heard, InputEvent, Message, Mode, State, Tx,
};
use heisenberg::transit::{
    Countdown, CountdownList, LinePrediction, StopPrediction, TransitLine, TransitPredictions,
    TransitStop,
};
use heisenberg::weather::{ForecastPeriod, ForecastProperties, Unit, Weather};
use std::sync::mpsc;

fn transit() -> TransitPredictions {
    TransitPredictions {
        lines: vec![LinePrediction {
            name: "Red".to_string(),
            stops: vec![StopPrediction {
                name: "A".to_string(),
                predictions: CountdownList(vec![Countdown(2), Countdown(5)]),
            }],
        }],
    }
}

fn weather() -> Weather {
    Weather {
        properties: ForecastProperties {
            periods: vec![ForecastPeriod {
                start_time: Instant { millis: 1_716_570_000_000 },
                end_time: Instant { millis: 1_716_573_600_000 },
                temperature: 84,
                probability_of_precipitation: Unit { value: Some(1) },
            }],
        },
    }
}

#[test]
fn default_state_is_empty_weather() {
    let state = State::default();
    assert_eq!(state.mode, Mode::Weather);
    assert!(state.transit.lines.is_empty());
    assert!(state.weather.properties.periods.is_empty());
    assert_eq!(state.weather.now(), None);
}

#[test]
fn dispatch_scenario() {
    let mut state = State::default();
    let messages = vec![
        Message::TransitUpdated(transit()),
        Message::WeatherUpdated(weather()),
        Message::AdvanceMode,
        Message::Quit,
    ];
    let (taken, running) = state.dispatch(messages);
    assert_eq!(taken, 4);
    assert!(!running);
    assert_eq!(state, State { mode: Mode::Transit, transit: transit(), weather: weather() });
}

#[test]
fn dispatch_stops_at_quit() {
    let mut state = State::default();
    let messages = vec![
        Message::AdvanceMode,
        Message::Quit,
        Message::TransitUpdated(transit()),
        Message::AdvanceMode,
        Message::Quit,
    ];
    let (taken, running) = state.dispatch(messages);
    assert_eq!(taken, 2);
    assert!(!running);
    assert_eq!(
        state,
        State { mode: Mode::Transit, transit: TransitPredictions::default(), weather: Weather::default() }
    );
}

#[test]
fn dispatch_without_quit_goes_on() {
    let mut state = State::default();
    assert_eq!(state.dispatch(vec![]), (0, true));
    assert_eq!(state, State::default());
    let (taken, running) =
        state.dispatch(vec![Message::AdvanceMode, Message::AdvanceMode, Message::AdvanceMode]);
    assert_eq!((taken, running), (3, true));
    assert_eq!(state.mode, Mode::Transit);
}

#[test]
fn apply_each_message() {
    let mut state = State::default();
    assert!(state.apply(Message::SwitchMode(Mode::Transit)));
    assert_eq!(state.mode, Mode::Transit);
    assert!(state.apply(Message::SwitchMode(Mode::Transit)));
    assert_eq!(state.mode, Mode::Transit);
    assert!(state.apply(Message::AdvanceMode));
    assert_eq!(state.mode, Mode::Weather);
    assert!(state.apply(Message::WeatherUpdated(weather())));
    assert_eq!(state, State { mode: Mode::Weather, transit: TransitPredictions::default(), weather: weather() });
    assert!(state.apply(Message::TransitUpdated(transit())));
    assert_eq!(state, State { mode: Mode::Weather, transit: transit(), weather: weather() });
    assert!(!state.apply(Message::Quit));
    assert_eq!(state, State { mode: Mode::Weather, transit: transit(), weather: weather() });
}

#[test]
fn transit_update_replaces() {
    let mut state = State::default();
    state.apply(Message::TransitUpdated(transit()));
    let once = state.clone();
    state.apply(Message::TransitUpdated(transit()));
    assert_eq!(state, once);
    assert_eq!(state.transit, transit());
    state.apply(Message::TransitUpdated(TransitPredictions::default()));
    assert_eq!(state.transit, TransitPredictions::default());
}

#[test]
fn modes_cycle() {
    assert_eq!(Mode::Weather.next(), Mode::Transit);
    assert_eq!(Mode::Transit.next(), Mode::Weather);
    assert_eq!(Mode::all(), [Mode::Weather, Mode::Transit]);
    assert_eq!(Mode::Weather.label(), "Weather");
    assert_eq!(Mode::Transit.label(), "Transit");
}

#[test]
fn index_of_finds_the_first() {
    assert_eq!(index_of(&Mode::all(), Mode::Weather), Some(0));
    assert_eq!(index_of(&Mode::all(), Mode::Transit), Some(1));
    assert_eq!(index_of(&[Mode::Weather], Mode::Transit), None);
    assert_eq!(index_of(&[3, 1, 4, 1, 5], 1), Some(1));
    assert_eq!(index_of(&[3, 1, 4, 1, 5], 9), None);
    assert_eq!(index_of::<u8>(&[], 0), None);
}

#[test]
fn input_becomes_messages() {
    assert_eq!(input_message(InputEvent::Escape), Some(Message::Quit));
    assert_eq!(input_message(InputEvent::Tap), Some(Message::AdvanceMode));
    assert_eq!(input_message(InputEvent::Other), None);
    assert_eq!(
        listener_step(Some(InputEvent::Tap)),
        Heard { message: Some(Message::AdvanceMode), listening: true }
    );
    assert_eq!(listener_step(Some(InputEvent::Other)), Heard { message: None, listening: true });
    assert_eq!(
        listener_step(Some(InputEvent::Escape)),
        Heard { message: Some(Message::Quit), listening: true }
    );
    assert_eq!(listener_step(None), Heard { message: Some(Message::Quit), listening: false });
}

#[test]
fn messages_arrive_in_the_order_sent() {
    let (sender, receiver) = mpsc::channel();
    let tx = Tx::new(sender);
    let other = tx.clone();
    assert!(tx.send(Message::AdvanceMode));
    assert!(other.send(Message::TransitUpdated(transit())));
    assert!(tx.send(Message::Quit));
    assert_eq!(receiver.recv().unwrap(), Message::AdvanceMode);
    assert_eq!(receiver.recv().unwrap(), Message::TransitUpdated(transit()));
    assert_eq!(receiver.recv().unwrap(), Message::Quit);
    drop(receiver);
    assert!(!tx.send(Message::AdvanceMode));
}

#[test]
fn poller_cycle() {
    assert_eq!(poller_start(), (PollerState::Fetching, PollerAction::Fetch));
    assert_eq!(PollerKind::Transit.interval(), 30);
    assert_eq!(PollerKind::Weather.interval(), 60);
    assert_eq!(
        poller_step(PollerKind::Transit, PollerState::Fetching, PollerEvent::Fetched),
        (PollerState::Sleeping, PollerAction::EmitThenSleep(30))
    );
    assert_eq!(
        poller_step(PollerKind::Transit, PollerState::Fetching, PollerEvent::Unavailable),
        (PollerState::Sleeping, PollerAction::Sleep(30))
    );
    assert_eq!(
        poller_step(PollerKind::Weather, PollerState::Fetching, PollerEvent::Fetched),
        (PollerState::Sleeping, PollerAction::EmitThenSleep(60))
    );
    assert_eq!(
        poller_step(PollerKind::Weather, PollerState::Fetching, PollerEvent::Unavailable),
        (PollerState::Sleeping, PollerAction::Sleep(60))
    );
    assert_eq!(
        poller_step(PollerKind::Weather, PollerState::Sleeping, PollerEvent::Woke),
        (PollerState::Fetching, PollerAction::Fetch)
    );
}

#[test]
fn poller_ignores_what_does_not_belong() {
    assert_eq!(
        poller_step(PollerKind::Transit, PollerState::Fetching, PollerEvent::Woke),
        (PollerState::Fetching, PollerAction::Ignore)
    );
    assert_eq!(
        poller_step(PollerKind::Transit, PollerState::Sleeping, PollerEvent::Fetched),
        (PollerState::Sleeping, PollerAction::Ignore)
    );
    assert_eq!(
        poller_step(PollerKind::Weather, PollerState::Sleeping, PollerEvent::Unavailable),
        (PollerState::Sleeping, PollerAction::Ignore)
    );
}

#[test]
fn replies_collapse_to_unavailable() {
    let body = "{}".to_string();
    assert_eq!(usable_body(Reply::Failed), Err(Unavailable));
    assert_eq!(usable_body(Reply::Response { status: 200, body: body.clone() }), Ok(body.clone()));
    assert_eq!(usable_body(Reply::Response { status: 299, body: body.clone() }), Ok(body.clone()));
    assert_eq!(usable_body(Reply::Response { status: 199, body: body.clone() }), Err(Unavailable));
    assert_eq!(usable_body(Reply::Response { status: 300, body: body.clone() }), Err(Unavailable));
    assert_eq!(usable_body(Reply::Response { status: 404, body: body.clone() }), Err(Unavailable));
    assert_eq!(usable_body(Reply::Response { status: 500, body }), Err(Unavailable));
    assert!(is_success(200) && is_success(204) && is_success(299));
    assert!(!is_success(0) && !is_success(199) && !is_success(300) && !is_success(u16::MAX));
    assert_eq!(decoded(Some(5)), Ok(5));
    assert_eq!(decoded::<u8>(None), Err(Unavailable));
}

#[test]
fn config_addresses() {
    let config = Config {
        forecast_office: "BOX".to_string(),
        forecast_gridpoint: (71, 90),
        transit_lines: vec![TransitLine {
            name: "Red".to_string(),
            stops: vec![
                TransitStop { name: "Inbound".to_string(), id: 70_061 },
                TransitStop { name: "Outbound".to_string(), id: 70_062 },
            ],
        }],
    };
    assert_eq!(config.forecast_url(), "https://api.weather.gov/gridpoints/BOX/71,90/forecast/hourly");
    assert_eq!(
        config.transit_url(),
        "https://api-v3.mbta.com/predictions?filter[stop]=70061,70062"
    );
    let copy = config.clone();
    assert_eq!(copy.forecast_office, "BOX");
    assert_eq!(copy.forecast_gridpoint, (71, 90));
    assert_eq!(copy.transit_lines, config.transit_lines);
}
