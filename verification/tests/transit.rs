use chrono::Utc;
use heisenberg::clock::Instant;
use heisenberg::departures::DepartureIndex;
use heisenberg::transit::{
    screen, transit_url, Countdown, CountdownList, LinePrediction, RawPrediction, Rejection,
    StopPrediction, TransitLine, TransitPredictions, TransitStop, MAX_PREDICTIONS,
};

const NOW: Instant = Instant { millis: 1_716_570_000_000 };

fn minutes_from(now: Instant, minutes: i64) -> Instant {
    Instant { millis: now.millis + minutes * 60_000 }
}

fn stop(name: &str, id: u32) -> TransitStop {
    TransitStop { name: name.to_string(), id }
}

fn line(name: &str, stops: Vec<TransitStop>) -> TransitLine {
    TransitLine { name: name.to_string(), stops }
}

fn record(route: &str, stop: &str, departure: Option<Instant>) -> RawPrediction {
    RawPrediction { route: route.to_string(), stop: stop.to_string(), departure }
}

fn red() -> Vec<TransitLine> {
    vec![line("Red", vec![stop("A", 10), stop("B", 20)])]
}

fn shape(predictions: &TransitPredictions) -> Vec<(String, Vec<String>)> {
    predictions
        .lines
        .iter()
        .map(|line| (line.name.clone(), line.stops.iter().map(|stop| stop.name.clone()).collect()))
        .collect()
}

#[test]
fn red_line_scenario() {
    let records = vec![
        record("Red", "10", Some(minutes_from(NOW, 5))),
        record("Red", "10", Some(minutes_from(NOW, 2))),
        record("Unknown", "99", Some(minutes_from(NOW, 1))),
    ];
    let predictions = TransitPredictions::from_response_at(&red(), &records, NOW);
    assert_eq!(
        predictions,
        TransitPredictions {
            lines: vec![LinePrediction {
                name: "Red".to_string(),
                stops: vec![
                    StopPrediction {
                        name: "A".to_string(),
                        predictions: CountdownList(vec![Countdown(2), Countdown(5)]),
                    },
                    StopPrediction { name: "B".to_string(), predictions: CountdownList(vec![]) },
                ],
            }],
        }
    );
    assert_eq!(predictions.lines[0].stops[0].predictions.label(), "2,5m");
    assert_eq!(predictions.lines[0].stops[1].predictions.label(), "None");
}

#[test]
fn red_line_scenario_by_the_system_clock() {
    let now = Instant { millis: Utc::now().timestamp_millis() };
    let records = vec![
        record("Red", "10", Some(Instant { millis: now.millis + 5 * 60_000 + 30_000 })),
        record("Red", "10", Some(Instant { millis: now.millis + 2 * 60_000 + 30_000 })),
        record("Unknown", "99", Some(Instant { millis: now.millis + 60_000 + 30_000 })),
    ];
    let predictions = TransitPredictions::from_response(&red(), &records);
    assert_eq!(shape(&predictions), vec![("Red".to_string(), vec!["A".to_string(), "B".to_string()])]);
    assert_eq!(predictions.lines[0].stops[0].predictions.minutes(), vec![2, 5]);
    assert_eq!(predictions.lines[0].stops[1].predictions.minutes(), Vec::<i64>::new());
}

#[test]
fn shape_mirrors_the_configuration() {
    let lines = vec![
        line("Red", vec![stop("Inbound", 70_061), stop("Outbound", 70_062)]),
        line("Empty", vec![]),
        line("Orange", vec![stop("Only", 5)]),
        line("Red", vec![stop("Again", 70_061)]),
    ];
    let expected = vec![
        ("Red".to_string(), vec!["Inbound".to_string(), "Outbound".to_string()]),
        ("Empty".to_string(), vec![]),
        ("Orange".to_string(), vec!["Only".to_string()]),
        ("Red".to_string(), vec!["Again".to_string()]),
    ];
    let none = TransitPredictions::from_response_at(&lines, &vec![], NOW);
    assert_eq!(shape(&none), expected);
    assert!(none.lines.iter().all(|line| line.stops.iter().all(|stop| stop.predictions.0.is_empty())));

    let records = vec![
        record("Orange", "5", Some(minutes_from(NOW, 9))),
        record("Green", "5", Some(minutes_from(NOW, 1))),
        record("Red", "70061", Some(minutes_from(NOW, 3))),
        record("Red", "5", Some(minutes_from(NOW, 4))),
    ];
    let some = TransitPredictions::from_response_at(&lines, &records, NOW);
    assert_eq!(shape(&some), expected);
    assert_eq!(some.lines[0].stops[0].predictions.minutes(), vec![3]);
    assert_eq!(some.lines[0].stops[1].predictions.minutes(), Vec::<i64>::new());
    assert_eq!(some.lines[2].stops[0].predictions.minutes(), vec![9]);
    // A stop shared between two lines is looked up for each of them
    assert_eq!(some.lines[3].stops[0].predictions.minutes(), vec![3]);
}

#[test]
fn no_lines_give_no_predictions() {
    let records = vec![record("Red", "10", Some(NOW))];
    let predictions = TransitPredictions::from_response_at(&vec![], &records, NOW);
    assert!(predictions.lines.is_empty());
    assert_eq!(predictions, TransitPredictions::default());
}

#[test]
fn record_without_departure_is_never_shown() {
    let with = vec![
        record("Red", "10", None),
        record("Red", "10", Some(minutes_from(NOW, 7))),
        record("Red", "20", None),
    ];
    let without = vec![record("Red", "10", Some(minutes_from(NOW, 7)))];
    let predictions = TransitPredictions::from_response_at(&red(), &with, NOW);
    assert_eq!(predictions, TransitPredictions::from_response_at(&red(), &without, NOW));
    assert_eq!(predictions.lines[0].stops[0].predictions.minutes(), vec![7]);
    assert_eq!(predictions.lines[0].stops[1].predictions.minutes(), Vec::<i64>::new());
}

#[test]
fn unknown_records_are_dropped() {
    let known = vec![record("Red", "20", Some(minutes_from(NOW, 4)))];
    let mixed = vec![
        record("Blue", "20", Some(minutes_from(NOW, 1))),
        record("Red", "20", Some(minutes_from(NOW, 4))),
        record("Red", "30", Some(minutes_from(NOW, 2))),
        record("Red", "020", Some(minutes_from(NOW, 3))),
        record("red", "20", Some(minutes_from(NOW, 3))),
        record("Red", "", Some(minutes_from(NOW, 3))),
    ];
    assert_eq!(
        TransitPredictions::from_response_at(&red(), &mixed, NOW),
        TransitPredictions::from_response_at(&red(), &known, NOW)
    );
}

#[test]
fn screening_gives_each_reason() {
    let lines = red();
    let at = minutes_from(NOW, 1);
    assert_eq!(screen(&lines, &record("Red", "10", Some(at))), Ok(at));
    assert_eq!(screen(&lines, &record("Red", "20", Some(at))), Ok(at));
    assert_eq!(screen(&lines, &record("Red", "10", None)), Err(Rejection::Skipped));
    assert_eq!(screen(&lines, &record("Unknown", "99", None)), Err(Rejection::Skipped));
    assert_eq!(screen(&lines, &record("Unknown", "10", Some(at))), Err(Rejection::UnknownRoute));
    assert_eq!(screen(&lines, &record("Red", "99", Some(at))), Err(Rejection::UnknownStop));
    assert_eq!(screen(&vec![], &record("Red", "10", Some(at))), Err(Rejection::UnknownRoute));
    // The stop is found on a later line of the same name
    let twice = vec![line("Red", vec![stop("A", 10)]), line("Red", vec![stop("B", 20)])];
    assert_eq!(screen(&twice, &record("Red", "20", Some(at))), Ok(at));
}

#[test]
fn countdowns_are_sorted_and_truncated() {
    assert_eq!(MAX_PREDICTIONS, 2);
    let list = CountdownList::from_instants(
        vec![minutes_from(NOW, 9), minutes_from(NOW, 3), minutes_from(NOW, 6), minutes_from(NOW, 1)],
        NOW,
    );
    assert_eq!(list.minutes(), vec![1, 3]);
    assert_eq!(list, CountdownList(vec![Countdown(1), Countdown(3)]));
    assert_eq!(CountdownList::from_instants(vec![minutes_from(NOW, 9)], NOW).minutes(), vec![9]);
    assert_eq!(CountdownList::from_instants(vec![], NOW).minutes(), Vec::<i64>::new());
}

#[test]
fn countdown_length_is_the_smaller_of_limit_and_count() {
    for count in 0..6usize {
        let instants = (0..count).map(|i| minutes_from(NOW, 10 - i as i64)).collect();
        let list = CountdownList::from_instants(instants, NOW);
        assert_eq!(list.0.len(), count.min(MAX_PREDICTIONS));
        assert!(list.0.windows(2).all(|pair| pair[0].0 <= pair[1].0));
    }
}

#[test]
fn countdowns_keep_duplicates_and_past_departures() {
    let twice = CountdownList::from_instants(vec![minutes_from(NOW, 4), minutes_from(NOW, 4)], NOW);
    assert_eq!(twice.minutes(), vec![4, 4]);
    let past = CountdownList::from_instants(
        vec![minutes_from(NOW, 2), Instant { millis: NOW.millis - 90_000 }, minutes_from(NOW, -3)],
        NOW,
    );
    assert_eq!(past.minutes(), vec![-3, -1]);
    assert_eq!(past.label(), "-3,-1m");
}

#[test]
fn countdowns_by_the_system_clock() {
    let now = Utc::now().timestamp_millis();
    let list = CountdownList::from(vec![
        Instant { millis: now + 10 * 60_000 + 30_000 },
        Instant { millis: now + 60_000 + 30_000 },
        Instant { millis: now + 4 * 60_000 + 30_000 },
    ]);
    assert_eq!(list.minutes(), vec![1, 4]);
}

#[test]
fn countdown_labels() {
    assert_eq!(CountdownList(vec![]).label(), "None");
    assert_eq!(CountdownList(vec![Countdown(0)]).label(), "0m");
    assert_eq!(CountdownList(vec![Countdown(2), Countdown(5)]).label(), "2,5m");
    assert_eq!(Countdown(-12).label(), "-12");
    assert_eq!(Countdown(7).label(), "7");
}

#[test]
fn transit_address_lists_every_stop() {
    let lines = vec![
        line("Red", vec![stop("Inbound", 70_061), stop("Outbound", 70_062)]),
        line("Orange", vec![stop("Only", 5)]),
    ];
    assert_eq!(
        transit_url(&lines),
        "https://api-v3.mbta.com/predictions?filter[stop]=70061,70062,5"
    );
    assert_eq!(transit_url(&vec![]), "https://api-v3.mbta.com/predictions?filter[stop]=");
}

#[test]
fn departure_index_keeps_what_it_is_given() {
    let red = "Red".to_string();
    let ten = "10".to_string();
    let twenty = "20".to_string();
    let mut index = DepartureIndex::new();
    assert_eq!(index.departures(&red, &ten), vec![]);
    assert!(!index.record(&red, &ten, NOW));
    assert_eq!(index.departures(&red, &ten), vec![]);
    index.track(red.clone(), ten.clone());
    assert!(index.record(&red, &ten, minutes_from(NOW, 5)));
    assert!(index.record(&red, &ten, minutes_from(NOW, 2)));
    assert!(!index.record(&red, &twenty, minutes_from(NOW, 1)));
    assert!(!index.record(&ten, &red, minutes_from(NOW, 1)));
    assert_eq!(index.departures(&red, &ten), vec![minutes_from(NOW, 5), minutes_from(NOW, 2)]);
    assert_eq!(index.departures(&red, &twenty), vec![]);
    index.track(red.clone(), ten.clone());
    assert_eq!(index.departures(&red, &ten), vec![]);
}
