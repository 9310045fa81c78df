use gruber::services::transit::{
    ApiPredictions, Countdown, CountdownList, Prediction, Transit, TransitLine, TransitStop,
    MAX_PREDICTIONS,
};
use gruber::services::FetchedData;

const MINUTE: i64 = 60_000;
const NOW: i64 = 1_716_570_000_000;

fn stop(name: &str, id: u32) -> TransitStop {
    TransitStop {
        name: name.to_string(),
        id,
    }
}

fn line(name: &str, stops: Vec<TransitStop>) -> TransitLine {
    TransitLine {
        name: name.to_string(),
        stops,
    }
}

fn record(departure: Option<i64>, route: &str, stop: &str) -> Prediction {
    Prediction {
        departure_time: departure,
        route_id: route.to_string(),
        stop_id: stop.to_string(),
    }
}

fn lines() -> Vec<TransitLine> {
    vec![
        line(
            "Red",
            vec![stop("Inbound", 70061), stop("Outbound", 70062)],
        ),
        line("87", vec![stop("To Arlington", 2581)]),
    ]
}

fn with_records(records: Vec<Prediction>) -> Transit {
    let mut t = Transit::new(lines());
    t.fetcher_mut()
        .set_data(FetchedData::at(ApiPredictions { data: records }, NOW));
    t
}

#[test]
fn countdowns_sorted_and_truncated() {
    let mut list = CountdownList::new(2);
    list.push(NOW + MINUTE, NOW);
    list.push(NOW + 7 * MINUTE, NOW);
    list.push(NOW + 3 * MINUTE, NOW);
    assert_eq!(list.minutes(), vec![1, 3]);
    assert_eq!(list.to_text(), "1m, 3m");
}

#[test]
fn countdowns_keep_earliest_three() {
    let mut list = CountdownList::new(MAX_PREDICTIONS);
    for m in [9, 4, 12, 2, 4, 30] {
        list.push(NOW + m * MINUTE, NOW);
    }
    assert_eq!(list.minutes(), vec![2, 4, 4]);
    assert_eq!(list.len(), 3);
    assert_eq!(list.get(0), Countdown(2));
}

#[test]
fn countdown_rounds_down() {
    assert_eq!(Countdown::until(NOW + 90_000, NOW).minutes(), 1);
    assert_eq!(Countdown::until(NOW + 59_999, NOW).minutes(), 0);
    assert_eq!(Countdown::until(NOW + 60_000, NOW).minutes(), 1);
    assert_eq!(Countdown::until(NOW - 1, NOW).minutes(), -1);
    assert_eq!(Countdown::until(NOW - 60_000, NOW).minutes(), -1);
    assert_eq!(Countdown::until(NOW - 60_001, NOW).minutes(), -2);
    assert_eq!(Countdown::until(i64::MAX, i64::MIN).minutes(), 307_445_734_561_825);
    assert_eq!(Countdown(7).to_text(), "7");
}

#[test]
fn empty_list_text() {
    let list = CountdownList::new(3);
    assert_eq!(list.to_text(), "");
    assert_eq!(list.limit(), 3);
    assert!(list.minutes().is_empty());
}

#[test]
fn predictions_endpoint_lists_all_stops() {
    let t = Transit::new(lines());
    assert_eq!(
        t.fetcher().url(),
        "https://api-v3.mbta.com/predictions?filter[stop]=70061,70062,2581"
    );
    assert_eq!(t.fetcher().ttl(), 30_000);
    assert_eq!(t.lines().len(), 2);
}

#[test]
fn predictions_without_data_list_every_stop() {
    let p = Transit::new(lines()).predictions_at(NOW);
    assert_eq!(p.lines.len(), 2);
    assert_eq!(p.lines[0].name, "Red");
    assert_eq!(p.lines[0].stops.len(), 2);
    assert_eq!(p.lines[0].stops[1].name, "Outbound");
    assert_eq!(p.lines[0].stops[1].id, 70062);
    assert_eq!(p.lines[1].stops[0].name, "To Arlington");
    assert!(p.lines[1].stops[0].predictions.minutes().is_empty());
}

#[test]
fn predictions_group_by_line_and_stop() {
    let t = with_records(vec![
        record(Some(NOW + 7 * MINUTE), "Red", "70061"),
        record(Some(NOW + MINUTE), "Red", "70061"),
        record(Some(NOW + 3 * MINUTE), "Red", "70061"),
        record(Some(NOW + 5 * MINUTE), "Red", "70061"),
        record(Some(NOW + 2 * MINUTE), "Red", "70062"),
        record(Some(NOW + 11 * MINUTE), "87", "2581"),
    ]);
    let p = t.predictions_at(NOW);
    assert_eq!(p.lines[0].stops[0].predictions.minutes(), vec![1, 3, 5]);
    assert_eq!(p.lines[0].stops[0].predictions.to_text(), "1m, 3m, 5m");
    assert_eq!(p.lines[0].stops[1].predictions.minutes(), vec![2]);
    assert_eq!(p.lines[1].stops[0].predictions.minutes(), vec![11]);
}

#[test]
fn unknown_identifiers_and_skipped_stops_are_dropped() {
    let t = with_records(vec![
        record(Some(NOW + 4 * MINUTE), "Green-B", "70061"),
        record(Some(NOW + 6 * MINUTE), "Red", "99999"),
        record(None, "Red", "70061"),
        record(Some(NOW + 2 * MINUTE), "87", "70061"),
        record(Some(NOW + 8 * MINUTE), "Red", "70061"),
    ]);
    let p = t.predictions_at(NOW);
    assert_eq!(p.lines[0].stops[0].predictions.minutes(), vec![8]);
    assert!(p.lines[0].stops[1].predictions.minutes().is_empty());
    assert!(p.lines[1].stops[0].predictions.minutes().is_empty());
}

#[test]
fn repeated_line_name_keeps_first_place_and_last_stops() {
    let mut t = Transit::new(vec![
        line("Red", vec![stop("Old", 1)]),
        line("87", vec![stop("To Arlington", 2581)]),
        line("Red", vec![stop("New", 2)]),
    ]);
    assert_eq!(
        t.fetcher().url(),
        "https://api-v3.mbta.com/predictions?filter[stop]=1,2581,2"
    );
    t.fetcher_mut().set_data(FetchedData::at(
        ApiPredictions {
            data: vec![
                record(Some(NOW + MINUTE), "Red", "1"),
                record(Some(NOW + 2 * MINUTE), "Red", "2"),
            ],
        },
        NOW,
    ));
    let p = t.predictions_at(NOW);
    assert_eq!(p.lines.len(), 2);
    assert_eq!(p.lines[0].name, "Red");
    assert_eq!(p.lines[0].stops.len(), 1);
    assert_eq!(p.lines[0].stops[0].name, "New");
    assert_eq!(p.lines[0].stops[0].predictions.minutes(), vec![2]);
    assert_eq!(p.lines[1].name, "87");
}

#[test]
fn repeated_stop_id_feeds_first_stop() {
    let mut t = Transit::new(vec![line(
        "Red",
        vec![stop("A", 5), stop("B", 5)],
    )]);
    t.fetcher_mut().set_data(FetchedData::at(
        ApiPredictions {
            data: vec![record(Some(NOW + MINUTE), "Red", "5")],
        },
        NOW,
    ));
    let p = t.predictions_at(NOW);
    assert_eq!(p.lines[0].stops[0].predictions.minutes(), vec![1]);
    assert!(p.lines[0].stops[1].predictions.minutes().is_empty());
}

#[test]
fn stop_identifiers_compare_as_text() {
    let t = with_records(vec![record(Some(NOW + MINUTE), "Red", "070061")]);
    let p = t.predictions_at(NOW);
    assert!(p.lines[0].stops[0].predictions.minutes().is_empty());
}
