use gruber::config::Config;
use gruber::services::transit::{ApiPredictions, Prediction, TransitLine, TransitStop};
use gruber::services::weather::{Forecast, ForecastProperties};
use gruber::services::{ApiFetcher, FetchError, FetchErrorKind, FetchedData};
use gruber::state::{Message, SourceKind, State, Tab};
use gruber::util::SerdeError;

const TTL: u64 = 60_000;

fn failure() -> FetchError {
    FetchError {
        kind: FetchErrorKind::Transport,
        source: "https://example.invalid".to_string(),
        cause: "connection refused".to_string(),
    }
}

fn fetcher_with(value: u32, fetched_at: i64) -> ApiFetcher<u32> {
    let mut f = ApiFetcher::new("https://example.invalid".to_string(), TTL);
    f.set_data(FetchedData::at(value, fetched_at));
    f
}

#[test]
fn fetched_data_age_and_expiry() {
    let d = FetchedData::at("payload", 1_000);
    assert_eq!(*d.data(), "payload");
    assert_eq!(d.fetched_at(), 1_000);
    assert_eq!(d.age(61_000), 60_000);
    assert_eq!(d.age(0), -1_000);
    assert!(d.is_expired_at(TTL, 61_000));
    assert!(!d.is_expired_at(TTL, 60_999));
    assert!(FetchedData::at(1, i64::MIN).is_expired_at(u64::MAX, i64::MAX));
    let fresh = FetchedData::new(5u8);
    assert_eq!(*fresh.data(), 5);
    assert!(!fresh.is_expired(3_600_000));
}

#[test]
fn missing_data_is_stale() {
    let mut f: ApiFetcher<u32> = ApiFetcher::new("https://example.invalid".to_string(), TTL);
    assert!(f.snapshot().is_none());
    assert!(f.is_stale_at(0));
    assert_eq!(f.data_at(0), (None, true));
    assert!(f.is_in_flight());
    assert_eq!(f.url(), "https://example.invalid");
}

#[test]
fn at_most_one_fetch_in_flight() {
    let mut f: ApiFetcher<u32> = ApiFetcher::new("https://example.invalid".to_string(), TTL);
    assert!(f.fetch_if_needed_at(10));
    for now in [10, 11, 500_000, 10_000_000] {
        assert!(!f.fetch_if_needed_at(now));
        assert!(f.is_in_flight());
    }
    f.finish_fetch_at(Err(failure()), 20);
    assert!(!f.is_in_flight());
    assert!(f.fetch_if_needed_at(21));
}

#[test]
fn stale_data_served_while_refreshing() {
    let mut f = fetcher_with(7, 0);
    assert_eq!(f.data_at(TTL as i64), (Some(7), true));
    assert_eq!(f.data_at(TTL as i64 + 5), (Some(7), false));
    assert_eq!(f.snapshot().unwrap().fetched_at(), 0);
    f.finish_fetch_at(Ok(8), 70_000);
    assert_eq!(f.data_at(70_001), (Some(8), false));
    assert_eq!(f.snapshot().unwrap().fetched_at(), 70_000);
}

#[test]
fn failure_keeps_previous_snapshot() {
    let mut f = fetcher_with(7, 1_234);
    assert!(f.fetch_if_needed_at(100_000));
    f.finish_fetch_at(Err(failure()), 100_500);
    let d = f.snapshot().unwrap();
    assert_eq!(*d.data(), 7);
    assert_eq!(d.fetched_at(), 1_234);
    assert!(!f.is_in_flight());
}

#[test]
fn expiry_triggers_refresh() {
    let now: i64 = 1_000_000;
    let t = TTL as i64;
    let mut expired = fetcher_with(1, now - t - 1);
    assert!(expired.is_stale_at(now));
    assert!(expired.fetch_if_needed_at(now));

    let mut fresh = fetcher_with(1, now - t + 1);
    assert!(!fresh.is_stale_at(now));
    assert!(!fresh.fetch_if_needed_at(now));
    assert!(!fresh.is_in_flight());

    let mut exact = fetcher_with(1, now - t);
    assert!(exact.fetch_if_needed_at(now));
}

fn config() -> Config {
    Config {
        forecast_office: "BOX".to_string(),
        forecast_gridpoint: (71, 90),
        transit_lines: vec![TransitLine {
            name: "Red".to_string(),
            stops: vec![TransitStop {
                name: "Inbound".to_string(),
                id: 70061,
            }],
        }],
    }
}

fn empty_forecast() -> Forecast {
    Forecast {
        properties: ForecastProperties { periods: vec![] },
    }
}

#[test]
fn check_starts_each_stale_source_once() {
    let mut state = State::new(config());
    assert_eq!(state.active_tab, Tab::Weather);
    assert_eq!(
        state.update_at(Message::CheckData, 0),
        vec![SourceKind::Weather, SourceKind::Transit]
    );
    assert!(state.update_at(Message::CheckData, 1_000).is_empty());

    assert!(state
        .update_at(Message::WeatherFetched(Ok(empty_forecast())), 2_000)
        .is_empty());
    assert!(state
        .update_at(Message::TransitFetched(Err(failure())), 2_000)
        .is_empty());
    assert!(state.weather.forecast().is_some());
    assert!(state.transit.fetcher().snapshot().is_none());

    assert_eq!(
        state.update_at(Message::CheckData, 3_000),
        vec![SourceKind::Transit]
    );
    assert!(state.update_at(Message::CheckData, 61_999).is_empty());
    assert!(state
        .update_at(
            Message::TransitFetched(Ok(ApiPredictions {
                data: vec![Prediction {
                    departure_time: Some(62_000 + 120_000),
                    route_id: "Red".to_string(),
                    stop_id: "70061".to_string(),
                }],
            })),
            62_000
        )
        .is_empty());
    assert_eq!(
        state.update_at(Message::CheckData, 62_000),
        vec![SourceKind::Weather]
    );
    let p = state.transit.predictions_at(62_000);
    assert_eq!(p.lines[0].stops[0].predictions.minutes(), vec![2]);
}

#[test]
fn tab_selection() {
    let mut state = State::new(config());
    assert!(state
        .update_at(Message::TabSelected(Tab::Transit), 0)
        .is_empty());
    assert_eq!(state.active_tab, Tab::Transit);
    assert!(!state.weather.fetcher().is_in_flight());
    assert_eq!(Tab::iter(), vec![Tab::Weather, Tab::Transit]);
    assert_eq!(Tab::Weather.label(), "Weather");
    assert_eq!(Tab::Transit.label(), "Transit");
}

#[test]
fn state_urls_come_from_config() {
    let state = State::new(config());
    assert_eq!(
        state.weather.fetcher().url(),
        "https://api.weather.gov/gridpoints/BOX/71,90/forecast/hourly"
    );
    assert_eq!(
        state.transit.fetcher().url(),
        "https://api-v3.mbta.com/predictions?filter[stop]=70061"
    );
}

#[test]
fn update_with_clock_starts_fetches() {
    let mut state = State::new(config());
    assert_eq!(state.update(Message::CheckData).len(), 2);
    assert!(state.update(Message::CheckData).is_empty());
}

#[test]
fn serde_error_keeps_cause() {
    let e: SerdeError = anyhow::Error::msg("boom").into();
    assert_eq!(e.0.to_string(), "boom");
    let e2 = SerdeError::from(anyhow::Error::msg("bang").context("fetching"));
    assert_eq!(format!("{:#}", e2.0), "fetching: bang");
}
