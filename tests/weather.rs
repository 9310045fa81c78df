use chrono::{DateTime, Utc};
use gruber::services::weather::{
    time_of_day, Forecast, ForecastPeriod, ForecastProperties, Unit, Weather,
};

fn millis(time: &str) -> i64 {
    time.parse::<DateTime<Utc>>().unwrap().timestamp_millis()
}

fn period(
    time: &str,
    hours: i64,
    temperature: i32,
    probability_of_precipitation: i32,
) -> ForecastPeriod {
    let start_time = millis(time);
    let end_time = start_time + hours * 3_600_000;
    ForecastPeriod {
        start_time,
        end_time,
        temperature,
        probability_of_precipitation: Unit {
            value: Some(probability_of_precipitation),
        },
    }
}

fn forecast(periods: Vec<ForecastPeriod>) -> Forecast {
    Forecast {
        properties: ForecastProperties { periods },
    }
}

/// Hourly periods from 2024-05-24T17:00Z on.
fn hourly(count: usize) -> Vec<ForecastPeriod> {
    let start = millis("2024-05-24T17:00:00Z");
    (0..count)
        .map(|i| ForecastPeriod {
            start_time: start + i as i64 * 3_600_000,
            end_time: start + (i as i64 + 1) * 3_600_000,
            temperature: if i == 0 { 84 } else { 70 + i as i32 % 10 },
            probability_of_precipitation: Unit {
                value: Some(if i == 0 { 1 } else { 0 }),
            },
        })
        .collect()
}

fn listed_indices(f: &Forecast, listed: &[ForecastPeriod]) -> Vec<usize> {
    listed
        .iter()
        .map(|p| {
            f.properties
                .periods
                .iter()
                .position(|q| q == p)
                .unwrap()
        })
        .collect()
}

#[test]
fn test_now() {
    let forecast = Forecast {
        properties: ForecastProperties {
            periods: vec![
                period("2024-05-24T17:00:00Z", 1, 84, 1),
                period("2024-05-24T18:00:00Z", 1, 85, 0),
                period("2024-05-24T19:00:00Z", 1, 86, 0),
            ],
        },
    };

    assert_eq!(forecast.now(), &period("2024-05-24T17:00:00Z", 1, 84, 1));
}

#[test]
fn now_is_first_hourly_period() {
    let f = forecast(hourly(48));
    let now = f.now();
    assert_eq!(now.start_time(), millis("2024-05-24T17:00:00Z"));
    assert_eq!(now.temperature(), "84°");
    assert_eq!(now.prob_of_precip(), "1%");
}

#[test]
fn future_periods_in_utc() {
    let f = forecast(hourly(48));
    let offsets = vec![Some(0); 48];
    let listed = f.future_periods_at_offsets(&offsets);
    // 17:00 + i hours: 4 -> 21:00, 8 -> 01:00 (night), 12 -> 05:00, ...,
    // 32 -> 01:00 (night), 36 -> 05:00, 40 -> 09:00, 44 -> 13:00.
    assert_eq!(
        listed_indices(&f, &listed),
        vec![4, 12, 16, 20, 24, 28, 36, 40, 44]
    );
}

#[test]
fn future_periods_four_hours_west() {
    let f = forecast(hourly(48));
    let offsets = vec![Some(-4 * 3600); 48];
    let listed = f.future_periods_at_offsets(&offsets);
    // Local 13:00 + i hours: 4 -> 17:00, 8 -> 21:00, 12 -> 01:00 (night),
    // 16 -> 05:00, 20 -> 09:00, ..., 32 -> 21:00, 36 -> 01:00 (night).
    assert_eq!(
        listed_indices(&f, &listed),
        vec![4, 8, 16, 20, 24, 28, 32, 40, 44]
    );
}

#[test]
fn future_periods_window_is_inclusive() {
    let base = millis("2024-05-24T00:00:00Z");
    let at = |ms: i64| ForecastPeriod {
        start_time: base + ms,
        end_time: base + ms + 3_600_000,
        temperature: 60,
        probability_of_precipitation: Unit { value: None },
    };
    let start = 16_200_000;
    let end = 81_000_000;
    let periods = vec![
        at(0),
        at(0),
        at(0),
        at(0),
        at(start),
        at(0),
        at(0),
        at(0),
        at(end),
        at(0),
        at(0),
        at(0),
        at(start - 1),
        at(0),
        at(0),
        at(0),
        at(end + 1),
    ];
    let f = forecast(periods);
    let listed = f.future_periods_at_offsets(&vec![Some(0); 17]);
    assert_eq!(listed.len(), 2);
    assert_eq!(listed[0].start_time(), base + start);
    assert_eq!(listed[1].start_time(), base + end);
}

#[test]
fn future_periods_skip_unknown_offsets_and_short_lists() {
    let f = forecast(hourly(48));
    let mut offsets = vec![Some(0); 48];
    offsets[12] = None;
    let listed = f.future_periods_at_offsets(&offsets);
    assert_eq!(
        listed_indices(&f, &listed),
        vec![4, 16, 20, 24, 28, 36, 40, 44]
    );

    let short = forecast(hourly(4));
    assert!(short.future_periods_at_offsets(&vec![Some(0); 4]).is_empty());
}

#[test]
fn future_periods_in_local_time_are_every_fourth() {
    let f = forecast(hourly(48));
    for p in f.future_periods() {
        let i = f.properties.periods.iter().position(|q| *q == p).unwrap();
        assert!(i >= 4 && i % 4 == 0);
    }
}

#[test]
fn time_of_day_wraps_around_midnight() {
    assert_eq!(time_of_day(-1, 0), 86_399_999);
    assert_eq!(time_of_day(0, -3600), 82_800_000);
    assert_eq!(time_of_day(millis("2024-05-24T17:00:00Z"), 0), 61_200_000);
    assert_eq!(time_of_day(millis("2024-05-24T17:00:00Z"), 9 * 3600), 7_200_000);
}

#[test]
fn formatted_temperature_and_precipitation() {
    let mut p = period("2024-05-24T17:00:00Z", 1, -5, 40);
    assert_eq!(p.temperature(), "-5°");
    assert_eq!(p.prob_of_precip(), "40%");
    p.probability_of_precipitation = Unit { value: None };
    assert_eq!(p.prob_of_precip(), "0%");
}

#[test]
fn weather_endpoint_and_empty_start() {
    let w = Weather::new("BOX", (71, 90));
    assert_eq!(
        w.fetcher().url(),
        "https://api.weather.gov/gridpoints/BOX/71,90/forecast/hourly"
    );
    assert_eq!(w.fetcher().ttl(), 60_000);
    assert!(w.forecast().is_none());
}

#[test]
fn weather_serves_fetched_forecast() {
    let mut w = Weather::new("BOX", (71, 90));
    assert!(w.fetcher_mut().fetch_if_needed_at(1_000));
    w.fetcher_mut()
        .finish_fetch_at(Ok(forecast(hourly(3))), 2_000);
    let f = w.forecast().unwrap();
    assert_eq!(f.now().temperature(), "84°");
    assert_eq!(w.fetcher().snapshot().unwrap().fetched_at(), 2_000);
}
