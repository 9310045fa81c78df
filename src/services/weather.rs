//! The hourly weather forecast and the periods that the dashboard shows.

use crate::clock::local_offset_seconds;
use crate::services::{ApiFetcher, SourceModel};
use crate::text::{decimal, decimal_string};
use vstd::prelude::*;

verus! {

/// The forecast service.
pub const API_HOST: &'static str = "https://api.weather.gov";

/// How long a forecast snapshot stays fresh, in milliseconds.
pub const WEATHER_TTL_MILLIS: u64 = 60_000;

/// Start of the daytime window, in milliseconds after local midnight (04:30).
pub const DAY_START_MILLIS: i128 = 16_200_000;

/// End of the daytime window, inclusive, in milliseconds after local
/// midnight (22:30).
pub const DAY_END_MILLIS: i128 = 81_000_000;

pub const MILLIS_PER_DAY: i128 = 86_400_000;

/// Every how many periods a future period is shown.
pub const PERIOD_INTERVAL: usize = 4;

/// The endpoint of the hourly forecast for a grid point of a forecast office.
pub open spec fn forecast_url(office: Seq<char>, x: u32, y: u32) -> Seq<char> {
    API_HOST@ + "/gridpoints/"@ + office + "/"@ + decimal(x as int) + ","@ + decimal(y as int)
        + "/forecast/hourly"@
}

/// Milliseconds after local midnight of the UTC instant `utc_millis`, for a
/// local offset of `offset_seconds`.
pub open spec fn local_time_of_day(utc_millis: int, offset_seconds: int) -> int {
    (utc_millis + offset_seconds * 1000) % (MILLIS_PER_DAY as int)
}

pub open spec fn in_daytime(time_of_day: int) -> bool {
    DAY_START_MILLIS <= time_of_day <= DAY_END_MILLIS
}

/// Whether period `i` is listed among the future periods: past the first,
/// at a multiple of the interval, and starting in the daytime window of its
/// local offset (a period whose offset is unknown is not listed).
pub open spec fn listed(periods: Seq<ForecastPeriod>, offsets: Seq<Option<i32>>, i: int) -> bool {
    &&& i >= 1
    &&& i % (PERIOD_INTERVAL as int) == 0
    &&& offsets[i] matches Some(offset)
    &&& in_daytime(local_time_of_day(periods[i].start_time as int, offset as int))
}

/// The listed periods among the first `n`, in order.
pub open spec fn listed_periods(
    periods: Seq<ForecastPeriod>,
    offsets: Seq<Option<i32>>,
    n: int,
) -> Seq<ForecastPeriod>
    decreases n,
{
    if n <= 0 {
        Seq::empty()
    } else if listed(periods, offsets, n - 1) {
        listed_periods(periods, offsets, n - 1).push(periods[n - 1])
    } else {
        listed_periods(periods, offsets, n - 1)
    }
}

#[derive(Clone, Copy, Debug, PartialEq, Eq)]
pub struct Unit {
    pub value: Option<i32>,
}

/// One forecast period; instants are milliseconds since the Unix epoch.
#[derive(Clone, Copy, Debug, PartialEq, Eq)]
pub struct ForecastPeriod {
    pub start_time: i64,
    pub end_time: i64,
    pub temperature: i32,
    pub probability_of_precipitation: Unit,
}

#[derive(Clone, Debug)]
pub struct ForecastProperties {
    pub periods: Vec<ForecastPeriod>,
}

/// An hourly forecast.
#[derive(Clone, Debug)]
pub struct Forecast {
    pub properties: ForecastProperties,
}

impl ForecastPeriod {
    /// Start of the period, in milliseconds since the Unix epoch (UTC).
    pub fn start_time(&self) -> (r: i64)
        ensures
            r == self.start_time,
    {
        self.start_time
    }

    /// The temperature in whole degrees, such as `84°`.
    pub fn temperature(&self) -> (r: String)
        ensures
            r@ == decimal(self.temperature as int) + "°"@,
    {
        decimal_string(self.temperature as i64).concat("°")
    }

    /// The probability of precipitation, such as `5%`; zero when absent.
    pub fn prob_of_precip(&self) -> (r: String)
        ensures
            r@ == decimal(
                match self.probability_of_precipitation.value {
                    Some(v) => v as int,
                    None => 0,
                },
            ) + "%"@,
    {
        let value: i32 = match self.probability_of_precipitation.value {
            Some(v) => v,
            None => 0,
        };
        decimal_string(value as i64).concat("%")
    }
}

/// Milliseconds after local midnight of `utc_millis` at the offset
/// `offset_seconds`.
pub fn time_of_day(utc_millis: i64, offset_seconds: i32) -> (r: i128)
    ensures
        r == local_time_of_day(utc_millis as int, offset_seconds as int),
        0 <= r < MILLIS_PER_DAY,
{
    let local: i128 = utc_millis as i128 + offset_seconds as i128 * 1000;
    match local.checked_rem_euclid(MILLIS_PER_DAY) {
        Some(r) => r,
        None => 0,
    }
}

impl Forecast {
    /// The current forecast period: the first.
    pub fn now(&self) -> (r: &ForecastPeriod)
        requires
            self.properties.periods@.len() > 0,
        ensures
            *r == self.properties.periods@[0],
    {
        &self.properties.periods[0]
    }

    /// The future periods to list, given the local offset of each period's
    /// start (`offsets[i]` for period `i`): periods 4, 8, 12 and so on whose
    /// local start time lies between 04:30 and 22:30 inclusive.
    pub fn future_periods_at_offsets(&self, offsets: &Vec<Option<i32>>) -> (r: Vec<ForecastPeriod>)
        requires
            offsets@.len() == self.properties.periods@.len(),
        ensures
            r@ == listed_periods(
                self.properties.periods@,
                offsets@,
                self.properties.periods@.len() as int,
            ),
    {
        let periods = &self.properties.periods;
        let mut r: Vec<ForecastPeriod> = Vec::new();
        let mut i: usize = 0;
        while i < periods.len()
            invariant
                i <= periods.len(),
                offsets@.len() == periods@.len(),
                r@ == listed_periods(periods@, offsets@, i as int),
            decreases periods.len() - i,
        {
            if i >= 1 && i % PERIOD_INTERVAL == 0 {
                match offsets[i] {
                    Some(offset) => {
                        let tod = time_of_day(periods[i].start_time, offset);
                        if DAY_START_MILLIS <= tod && tod <= DAY_END_MILLIS {
                            r.push(periods[i]);
                        }
                    },
                    None => {},
                }
            }
            i += 1;
        }
        r
    }

    /// The local offset of each period's start, on this machine.
    pub fn local_offsets(&self) -> (r: Vec<Option<i32>>)
        ensures
            r@.len() == self.properties.periods@.len(),
    {
        let periods = &self.properties.periods;
        let mut r: Vec<Option<i32>> = Vec::new();
        let mut i: usize = 0;
        while i < periods.len()
            invariant
                i <= periods.len(),
                r@.len() == i,
            decreases periods.len() - i,
        {
            r.push(local_offset_seconds(periods[i].start_time));
            i += 1;
        }
        r
    }

    /// The future periods to list, in the machine's local time: periods 4, 8,
    /// 12 and so on whose local start time lies between 04:30 and 22:30
    /// inclusive.
    pub fn future_periods(&self) -> (r: Vec<ForecastPeriod>)
        ensures
            exists|offsets: Seq<Option<i32>>|
                offsets.len() == self.properties.periods@.len() && r@ == listed_periods(
                    self.properties.periods@,
                    offsets,
                    self.properties.periods@.len() as int,
                ),
    {
        let offsets = self.local_offsets();
        self.future_periods_at_offsets(&offsets)
    }
}

/// The hourly forecast for one grid point, refreshed from the forecast
/// service.
#[derive(Debug)]
pub struct Weather {
    fetcher: ApiFetcher<Forecast>,
}

impl Weather {
    pub closed spec fn source(&self) -> SourceModel<Forecast> {
        self.fetcher@
    }

    /// The forecast for grid point `forecast_gridpoint` of the office
    /// `forecast_office`; no forecast is held yet.
    pub fn new(forecast_office: &str, forecast_gridpoint: (u32, u32)) -> (r: Weather)
        ensures
            r.source() == (SourceModel::<Forecast> {
                url: forecast_url(forecast_office@, forecast_gridpoint.0, forecast_gridpoint.1),
                ttl: WEATHER_TTL_MILLIS as int,
                snapshot: None,
                in_flight: false,
            }),
    {
        let url = String::from_str(API_HOST).concat("/gridpoints/").concat(forecast_office).concat(
            "/",
        ).concat(decimal_string(forecast_gridpoint.0 as i64).as_str()).concat(",").concat(
            decimal_string(forecast_gridpoint.1 as i64).as_str(),
        ).concat("/forecast/hourly");
        Weather { fetcher: ApiFetcher::new(url, WEATHER_TTL_MILLIS) }
    }

    /// The latest forecast, if one has been fetched.
    pub fn forecast(&self) -> (r: Option<&Forecast>)
        ensures
            r is None <==> self.source().snapshot is None,
            r matches Some(f) ==> *f == self.source().snapshot->0.payload,
    {
        match self.fetcher.snapshot() {
            Some(d) => Some(d.data()),
            None => None,
        }
    }

    /// The source that holds the latest forecast.
    pub fn fetcher(&self) -> (r: &ApiFetcher<Forecast>)
        ensures
            r@ == self.source(),
    {
        &self.fetcher
    }

    /// The source, for requesting refreshes and applying their outcomes.
    pub fn fetcher_mut(&mut self) -> (r: &mut ApiFetcher<Forecast>)
        ensures
            r@ == old(self).source(),
            final(self).source() == final(r)@,
    {
        &mut self.fetcher
    }
}

} // verus!
