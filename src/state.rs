//! The dashboard's state and its transitions: the periodic staleness check
//! that decides which sources to refresh, and the application of fetch
//! outcomes.
//!
//! Fetches run elsewhere: a check returns the sources whose fetch the caller
//! must now start, and the caller reports each outcome back as a message.

use crate::clock::now_millis;
use crate::config::Config;
use crate::services::transit::{ApiPredictions, Transit, predictions_url, TRANSIT_TTL_MILLIS};
use crate::services::weather::{Forecast, Weather, forecast_url, WEATHER_TTL_MILLIS};
use crate::services::{FetchError, SourceModel, after_completion, after_request, launches_fetch};
use vstd::prelude::*;

verus! {

/// How often the sources are checked for staleness, in milliseconds.
pub const CHECK_INTERVAL_MILLIS: u64 = 1_000;

#[derive(Clone, Copy, Debug, PartialEq, Eq)]
pub enum Tab {
    Weather,
    Transit,
}

pub open spec fn tab_label(tab: Tab) -> Seq<char> {
    match tab {
        Tab::Weather => "Weather"@,
        Tab::Transit => "Transit"@,
    }
}

impl Tab {
    /// All tabs, in display order.
    pub fn iter() -> (r: Vec<Tab>)
        ensures
            r@ == seq![Tab::Weather, Tab::Transit],
    {
        let r = vec![Tab::Weather, Tab::Transit];
        assert(r@ =~= seq![Tab::Weather, Tab::Transit]);
        r
    }

    /// The tab's title.
    pub fn label(&self) -> (r: String)
        ensures
            r@ == tab_label(*self),
    {
        match self {
            Tab::Weather => String::from_str("Weather"),
            Tab::Transit => String::from_str("Transit"),
        }
    }
}

/// A source whose fetch the caller must start.
#[derive(Clone, Copy, Debug, PartialEq, Eq)]
pub enum SourceKind {
    Weather,
    Transit,
}

/// State transitions.
#[derive(Debug)]
pub enum Message {
    /// Check all sources; each stale one without a fetch outstanding is
    /// refreshed.
    CheckData,
    TabSelected(Tab),
    WeatherFetched(Result<Forecast, FetchError>),
    TransitFetched(Result<ApiPredictions, FetchError>),
}

/// The fetches that a check at `now` starts, weather first.
pub open spec fn check_fetches(
    weather: SourceModel<Forecast>,
    transit: SourceModel<ApiPredictions>,
    now: int,
) -> Seq<SourceKind> {
    (if launches_fetch(weather, now) {
        seq![SourceKind::Weather]
    } else {
        Seq::empty()
    }) + (if launches_fetch(transit, now) {
        seq![SourceKind::Transit]
    } else {
        Seq::empty()
    })
}

/// Global application state.
#[derive(Debug)]
pub struct State {
    pub active_tab: Tab,
    pub weather: Weather,
    pub transit: Transit,
}

impl State {
    /// The weather tab is active and no source holds data yet.
    pub fn new(config: Config) -> (r: State)
        ensures
            r.active_tab == Tab::Weather,
            r.weather.source() == (SourceModel::<Forecast> {
                url: forecast_url(
                    config.forecast_office@,
                    config.forecast_gridpoint.0,
                    config.forecast_gridpoint.1,
                ),
                ttl: WEATHER_TTL_MILLIS as int,
                snapshot: None,
                in_flight: false,
            }),
            r.transit.spec_lines() == config.transit_lines@,
            r.transit.source() == (SourceModel::<ApiPredictions> {
                url: predictions_url(config.transit_lines@),
                ttl: TRANSIT_TTL_MILLIS as int,
                snapshot: None,
                in_flight: false,
            }),
    {
        let weather = Weather::new(config.forecast_office.as_str(), config.forecast_gridpoint);
        let transit = Transit::new(config.transit_lines);
        State { active_tab: Tab::Weather, weather, transit }
    }

    /// Applies `message` at `now` and returns the fetches that the caller
    /// must start, in that order.
    pub fn update_at(&mut self, message: Message, now: i64) -> (r: Vec<SourceKind>)
        ensures
            final(self).transit.spec_lines() == old(self).transit.spec_lines(),
            match message {
                Message::CheckData => {
                    &&& r@ == check_fetches(
                        old(self).weather.source(),
                        old(self).transit.source(),
                        now as int,
                    )
                    &&& final(self).weather.source() == after_request(
                        old(self).weather.source(),
                        now as int,
                    )
                    &&& final(self).transit.source() == after_request(
                        old(self).transit.source(),
                        now as int,
                    )
                    &&& final(self).active_tab == old(self).active_tab
                },
                Message::TabSelected(tab) => {
                    &&& r@.len() == 0
                    &&& final(self).active_tab == tab
                    &&& final(self).weather.source() == old(self).weather.source()
                    &&& final(self).transit.source() == old(self).transit.source()
                },
                Message::WeatherFetched(outcome) => {
                    &&& r@.len() == 0
                    &&& final(self).weather.source() == after_completion(
                        old(self).weather.source(),
                        outcome,
                        now as int,
                    )
                    &&& final(self).transit.source() == old(self).transit.source()
                    &&& final(self).active_tab == old(self).active_tab
                },
                Message::TransitFetched(outcome) => {
                    &&& r@.len() == 0
                    &&& final(self).transit.source() == after_completion(
                        old(self).transit.source(),
                        outcome,
                        now as int,
                    )
                    &&& final(self).weather.source() == old(self).weather.source()
                    &&& final(self).active_tab == old(self).active_tab
                },
            },
    {
        let mut fetches: Vec<SourceKind> = Vec::new();
        match message {
            Message::CheckData => {
                if self.weather.fetcher_mut().fetch_if_needed_at(now) {
                    fetches.push(SourceKind::Weather);
                }
                if self.transit.fetcher_mut().fetch_if_needed_at(now) {
                    fetches.push(SourceKind::Transit);
                }
                assert(fetches@ =~= check_fetches(
                    old(self).weather.source(),
                    old(self).transit.source(),
                    now as int,
                ));
            },
            Message::TabSelected(tab) => self.active_tab = tab,
            Message::WeatherFetched(outcome) => self.weather.fetcher_mut().finish_fetch_at(
                outcome,
                now,
            ),
            Message::TransitFetched(outcome) => self.transit.fetcher_mut().finish_fetch_at(
                outcome,
                now,
            ),
        }
        fetches
    }

    /// Applies `message` at the current time and returns the fetches that
    /// the caller must start.
    pub fn update(&mut self, message: Message) -> (r: Vec<SourceKind>)
        ensures
            exists|now: i64|
                {
                    &&& final(self).transit.spec_lines() == old(self).transit.spec_lines()
                    &&& match message {
                        Message::CheckData => {
                            &&& r@ == check_fetches(
                                old(self).weather.source(),
                                old(self).transit.source(),
                                now as int,
                            )
                            &&& final(self).weather.source() == after_request(
                                old(self).weather.source(),
                                now as int,
                            )
                            &&& final(self).transit.source() == after_request(
                                old(self).transit.source(),
                                now as int,
                            )
                            &&& final(self).active_tab == old(self).active_tab
                        },
                        Message::TabSelected(tab) => {
                            &&& r@.len() == 0
                            &&& final(self).active_tab == tab
                            &&& final(self).weather.source() == old(self).weather.source()
                            &&& final(self).transit.source() == old(self).transit.source()
                        },
                        Message::WeatherFetched(outcome) => {
                            &&& r@.len() == 0
                            &&& final(self).weather.source() == after_completion(
                                old(self).weather.source(),
                                outcome,
                                now as int,
                            )
                            &&& final(self).transit.source() == old(self).transit.source()
                            &&& final(self).active_tab == old(self).active_tab
                        },
                        Message::TransitFetched(outcome) => {
                            &&& r@.len() == 0
                            &&& final(self).transit.source() == after_completion(
                                old(self).transit.source(),
                                outcome,
                                now as int,
                            )
                            &&& final(self).weather.source() == old(self).weather.source()
                            &&& final(self).active_tab == old(self).active_tab
                        },
                    }
                },
    {
        self.update_at(message, now_millis())
    }
}

} // verus!
