//! Caching and refresh engine for a dashboard that polls slow, unreliable
//! REST services, plus the pure projections that turn the cached payloads
//! into what the dashboard shows.

pub mod clock;
pub mod config;
pub mod services;
pub mod state;
pub mod text;
pub mod util;
