//! What the services need from the application's configuration.

use crate::services::transit::TransitLine;
use vstd::prelude::*;

verus! {

/// The forecast location and the monitored transit lines.
#[derive(Debug)]
pub struct Config {
    /// Identifier of the forecast office.
    pub forecast_office: String,
    /// Grid point of the forecast, within the office's grid.
    pub forecast_gridpoint: (u32, u32),
    pub transit_lines: Vec<TransitLine>,
}

} // verus!
