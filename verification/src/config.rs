//! The configuration: which forecast and which transit stops to show.

use crate::text::{decimal, decimal_string};
use crate::transit::{transit_query, transit_url, TransitLine};
use vstd::prelude::*;

verus! {

/// Global app configuration
#[derive(Debug)]
pub struct Config {
    /// The forecast office that covers the place
    pub forecast_office: String,
    /// The place's position on that office's grid
    pub forecast_gridpoint: (u32, u32),
    /// Transit lines/stops to be displayed
    pub transit_lines: Vec<TransitLine>,
}

impl Config {
    /// Whether two configurations say the same: the same forecast place,
    /// and the same lines in the same order, each with the same stops
    pub open spec fn same_as(&self, other: &Config) -> bool {
        &&& self.forecast_office@ == other.forecast_office@
        &&& self.forecast_gridpoint == other.forecast_gridpoint
        &&& self.transit_lines@.len() == other.transit_lines@.len()
        &&& forall|l: int|
            0 <= l < self.transit_lines@.len() ==> (#[trigger] self.transit_lines@[l]).same_as(
                &other.transit_lines@[l],
            )
    }
}

impl Clone for Config {
    fn clone(&self) -> (copy: Self)
        ensures
            copy.same_as(self),
    {
        Config {
            forecast_office: self.forecast_office.clone(),
            forecast_gridpoint: (self.forecast_gridpoint.0, self.forecast_gridpoint.1),
            transit_lines: self.transit_lines.clone(),
        }
    }
}

/// The address that answers with the hourly forecast for a grid point
pub open spec fn forecast_query(office: Seq<char>, x: nat, y: nat) -> Seq<char> {
    "https://api.weather.gov/gridpoints/"@ + office + "/"@ + decimal(x) + ","@ + decimal(y)
        + "/forecast/hourly"@
}

impl Config {
    /// Builds the address to ask for the hourly forecast.
    pub fn forecast_url(&self) -> (url: String)
        ensures
            url@ == forecast_query(
                self.forecast_office@,
                self.forecast_gridpoint.0 as nat,
                self.forecast_gridpoint.1 as nat,
            ),
    {
        let mut url = String::from_str("https://api.weather.gov/gridpoints/");
        url.append(self.forecast_office.as_str());
        url.append("/");
        let x = decimal_string(self.forecast_gridpoint.0 as u64);
        url.append(x.as_str());
        url.append(",");
        let y = decimal_string(self.forecast_gridpoint.1 as u64);
        url.append(y.as_str());
        url.append("/forecast/hourly");
        url
    }

    /// Builds the address to ask for predictions for all configured stops.
    pub fn transit_url(&self) -> (url: String)
        ensures
            url@ == transit_query(self.transit_lines@),
    {
        transit_url(&self.transit_lines)
    }
}

} // verus!
