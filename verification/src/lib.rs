//! The core of a small live status display: transit countdowns and a weather
//! forecast, gathered by background pollers and applied to one owned state.

pub mod clock;
pub mod text;
pub mod departures;
pub mod transit;
pub mod weather;
pub mod state;
pub mod poller;
pub mod fetch;
pub mod config;
pub mod selection;
