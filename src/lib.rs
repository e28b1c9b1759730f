//! Weekly sighting aggregation for a bird-feeder log.
//!
//! Sightings of tracked subjects (species) are bucketed into calendar weeks and
//! counted by distinct calendar days, producing a dense grid that a chart can
//! draw directly.

pub mod calendar;
pub mod count_map;
pub mod label;
pub mod grid;
pub mod local;
pub mod laws;
