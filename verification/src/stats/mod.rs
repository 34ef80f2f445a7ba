//! Statistics derived from the event store.

pub mod calculator;
pub mod counting;
pub mod laws;
pub mod ranking;
pub mod ratio;
