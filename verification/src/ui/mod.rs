//! Presentation of a snapshot.

pub mod heatmap;
pub mod keyboard;
