//! Keyboard activity recording and statistics.
//!
//! The recording engine ([`commands::listen`]) turns key presses and
//! releases into key events, key combos and typing samples, and keeps the
//! session of a recording run. The event store ([`db`]) holds these records
//! in four tables. The calculator ([`stats::calculator`]) derives a snapshot
//! of statistics from a store, and the heatmap ([`ui`]) draws the keyboard
//! from a snapshot.
//!
//! Averages, rates and percentages are exact fractions ([`stats::ratio`]),
//! and typing rates are held in thousandths of a character per minute.

pub mod clock;
pub mod commands;
pub mod db;
pub mod stats;
pub mod text;
pub mod ui;
pub mod views;
