//! Timer lifecycle and daily statistics for a personal time tracker.
//!
//! The store of timer entries and daily statistics lives in memory as a
//! [`store::TimerStore`]; the lifecycle operations (start, cancel, finish)
//! keep at most one entry active and keep the daily counters in step.

pub mod time;
pub mod store;
pub mod entries;
pub mod statistics;
pub mod notifications;
pub mod lifecycle;
pub mod history;
pub mod rows;
pub mod configuration;
pub mod today;
pub mod laws;
