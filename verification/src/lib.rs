//! Result-caching layer for an external time-tracking command-line tool:
//! a time-to-live cache over query results, a cache-aware execution façade
//! with write-triggered invalidation, and a month-range report aggregator
//! that merges per-day queries into one cached artifact.

pub mod cache;
pub mod calendar;
pub mod facade;
pub mod month;
pub mod report;
pub mod text;
pub mod types;

pub use types::CommandResult;
