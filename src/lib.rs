//! Persistence and query engine for a small time-tracking book: contractors,
//! project aliases and hour logs, each kept as one collection keyed by slug.

pub mod alias;
pub mod calendar;
pub mod config;
pub mod contractors;
pub mod directives;
pub mod errors;
pub mod generics;
pub mod hours;
pub mod store;
pub mod utils;
