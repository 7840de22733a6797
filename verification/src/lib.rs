//! Structured catalog of the processing filters that a media engine reports
//! in its help text.

pub mod text;
pub mod scan;
pub mod rejoin;
pub mod pattern;
pub mod model;
pub mod classify;
pub mod listing;
pub mod detail;
pub mod resilience;
pub mod growth;
pub mod builder;
pub mod fanout;
pub mod session;
pub mod cache;
pub mod preview;
