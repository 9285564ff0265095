//! A verified sports-analytics engine.
//!
//! The crate ingests hierarchical sports data (competitions, seasons,
//! competitors, player statistics) into an in-memory relational store and
//! answers ranking queries over it.  The fetch-and-ingest pipeline's
//! decision logic (matching, retry/backoff, rate-limited hand-off) and the
//! filter/rank/join query engine are verified; the surrounding I/O lives in
//! an ordinary Rust front end.

pub mod cli;
pub mod date;
pub mod db;
pub mod engine;
pub mod errors;
pub mod repo;
pub mod scrapper;
pub mod sport_radar;
pub mod sync;
