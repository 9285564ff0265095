//! The in-memory repositories: one keyed store per entity kind.

pub mod competitions;
pub mod in_memo;
pub mod model;
pub mod player_stats;
pub mod players;
pub mod teams;
