//! The relational data model of the store: competitions, teams, players and
//! per-player statistics, all keyed by opaque string identifiers.

use vstd::prelude::*;

use crate::date::Date;

verus! {

/// The gender scope of a competition.
#[derive(Debug, Clone, Copy, PartialEq, Eq, Structural)]
pub enum Gender {
    Male,
    Female,
}

impl Default for Gender {
    fn default() -> (r: Self)
        ensures
            r == Gender::Male,
    {
        Gender::Male
    }
}

/// A tournament or league instance.  Immutable after creation.
#[derive(Debug, Clone, PartialEq)]
pub struct Competition {
    pub id: String,
    pub name: String,
    pub location: String,
    pub gender: Gender,
    pub season_start: Date,
    pub season_end: Date,
}

/// An organisational sports entity fielding players.
#[derive(Debug, Clone, PartialEq)]
pub struct Team {
    pub id: String,
    pub name: String,
    pub abbreviation: String,
}

/// A named statistic with an integer value.
#[derive(Debug, Clone, Copy, PartialEq, Eq, Structural)]
pub enum Metric {
    GoalsScored { value: u32 },
    Assists { value: u32 },
}

impl Metric {
    /// The integer value carried by the metric, whatever its kind.
    pub fn value(&self) -> (v: u32)
        ensures
            v == self.spec_value(),
    {
        match self {
            Metric::GoalsScored { value } => *value,
            Metric::Assists { value } => *value,
        }
    }

    pub open spec fn spec_value(self) -> u32 {
        match self {
            Metric::GoalsScored { value } => value,
            Metric::Assists { value } => value,
        }
    }
}

impl Default for Metric {
    fn default() -> (r: Self)
        ensures
            r == (Metric::GoalsScored { value: 0u32 }),
    {
        Metric::GoalsScored { value: 0 }
    }
}

/// A player, identified by an opaque stable id.
#[derive(Debug, Clone, PartialEq)]
pub struct Player {
    pub id: String,
    pub name: String,
}

/// The statistics of one player for one team in one competition.
/// Its composite key is (player id, team id, competition id); the metrics
/// hold at most one entry per metric kind.
#[derive(Debug, Clone, PartialEq)]
pub struct PlayerStats {
    pub player_id: String,
    pub team_id: String,
    pub competition_id: String,
    pub metrics: Vec<Metric>,
}

/// The joined, human-readable identity of a ranked player.
#[derive(Debug, Clone, PartialEq)]
pub struct PlayerDetails {
    pub player_id: String,
    pub player_name: String,
    pub team_id: String,
    pub team_name: String,
    pub competition_id: String,
    pub competition_name: String,
}

} // verus!
