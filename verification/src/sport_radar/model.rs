//! Typed views of the four data-source responses: competitions, seasons,
//! competitors, and per-competitor player statistics.

use vstd::prelude::*;

verus! {

/// The category a competition belongs to; its name is the competition's
/// location.
#[derive(Debug, Clone, PartialEq)]
pub struct CompetitionCategory {
    pub id: String,
    pub name: String,
}

/// The gender scope a competition is reported with.
#[derive(Debug, Clone, Copy, PartialEq, Eq, Structural)]
pub enum CompetitionGender {
    Men,
    Women,
}

/// One competition as the data source reports it.
#[derive(Debug, Clone, PartialEq)]
pub struct Competition {
    pub id: String,
    pub name: String,
    pub gender: Option<CompetitionGender>,
    pub category: CompetitionCategory,
}

/// The competitions listing.
#[derive(Debug, Clone, PartialEq)]
pub struct CompetitionsResponse {
    pub generated_at: String,
    pub competitions: Vec<Competition>,
}

/// One season of a competition; its dates are `YYYY-MM-DD` text.
#[derive(Debug, Clone, PartialEq)]
pub struct Season {
    pub id: String,
    pub name: String,
    pub start_date: String,
    pub end_date: String,
    pub year: String,
    pub competition_id: String,
}

/// The seasons listing for one competition.
#[derive(Debug, Clone, PartialEq)]
pub struct SeasonsResponse {
    pub generated_at: String,
    pub seasons: Vec<Season>,
}

/// One competitor of a season.
#[derive(Debug, Clone, PartialEq)]
pub struct Competitor {
    pub id: String,
    pub name: String,
    pub short_name: String,
    pub abbreviation: String,
}

/// The competitors listing for one season.
#[derive(Debug, Clone, PartialEq)]
pub struct CompetitorsResponse {
    pub generated_at: String,
    pub season_competitors: Vec<Competitor>,
}

/// The sport a season belongs to.
#[derive(Debug, Clone, PartialEq)]
pub struct Sport {
    pub id: String,
    pub name: String,
}

/// The season header of a statistics response.
#[derive(Debug, Clone, PartialEq)]
pub struct SeasonDetails {
    pub id: String,
    pub name: String,
    pub start_date: String,
    pub end_date: String,
    pub year: String,
    pub competition_id: String,
    pub sport: Sport,
}

/// The per-player counters the data source reports.
#[derive(Debug, Clone, PartialEq)]
pub struct PlayerStatistics {
    pub assists: u32,
    pub cards_given: Option<u32>,
    pub goals_by_head: u32,
    pub goals_by_penalty: u32,
    pub goals_conceded: u32,
    pub goals_scored: u32,
    pub matches_played: u32,
    pub offsides: Option<u32>,
    pub own_goals: u32,
    pub penalties_missed: u32,
    pub red_cards: u32,
    pub shots_off_target: Option<u32>,
    pub substituted_in: u32,
    pub substituted_out: u32,
    pub yellow_cards: u32,
    pub yellow_red_cards: u32,
}

/// One player with the counters of one season.
#[derive(Debug, Clone, PartialEq)]
pub struct Player {
    pub id: String,
    pub name: String,
    pub statistics: PlayerStatistics,
}

/// The gender a competitor is reported with.
#[derive(Debug, Clone, Copy, PartialEq, Eq, Structural)]
pub enum CompetitorGender {
    Male,
    Female,
}

/// The competitor block of a statistics response; the ingest reads its
/// identity and its players.
#[derive(Debug, Clone, PartialEq)]
pub struct CompetitorDetails {
    pub id: String,
    pub name: String,
    pub country: String,
    pub country_code: String,
    pub abbreviation: String,
    pub gender: CompetitorGender,
    pub players: Vec<Player>,
}

/// The statistics response for one competitor of one season.
#[derive(Debug, Clone, PartialEq)]
pub struct PlayerStatisticsResponse {
    pub generated_at: String,
    pub season: SeasonDetails,
    pub competitor: CompetitorDetails,
}

} // verus!
