//! The shared store handle: one repository per entity kind, passed to all
//! ingest steps and read by the query engine.

use vstd::prelude::*;

use crate::repo::competitions::CompetitionsRepo;
use crate::repo::in_memo::{spec_unique_keys, InMemoRepository};
use crate::repo::player_stats::PlayerStatsRepo;
use crate::repo::players::PlayersRepo;
use crate::repo::teams::TeamsRepo;

verus! {

/// The in-memory store: players, competitions, teams and per-player
/// statistics.
#[derive(Debug, Clone)]
pub struct Db {
    pub players: PlayersRepo,
    pub competitions: CompetitionsRepo,
    pub teams: TeamsRepo,
    pub players_stats: PlayerStatsRepo,
}

impl Db {
    /// Every repository is a map: no key occurs twice.
    pub open spec fn wf(self) -> bool {
        &&& spec_unique_keys(self.players.entries())
        &&& spec_unique_keys(self.competitions.entries())
        &&& spec_unique_keys(self.teams.entries())
        &&& spec_unique_keys(self.players_stats.entries())
    }

    /// An empty store.
    pub fn new() -> (r: Self)
        ensures
            r.wf(),
            r.players.entries().len() == 0,
            r.competitions.entries().len() == 0,
            r.teams.entries().len() == 0,
            r.players_stats.entries().len() == 0,
    {
        Db {
            players: PlayersRepo::new(),
            competitions: CompetitionsRepo::new(),
            teams: TeamsRepo::new(),
            players_stats: PlayerStatsRepo::new(),
        }
    }
}

} // verus!
