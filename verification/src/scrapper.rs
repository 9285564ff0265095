//! The ingest orchestrator: matches the query to one competition and one
//! season, then fans out one statistics fetch per competitor and writes
//! the normalized records into the shared store.
//!
//! The control flow is a step machine: each step consumes one fetched
//! response and says which fetch to perform next, so that a thin driver
//! can run the I/O around it.

use vstd::prelude::*;

use crate::date::Date;
use crate::db::Db;
use crate::errors::{FetchError, IngestError};
use crate::repo::in_memo::{spec_upsert, InMemoRepository};
use crate::repo::model::{Gender, Metric, Player, PlayerStats, Team};
use crate::repo::model::Competition as EngineCompetition;
use crate::sport_radar::model::{
    Competition, CompetitionGender, CompetitionsResponse, Competitor, CompetitorsResponse,
    PlayerStatisticsResponse, Season, SeasonsResponse,
};
use crate::date::spec_parse_date;
use crate::date::parse_date;

verus! {

/// The ingest query: which competition and season to load.
#[derive(Debug, Clone, PartialEq)]
pub struct Query {
    pub event: String,
    pub location: String,
    pub gender: Gender,
    pub season_start: Date,
    pub season_end: Date,
}

/// Whether the query's gender corresponds to a reported competition
/// gender.
pub open spec fn spec_gender_corresponds(g: Gender, cg: CompetitionGender) -> bool {
    match (g, cg) {
        (Gender::Male, CompetitionGender::Men) => true,
        (Gender::Female, CompetitionGender::Women) => true,
        _ => false,
    }
}

/// Whether a reported competition matches the query: name and location
/// exactly, and the gender where one is reported (an absent gender
/// matches any query).
pub open spec fn spec_source_matches(c: Competition, q: Query) -> bool {
    c.name@ == q.event@ && c.category.name@ == q.location@ && match c.gender {
        Some(g) => spec_gender_corresponds(q.gender, g),
        None => true,
    }
}

/// What matching yields: single-pass, first match wins; no match is
/// fatal, and a matched competition without a reported gender is refused.
pub open spec fn spec_find_competition(comps: Seq<Competition>, q: Query) -> Result<
    EngineCompetition,
    IngestError,
>
    decreases comps.len(),
{
    if comps.len() == 0 {
        Err(IngestError::CompetitionNotFound)
    } else if spec_source_matches(comps[0], q) {
        match comps[0].gender {
            None => Err(IngestError::InvalidGender),
            Some(g) => Ok(
                EngineCompetition {
                    id: comps[0].id,
                    name: comps[0].name,
                    location: comps[0].category.name,
                    gender: q.gender,
                    season_start: q.season_start,
                    season_end: q.season_end,
                },
            ),
        }
    } else {
        spec_find_competition(comps.drop_first(), q)
    }
}

/// Whether a season matches the query: its start and end dates, read in
/// the `YYYY-MM-DD` wire format, equal the query's exactly.  A date that
/// does not parse matches nothing.
pub open spec fn spec_season_matches(s: Season, q: Query) -> bool {
    spec_parse_date(s.start_date@) == Some(q.season_start) && spec_parse_date(s.end_date@) == Some(
        q.season_end,
    )
}

/// What season matching yields: single-pass, first match wins; no match
/// is fatal.
pub open spec fn spec_find_season(seasons: Seq<Season>, q: Query) -> Result<Season, IngestError>
    decreases seasons.len(),
{
    if seasons.len() == 0 {
        Err(IngestError::SeasonNotFound)
    } else if spec_season_matches(seasons[0], q) {
        Ok(seasons[0])
    } else {
        spec_find_season(seasons.drop_first(), q)
    }
}

/// The player record a statistics entry normalizes to.
pub open spec fn spec_player_record(p: crate::sport_radar::model::Player) -> Player {
    Player { id: p.id, name: p.name }
}

/// The metrics a statistics entry normalizes to: goals scored and
/// assists, in that order.
pub open spec fn spec_player_metrics(p: crate::sport_radar::model::Player) -> Seq<Metric> {
    seq![
        Metric::GoalsScored { value: p.statistics.goals_scored },
        Metric::Assists { value: p.statistics.assists },
    ]
}

/// The composite key a normalized statistics record is stored under.
pub open spec fn spec_stats_key(
    p: crate::sport_radar::model::Player,
    team_id: Seq<char>,
    competition_id: Seq<char>,
) -> Seq<char> {
    p.id@ + "::"@ + team_id + "::"@ + competition_id
}

/// Whether a normalized statistics record carries exactly what the
/// response entry reports.
pub open spec fn spec_stats_row_matches(
    v: PlayerStats,
    p: crate::sport_radar::model::Player,
    team_id: Seq<char>,
    competition_id: Seq<char>,
) -> bool {
    &&& v.player_id@ == p.id@
    &&& v.team_id@ == team_id
    &&& v.competition_id@ == competition_id
    &&& v.metrics@ =~= spec_player_metrics(p)
}

/// The player store after storing each reported player in order, last
/// write winning.
pub open spec fn spec_apply_players(
    s: Seq<(Seq<char>, Player)>,
    ps: Seq<crate::sport_radar::model::Player>,
) -> Seq<(Seq<char>, Player)>
    decreases ps.len(),
{
    if ps.len() == 0 {
        s
    } else {
        spec_upsert(
            spec_apply_players(s, ps.drop_last()),
            ps.last().id@,
            spec_player_record(ps.last()),
        )
    }
}

/// The statistics store after storing the given normalized records in
/// order, one per reported player, last write winning.
pub open spec fn spec_apply_stats(
    s: Seq<(Seq<char>, PlayerStats)>,
    ps: Seq<crate::sport_radar::model::Player>,
    vs: Seq<PlayerStats>,
    team_id: Seq<char>,
    competition_id: Seq<char>,
) -> Seq<(Seq<char>, PlayerStats)>
    decreases ps.len(),
{
    if ps.len() == 0 {
        s
    } else {
        spec_upsert(
            spec_apply_stats(s, ps.drop_last(), vs.drop_last(), team_id, competition_id),
            spec_stats_key(ps.last(), team_id, competition_id),
            vs.last(),
        )
    }
}

/// What consuming one fetched statistics message does to the store: an
/// error leaves it untouched (the competitor is skipped); a response
/// stores its team, then each player, then each player's statistics
/// record, each under its natural key.
pub open spec fn spec_ingest_effect(
    message: Result<PlayerStatisticsResponse, FetchError>,
    competition_id: Seq<char>,
    old_db: Db,
    new_db: Db,
) -> bool {
    &&& new_db.competitions.entries() == old_db.competitions.entries()
    &&& match message {
        Err(_) => {
            &&& new_db.teams.entries() == old_db.teams.entries()
            &&& new_db.players.entries() == old_db.players.entries()
            &&& new_db.players_stats.entries() == old_db.players_stats.entries()
        },
        Ok(resp) => {
            &&& new_db.teams.entries() == spec_upsert(
                old_db.teams.entries(),
                resp.competitor.id@,
                (Team {
                    id: resp.competitor.id,
                    name: resp.competitor.name,
                    abbreviation: resp.competitor.abbreviation,
                }),
            )
            &&& new_db.players.entries() == spec_apply_players(
                old_db.players.entries(),
                resp.competitor.players@,
            )
            &&& exists|vs: Seq<PlayerStats>|
                {
                    &&& vs.len() == resp.competitor.players@.len()
                    &&& (forall|j: int|
                        0 <= j < vs.len() ==> spec_stats_row_matches(
                            #[trigger] vs[j],
                            resp.competitor.players@[j],
                            resp.competitor.id@,
                            competition_id,
                        ))
                    &&& new_db.players_stats.entries() == spec_apply_stats(
                        old_db.players_stats.entries(),
                        resp.competitor.players@,
                        vs,
                        resp.competitor.id@,
                        competition_id,
                    )
                }
        },
    }
}

/// Consumes one fetched statistics message: a failed fetch is skipped (it
/// never aborts the run); a response is normalized into one team record,
/// one player record per player and one statistics record per player, all
/// applied to the store in order.
pub fn consumer_callback(
    message: Result<PlayerStatisticsResponse, FetchError>,
    competition_id: &String,
    db: &mut Db,
)
    requires
        old(db).wf(),
    ensures
        final(db).wf(),
        spec_ingest_effect(message, competition_id@, *old(db), *final(db)),
{
    let ghost message_snapshot = message;
    match message {
        Err(_) => {},
        Ok(resp) => {
            let competitor = resp.competitor;
            let ghost players_seq = competitor.players@;
            let team_id = competitor.id.clone();
            let team = Team {
                id: competitor.id.clone(),
                name: competitor.name.clone(),
                abbreviation: competitor.abbreviation.clone(),
            };
            db.teams.push(team);
            let ghost db_after_team = *db;
            let n = competitor.players.len();
            let mut k: usize = 0;
            proof {
                assert(players_seq.take(0) =~= Seq::<crate::sport_radar::model::Player>::empty());
            }
            while k < n
                invariant
                    n == competitor.players@.len(),
                    k <= n,
                    players_seq == competitor.players@,
                    db.wf(),
                    db.competitions.entries() == db_after_team.competitions.entries(),
                    db.teams.entries() == db_after_team.teams.entries(),
                    db.players_stats.entries() == db_after_team.players_stats.entries(),
                    db.players.entries() == spec_apply_players(
                        db_after_team.players.entries(),
                        players_seq.take(k as int),
                    ),
                decreases n - k,
            {
                let p = &competitor.players[k];
                let player = Player { id: p.id.clone(), name: p.name.clone() };
                proof {
                    assert(players_seq.take(k + 1).drop_last() =~= players_seq.take(k as int));
                    assert(players_seq.take(k + 1).last() == players_seq[k as int]);
                }
                db.players.push(player);
                k = k + 1;
            }
            proof {
                assert(players_seq.take(n as int) =~= players_seq);
            }
            let ghost db_after_players = *db;
            let ghost mut vs: Seq<PlayerStats> = Seq::empty();
            let mut k: usize = 0;
            proof {
                assert(players_seq.take(0) =~= Seq::<crate::sport_radar::model::Player>::empty());
            }
            while k < n
                invariant
                    n == competitor.players@.len(),
                    k <= n,
                    players_seq == competitor.players@,
                    team_id@ == competitor.id@,
                    db.wf(),
                    db.competitions.entries() == db_after_players.competitions.entries(),
                    db.teams.entries() == db_after_players.teams.entries(),
                    db.players.entries() == db_after_players.players.entries(),
                    vs.len() == k,
                    forall|j: int|
                        0 <= j < k ==> spec_stats_row_matches(
                            #[trigger] vs[j],
                            players_seq[j],
                            competitor.id@,
                            competition_id@,
                        ),
                    db.players_stats.entries() == spec_apply_stats(
                        db_after_players.players_stats.entries(),
                        players_seq.take(k as int),
                        vs,
                        competitor.id@,
                        competition_id@,
                    ),
                decreases n - k,
            {
                let p = &competitor.players[k];
                let mut metrics: Vec<Metric> = Vec::new();
                metrics.push(Metric::GoalsScored { value: p.statistics.goals_scored });
                metrics.push(Metric::Assists { value: p.statistics.assists });
                let record = PlayerStats {
                    player_id: p.id.clone(),
                    team_id: team_id.clone(),
                    competition_id: competition_id.clone(),
                    metrics,
                };
                let ghost old_vs = vs;
                proof {
                    assert(record.metrics@ =~= spec_player_metrics(players_seq[k as int]));
                    assert(spec_stats_row_matches(
                        record,
                        players_seq[k as int],
                        competitor.id@,
                        competition_id@,
                    ));
                    vs = vs.push(record);
                    assert(vs.drop_last() =~= old_vs);
                    assert(players_seq.take(k + 1).drop_last() =~= players_seq.take(k as int));
                    assert(players_seq.take(k + 1).last() == players_seq[k as int]);
                }
                db.players_stats.push(record);
                k = k + 1;
            }
            proof {
                assert(players_seq.take(n as int) =~= players_seq);
                assert(spec_ingest_effect(
                    message_snapshot,
                    competition_id@,
                    *old(db),
                    *db,
                ));
            }
        },
    }
}

/// Executable twin of `spec_source_matches`.
fn source_matches(c: &Competition, q: &Query) -> (r: bool)
    ensures
        r == spec_source_matches(*c, *q),
{
    c.name.eq(&q.event) && c.category.name.eq(&q.location) && match (&c.gender, q.gender) {
        (Some(CompetitionGender::Men), Gender::Male) => true,
        (Some(CompetitionGender::Women), Gender::Female) => true,
        (None, _) => true,
        _ => false,
    }
}

/// Executable twin of `spec_season_matches`.
fn season_matches(s: &Season, q: &Query) -> (r: bool)
    ensures
        r == spec_season_matches(*s, *q),
{
    let start_ok = match parse_date(s.start_date.as_str()) {
        Some(d) => d == q.season_start,
        None => false,
    };
    let end_ok = match parse_date(s.end_date.as_str()) {
        Some(d) => d == q.season_end,
        None => false,
    };
    start_ok && end_ok
}

/// A field-wise copy of a competition record.
fn clone_competition(c: &EngineCompetition) -> (r: EngineCompetition)
    ensures
        r == *c,
{
    EngineCompetition {
        id: c.id.clone(),
        name: c.name.clone(),
        location: c.location.clone(),
        gender: c.gender,
        season_start: c.season_start,
        season_end: c.season_end,
    }
}

/// Where the ingest stands: which response it waits for, and what is
/// still to fetch in the per-competitor fan-out.
#[derive(Debug)]
pub enum IngestState {
    AwaitingCompetitions,
    AwaitingSeasons { competition: EngineCompetition },
    AwaitingCompetitors { competition: EngineCompetition, season_id: String },
    Fanout { competition: EngineCompetition, season_id: String, remaining: Vec<Competitor> },
    Finished,
}

/// One fetched response, handed back to the step machine.
#[derive(Debug)]
pub enum IngestEvent {
    Competitions { response: CompetitionsResponse },
    Seasons { response: SeasonsResponse },
    Competitors { response: CompetitorsResponse },
    Stats { result: Result<PlayerStatisticsResponse, FetchError> },
}

/// What the driver must do next: perform one fetch, or stop.
#[derive(Debug)]
pub enum IngestAction {
    FetchCompetitions,
    FetchSeasons { competition_id: String },
    FetchCompetitors { season_id: String },
    FetchStats { season_id: String, competitor_id: String },
    Done,
    Fail { error: IngestError },
}

/// Which event a state consumes.
pub open spec fn spec_state_accepts(state: IngestState, event: IngestEvent) -> bool {
    match (state, event) {
        (IngestState::AwaitingCompetitions, IngestEvent::Competitions { .. }) => true,
        (IngestState::AwaitingSeasons { .. }, IngestEvent::Seasons { .. }) => true,
        (IngestState::AwaitingCompetitors { .. }, IngestEvent::Competitors { .. }) => true,
        (IngestState::Fanout { .. }, IngestEvent::Stats { .. }) => true,
        _ => false,
    }
}

/// No repository changed.
pub open spec fn spec_db_unchanged(old_db: Db, new_db: Db) -> bool {
    &&& new_db.players.entries() == old_db.players.entries()
    &&& new_db.competitions.entries() == old_db.competitions.entries()
    &&& new_db.teams.entries() == old_db.teams.entries()
    &&& new_db.players_stats.entries() == old_db.players_stats.entries()
}

/// The transition table of the ingest: what one step yields as next state
/// and action, and what it does to the store.
pub open spec fn spec_transition(
    q: Query,
    state: IngestState,
    event: IngestEvent,
    old_db: Db,
    new_state: IngestState,
    action: IngestAction,
    new_db: Db,
) -> bool {
    match (state, event) {
        (IngestState::AwaitingCompetitions, IngestEvent::Competitions { response }) => {
            &&& spec_db_unchanged(old_db, new_db)
            &&& match spec_find_competition(response.competitions@, q) {
                Err(e) => new_state is Finished && action == (IngestAction::Fail { error: e }),
                Ok(c) => {
                    &&& new_state == (IngestState::AwaitingSeasons { competition: c })
                    &&& action == (IngestAction::FetchSeasons { competition_id: c.id })
                },
            }
        },
        (IngestState::AwaitingSeasons { competition }, IngestEvent::Seasons { response }) => {
            &&& spec_db_unchanged(old_db, new_db)
            &&& match spec_find_season(response.seasons@, q) {
                Err(e) => new_state is Finished && action == (IngestAction::Fail { error: e }),
                Ok(season) => {
                    &&& new_state == (IngestState::AwaitingCompetitors {
                        competition,
                        season_id: season.id,
                    })
                    &&& action == (IngestAction::FetchCompetitors { season_id: season.id })
                },
            }
        },
        (
            IngestState::AwaitingCompetitors { competition, season_id },
            IngestEvent::Competitors { response },
        ) => {
            &&& new_db.competitions.entries() == spec_upsert(
                old_db.competitions.entries(),
                competition.id@,
                competition,
            )
            &&& new_db.players.entries() == old_db.players.entries()
            &&& new_db.teams.entries() == old_db.teams.entries()
            &&& new_db.players_stats.entries() == old_db.players_stats.entries()
            &&& if response.season_competitors@.len() == 0 {
                new_state is Finished && action is Done
            } else {
                &&& match new_state {
                    IngestState::Fanout { competition: c2, season_id: s2, remaining } => c2
                        == competition && s2 == season_id && remaining@
                        =~= response.season_competitors@.drop_first(),
                    _ => false,
                }
                &&& action == (IngestAction::FetchStats {
                    season_id,
                    competitor_id: response.season_competitors@[0].id,
                })
            }
        },
        (
            IngestState::Fanout { competition, season_id, remaining },
            IngestEvent::Stats { result },
        ) => {
            &&& spec_ingest_effect(result, competition.id@, old_db, new_db)
            &&& if remaining@.len() == 0 {
                new_state is Finished && action is Done
            } else {
                &&& match new_state {
                    IngestState::Fanout { competition: c2, season_id: s2, remaining: r2 } => c2
                        == competition && s2 == season_id && r2@ =~= remaining@.drop_first(),
                    _ => false,
                }
                &&& action == (IngestAction::FetchStats {
                    season_id,
                    competitor_id: remaining@[0].id,
                })
            }
        },
        _ => false,
    }
}

/// The ingest orchestrator.
#[derive(Debug, Clone, PartialEq)]
pub struct Scrapper;

impl Scrapper {
    /// Matches the query against the competitions listing: single pass,
    /// first match wins; no match is fatal, and a matched competition
    /// without a reported gender is refused.
    pub fn find_competition(
        &self,
        competitions_response: &CompetitionsResponse,
        query: &Query,
    ) -> (r: Result<EngineCompetition, IngestError>)
        ensures
            r == spec_find_competition(competitions_response.competitions@, *query),
    {
        let comps = &competitions_response.competitions;
        let ghost all = comps@;
        let n = comps.len();
        let mut i: usize = 0;
        proof {
            assert(all.skip(0) =~= all);
        }
        while i < n
            invariant
                n == all.len(),
                i <= n,
                all == comps@,
                all == competitions_response.competitions@,
                spec_find_competition(all, *query) == spec_find_competition(
                    all.skip(i as int),
                    *query,
                ),
            decreases n - i,
        {
            let c = &comps[i];
            proof {
                assert(all.skip(i as int)[0] == all[i as int]);
                assert(all.skip(i as int).drop_first() =~= all.skip(i as int + 1));
            }
            if source_matches(c, query) {
                match &c.gender {
                    None => {
                        return Err(IngestError::InvalidGender);
                    },
                    Some(_) => {
                        return Ok(
                            EngineCompetition {
                                id: c.id.clone(),
                                name: c.name.clone(),
                                location: c.category.name.clone(),
                                gender: query.gender,
                                season_start: query.season_start,
                                season_end: query.season_end,
                            },
                        );
                    },
                }
            }
            i = i + 1;
        }
        proof {
            assert(all.skip(n as int).len() == 0);
        }
        Err(IngestError::CompetitionNotFound)
    }

    /// Matches the query against a seasons listing: single pass, first
    /// season whose parsed start and end dates equal the query's exactly;
    /// no match is fatal.
    pub fn find_season(&self, seasons_response: &SeasonsResponse, query: &Query) -> (r: Result<
        Season,
        IngestError,
    >)
        ensures
            r == spec_find_season(seasons_response.seasons@, *query),
    {
        let seasons = &seasons_response.seasons;
        let ghost all = seasons@;
        let n = seasons.len();
        let mut i: usize = 0;
        proof {
            assert(all.skip(0) =~= all);
        }
        while i < n
            invariant
                n == all.len(),
                i <= n,
                all == seasons@,
                all == seasons_response.seasons@,
                spec_find_season(all, *query) == spec_find_season(all.skip(i as int), *query),
            decreases n - i,
        {
            let s = &seasons[i];
            proof {
                assert(all.skip(i as int)[0] == all[i as int]);
                assert(all.skip(i as int).drop_first() =~= all.skip(i as int + 1));
            }
            if season_matches(s, query) {
                return Ok(
                    Season {
                        id: s.id.clone(),
                        name: s.name.clone(),
                        start_date: s.start_date.clone(),
                        end_date: s.end_date.clone(),
                        year: s.year.clone(),
                        competition_id: s.competition_id.clone(),
                    },
                );
            }
            i = i + 1;
        }
        proof {
            assert(all.skip(n as int).len() == 0);
        }
        Err(IngestError::SeasonNotFound)
    }

    /// Begins an ingest run: the first thing to do is fetch the
    /// competitions listing.
    pub fn start(&self) -> (r: (IngestState, IngestAction))
        ensures
            r.0 == IngestState::AwaitingCompetitions,
            r.1 == IngestAction::FetchCompetitions,
    {
        (IngestState::AwaitingCompetitions, IngestAction::FetchCompetitions)
    }

    /// Consumes one fetched response and decides the next fetch, per the
    /// transition table `spec_transition`: competitions are matched, then
    /// seasons, then the matched competition is stored and one statistics
    /// fetch per competitor is issued in order; a failed statistics fetch
    /// skips only that competitor.
    pub fn step(
        &self,
        state: IngestState,
        event: IngestEvent,
        query: &Query,
        db: &mut Db,
    ) -> (r: (IngestState, IngestAction))
        requires
            spec_state_accepts(state, event),
            old(db).wf(),
        ensures
            final(db).wf(),
            spec_transition(*query, state, event, *old(db), r.0, r.1, *final(db)),
    {
        match (state, event) {
            (IngestState::AwaitingCompetitions, IngestEvent::Competitions { response }) => {
                match self.find_competition(&response, query) {
                    Err(e) => (IngestState::Finished, IngestAction::Fail { error: e }),
                    Ok(c) => {
                        let competition_id = c.id.clone();
                        (
                            IngestState::AwaitingSeasons { competition: c },
                            IngestAction::FetchSeasons { competition_id },
                        )
                    },
                }
            },
            (IngestState::AwaitingSeasons { competition }, IngestEvent::Seasons { response }) => {
                match self.find_season(&response, query) {
                    Err(e) => (IngestState::Finished, IngestAction::Fail { error: e }),
                    Ok(season) => {
                        let season_id = season.id;
                        let requested_id = season_id.clone();
                        (
                            IngestState::AwaitingCompetitors { competition, season_id },
                            IngestAction::FetchCompetitors { season_id: requested_id },
                        )
                    },
                }
            },
            (
                IngestState::AwaitingCompetitors { competition, season_id },
                IngestEvent::Competitors { response },
            ) => {
                let stored = clone_competition(&competition);
                db.competitions.push(stored);
                let mut remaining = response.season_competitors;
                if remaining.len() == 0 {
                    (IngestState::Finished, IngestAction::Done)
                } else {
                    let first = remaining.remove(0);
                    let requested_id = season_id.clone();
                    (
                        IngestState::Fanout { competition, season_id, remaining },
                        IngestAction::FetchStats {
                            season_id: requested_id,
                            competitor_id: first.id,
                        },
                    )
                }
            },
            (
                IngestState::Fanout { competition, season_id, remaining },
                IngestEvent::Stats { result },
            ) => {
                consumer_callback(result, &competition.id, db);
                let mut remaining = remaining;
                if remaining.len() == 0 {
                    (IngestState::Finished, IngestAction::Done)
                } else {
                    let first = remaining.remove(0);
                    let requested_id = season_id.clone();
                    (
                        IngestState::Fanout { competition, season_id, remaining },
                        IngestAction::FetchStats {
                            season_id: requested_id,
                            competitor_id: first.id,
                        },
                    )
                }
            },
            _ => {
                proof {
                    assert(false);
                }
                vstd::pervasive::unreached()
            },
        }
    }
}

} // verus!
