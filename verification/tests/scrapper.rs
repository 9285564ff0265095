use sport_analytics::date::Date;
use sport_analytics::db::Db;
use sport_analytics::engine::{Dimension, Engine, MetricKind, Sort};
use sport_analytics::errors::{FetchError, IngestError};
use sport_analytics::repo::in_memo::InMemoRepository;
use sport_analytics::repo::model::Gender;
use sport_analytics::scrapper::{IngestAction, IngestEvent, IngestState, Query, Scrapper};
use sport_analytics::sport_radar::model::{
    Competition, CompetitionCategory, CompetitionGender, CompetitionsResponse, Competitor,
    CompetitorDetails, CompetitorGender, CompetitorsResponse, Player, PlayerStatistics,
    PlayerStatisticsResponse, Season, SeasonDetails, SeasonsResponse, Sport,
};

fn date(year: u32, month: u32, day: u32) -> Date {
    Date::new(year, month, day).unwrap()
}

fn query() -> Query {
    Query {
        event: "Premier League".to_string(),
        location: "England".to_string(),
        gender: Gender::Male,
        season_start: date(2023, 8, 11),
        season_end: date(2024, 5, 19),
    }
}

fn competition(id: &str, name: &str, location: &str, gender: Option<CompetitionGender>) -> Competition {
    Competition {
        id: id.to_string(),
        name: name.to_string(),
        gender,
        category: CompetitionCategory { id: format!("cat-{}", id), name: location.to_string() },
    }
}

fn competitions_response(competitions: Vec<Competition>) -> CompetitionsResponse {
    CompetitionsResponse { generated_at: "2024-06-01T00:00:00Z".to_string(), competitions }
}

fn season(id: &str, start: &str, end: &str) -> Season {
    Season {
        id: id.to_string(),
        name: "23/24".to_string(),
        start_date: start.to_string(),
        end_date: end.to_string(),
        year: "23/24".to_string(),
        competition_id: "sr:competition:17".to_string(),
    }
}

fn default_statistics() -> PlayerStatistics {
    PlayerStatistics {
        assists: 0,
        cards_given: None,
        goals_by_head: 0,
        goals_by_penalty: 0,
        goals_conceded: 0,
        goals_scored: 0,
        matches_played: 0,
        offsides: None,
        own_goals: 0,
        penalties_missed: 0,
        red_cards: 0,
        shots_off_target: None,
        substituted_in: 0,
        substituted_out: 0,
        yellow_cards: 0,
        yellow_red_cards: 0,
    }
}

fn player(id: &str, name: &str, goals: u32, assists: u32) -> Player {
    Player {
        id: id.to_string(),
        name: name.to_string(),
        statistics: PlayerStatistics { goals_scored: goals, assists, ..default_statistics() },
    }
}

fn stats_response(team_id: &str, team_name: &str, abbr: &str, players: Vec<Player>) -> PlayerStatisticsResponse {
    PlayerStatisticsResponse {
        generated_at: "2024-06-01T00:00:00Z".to_string(),
        season: SeasonDetails {
            id: "sr:season:105353".to_string(),
            name: "23/24".to_string(),
            start_date: "2023-08-11".to_string(),
            end_date: "2024-05-19".to_string(),
            year: "23/24".to_string(),
            competition_id: "sr:competition:17".to_string(),
            sport: Sport { id: "sr:sport:1".to_string(), name: "Soccer".to_string() },
        },
        competitor: CompetitorDetails {
            id: team_id.to_string(),
            name: team_name.to_string(),
            country: "England".to_string(),
            country_code: "ENG".to_string(),
            abbreviation: abbr.to_string(),
            gender: CompetitorGender::Male,
            players,
        },
    }
}

#[test]
fn find_competition_first_match_wins() {
    let response = competitions_response(vec![
        competition("sr:competition:1", "La Liga", "Spain", Some(CompetitionGender::Men)),
        competition("sr:competition:17", "Premier League", "England", Some(CompetitionGender::Men)),
        competition("sr:competition:18", "Premier League", "England", Some(CompetitionGender::Men)),
    ]);
    let found = Scrapper.find_competition(&response, &query()).unwrap();
    assert_eq!(found.id, "sr:competition:17");
    assert_eq!(found.name, "Premier League");
    assert_eq!(found.location, "England");
    assert_eq!(found.gender, Gender::Male);
    assert_eq!(found.season_start, date(2023, 8, 11));
    assert_eq!(found.season_end, date(2024, 5, 19));
}

#[test]
fn find_competition_not_found_is_fatal() {
    let response = competitions_response(vec![
        competition("sr:competition:1", "La Liga", "Spain", Some(CompetitionGender::Men)),
        competition("sr:competition:2", "Premier League", "England", Some(CompetitionGender::Women)),
    ]);
    assert_eq!(
        Scrapper.find_competition(&response, &query()),
        Err(IngestError::CompetitionNotFound)
    );
}

#[test]
fn find_competition_without_gender_is_refused() {
    let response = competitions_response(vec![competition(
        "sr:competition:17",
        "Premier League",
        "England",
        None,
    )]);
    assert_eq!(
        Scrapper.find_competition(&response, &query()),
        Err(IngestError::InvalidGender)
    );
}

#[test]
fn find_season_matches_exact_dates() {
    let response = SeasonsResponse {
        generated_at: "2024-06-01T00:00:00Z".to_string(),
        seasons: vec![
            season("sr:season:1", "2022-08-05", "2023-05-28"),
            season("sr:season:105353", "2023-08-11", "2024-05-19"),
        ],
    };
    let found = Scrapper.find_season(&response, &query()).unwrap();
    assert_eq!(found.id, "sr:season:105353");

    let response = SeasonsResponse {
        generated_at: "2024-06-01T00:00:00Z".to_string(),
        seasons: vec![
            season("sr:season:1", "2022-08-05", "2023-05-28"),
            season("sr:season:2", "not-a-date", "2024-05-19"),
        ],
    };
    assert_eq!(
        Scrapper.find_season(&response, &query()),
        Err(IngestError::SeasonNotFound)
    );
}

#[test]
fn failed_stats_fetch_skips_the_competitor() {
    let mut db = Db::new();
    sport_analytics::scrapper::consumer_callback(
        Err(FetchError::Transport),
        &"sr:competition:17".to_string(),
        &mut db,
    );
    assert!(db.teams.all().is_empty());
    assert!(db.players.all().is_empty());
    assert!(db.players_stats.all().is_empty());
}

#[test]
fn consumer_normalizes_one_response() {
    let mut db = Db::new();
    let response = stats_response(
        "sr:competitor:17",
        "Manchester City",
        "MCI",
        vec![
            player("sr:player:1630398", "Alvarez, Julian", 10, 3),
            player("sr:player:1047129", "Foden, Phil", 7, 5),
        ],
    );
    sport_analytics::scrapper::consumer_callback(
        Ok(response),
        &"sr:competition:17".to_string(),
        &mut db,
    );

    assert_eq!(db.teams.all().len(), 1);
    let team = db.teams.find(&"sr:competitor:17".to_string()).unwrap();
    assert_eq!(team.name, "Manchester City");
    assert_eq!(team.abbreviation, "MCI");

    assert_eq!(db.players.all().len(), 2);
    assert_eq!(
        db.players.find(&"sr:player:1047129".to_string()).unwrap().name,
        "Foden, Phil"
    );

    assert_eq!(db.players_stats.all().len(), 2);
    let key = "sr:player:1630398::sr:competitor:17::sr:competition:17".to_string();
    let record = db.players_stats.find(&key).unwrap();
    assert_eq!(record.metrics.len(), 2);
    assert_eq!(record.metrics[0].value(), 10);
    assert_eq!(record.metrics[1].value(), 3);
}

#[test]
fn ingest_runs_end_to_end_and_answers_the_query() {
    let scrapper = Scrapper;
    let q = query();
    let mut db = Db::new();

    let (state, action) = scrapper.start();
    assert!(matches!(action, IngestAction::FetchCompetitions));

    let competitions = competitions_response(vec![
        competition("sr:competition:1", "La Liga", "Spain", Some(CompetitionGender::Men)),
        competition("sr:competition:17", "Premier League", "England", Some(CompetitionGender::Men)),
    ]);
    let (state, action) = scrapper.step(
        state,
        IngestEvent::Competitions { response: competitions },
        &q,
        &mut db,
    );
    match &action {
        IngestAction::FetchSeasons { competition_id } => {
            assert_eq!(competition_id, "sr:competition:17")
        }
        other => panic!("unexpected action {:?}", other),
    }

    let seasons = SeasonsResponse {
        generated_at: "2024-06-01T00:00:00Z".to_string(),
        seasons: vec![
            season("sr:season:1", "2022-08-05", "2023-05-28"),
            season("sr:season:105353", "2023-08-11", "2024-05-19"),
        ],
    };
    let (state, action) = scrapper.step(state, IngestEvent::Seasons { response: seasons }, &q, &mut db);
    match &action {
        IngestAction::FetchCompetitors { season_id } => assert_eq!(season_id, "sr:season:105353"),
        other => panic!("unexpected action {:?}", other),
    }

    let competitors = CompetitorsResponse {
        generated_at: "2024-06-01T00:00:00Z".to_string(),
        season_competitors: vec![
            Competitor {
                id: "sr:competitor:17".to_string(),
                name: "Manchester City".to_string(),
                short_name: "Man City".to_string(),
                abbreviation: "MCI".to_string(),
            },
            Competitor {
                id: "sr:competitor:33".to_string(),
                name: "Tottenham Hotspur".to_string(),
                short_name: "Tottenham".to_string(),
                abbreviation: "TOT".to_string(),
            },
        ],
    };
    let (state, action) = scrapper.step(
        state,
        IngestEvent::Competitors { response: competitors },
        &q,
        &mut db,
    );
    match &action {
        IngestAction::FetchStats { season_id, competitor_id } => {
            assert_eq!(season_id, "sr:season:105353");
            assert_eq!(competitor_id, "sr:competitor:17");
        }
        other => panic!("unexpected action {:?}", other),
    }
    assert_eq!(db.competitions.all().len(), 1);

    let city = stats_response(
        "sr:competitor:17",
        "Manchester City",
        "MCI",
        vec![
            player("sr:player:1630398", "Alvarez, Julian", 10, 3),
            player("sr:player:1047129", "Foden, Phil", 7, 5),
        ],
    );
    let (state, action) = scrapper.step(state, IngestEvent::Stats { result: Ok(city) }, &q, &mut db);
    match &action {
        IngestAction::FetchStats { competitor_id, .. } => {
            assert_eq!(competitor_id, "sr:competitor:33")
        }
        other => panic!("unexpected action {:?}", other),
    }

    let spurs = stats_response(
        "sr:competitor:33",
        "Tottenham Hotspur",
        "TOT",
        vec![player("sr:player:952278", "Romero, Cristian", 4, 9)],
    );
    let (state, action) = scrapper.step(state, IngestEvent::Stats { result: Ok(spurs) }, &q, &mut db);
    assert!(matches!(state, IngestState::Finished));
    assert!(matches!(action, IngestAction::Done));

    assert_eq!(db.teams.all().len(), 2);
    assert_eq!(db.players.all().len(), 3);
    assert_eq!(db.players_stats.all().len(), 3);

    let engine_query = sport_analytics::engine::Query {
        event: q.event.clone(),
        location: q.location.clone(),
        season_start: q.season_start,
        season_end: q.season_end,
        gender: q.gender,
        dimension: Dimension::Player,
        metric: MetricKind::GoalsScored,
        sort: Sort::Desc,
        limit: 2,
    };
    let results = Engine.execute(&db.players, &db.teams, &db.players_stats, &db.competitions, &engine_query);
    let ids: Vec<&str> = results.iter().map(|r| r.dimension.player_id.as_str()).collect();
    assert_eq!(ids, vec!["sr:player:1630398", "sr:player:1047129"]);
    assert_eq!(results[0].value, 10);
    assert_eq!(results[1].value, 7);
}

#[test]
fn a_failed_competitor_does_not_abort_the_fanout() {
    let scrapper = Scrapper;
    let q = query();
    let mut db = Db::new();

    let (state, _) = scrapper.start();
    let (state, _) = scrapper.step(
        state,
        IngestEvent::Competitions {
            response: competitions_response(vec![competition(
                "sr:competition:17",
                "Premier League",
                "England",
                Some(CompetitionGender::Men),
            )]),
        },
        &q,
        &mut db,
    );
    let (state, _) = scrapper.step(
        state,
        IngestEvent::Seasons {
            response: SeasonsResponse {
                generated_at: "g".to_string(),
                seasons: vec![season("sr:season:105353", "2023-08-11", "2024-05-19")],
            },
        },
        &q,
        &mut db,
    );
    let (state, _) = scrapper.step(
        state,
        IngestEvent::Competitors {
            response: CompetitorsResponse {
                generated_at: "g".to_string(),
                season_competitors: vec![
                    Competitor {
                        id: "sr:competitor:17".to_string(),
                        name: "Manchester City".to_string(),
                        short_name: "Man City".to_string(),
                        abbreviation: "MCI".to_string(),
                    },
                    Competitor {
                        id: "sr:competitor:33".to_string(),
                        name: "Tottenham Hotspur".to_string(),
                        short_name: "Tottenham".to_string(),
                        abbreviation: "TOT".to_string(),
                    },
                ],
            },
        },
        &q,
        &mut db,
    );

    // The first competitor's fetch fails: it is skipped, the run goes on.
    let (state, action) = scrapper.step(
        state,
        IngestEvent::Stats { result: Err(FetchError::Transport) },
        &q,
        &mut db,
    );
    assert!(matches!(action, IngestAction::FetchStats { .. }));

    let spurs = stats_response(
        "sr:competitor:33",
        "Tottenham Hotspur",
        "TOT",
        vec![player("sr:player:952278", "Romero, Cristian", 4, 9)],
    );
    let (_, action) = scrapper.step(state, IngestEvent::Stats { result: Ok(spurs) }, &q, &mut db);
    assert!(matches!(action, IngestAction::Done));

    assert_eq!(db.teams.all().len(), 1, "only the competitor that answered is stored");
    assert_eq!(db.players.all().len(), 1);
    assert_eq!(db.players_stats.all().len(), 1);
}

#[test]
fn an_unmatched_query_fails_the_run() {
    let scrapper = Scrapper;
    let q = query();
    let mut db = Db::new();

    let (state, _) = scrapper.start();
    let (state, action) = scrapper.step(
        state,
        IngestEvent::Competitions { response: competitions_response(vec![]) },
        &q,
        &mut db,
    );
    assert!(matches!(state, IngestState::Finished));
    assert_eq!(
        match action {
            IngestAction::Fail { error } => error,
            other => panic!("unexpected action {:?}", other),
        },
        IngestError::CompetitionNotFound
    );
    assert_eq!(IngestError::CompetitionNotFound.message(), "competition not found");
    assert_eq!(IngestError::SeasonNotFound.message(), "season not found");
    assert_eq!(IngestError::InvalidGender.message(), "invalid gender in competition");
}
