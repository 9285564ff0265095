use sport_analytics::repo::competitions::CompetitionsRepo;
use sport_analytics::repo::in_memo::InMemoRepository;
use sport_analytics::repo::model::{Metric, Player, PlayerStats, Team};
use sport_analytics::repo::player_stats::PlayerStatsRepo;
use sport_analytics::repo::players::PlayersRepo;
use sport_analytics::repo::teams::TeamsRepo;

fn player(id: &str, name: &str) -> Player {
    Player { id: id.to_string(), name: name.to_string() }
}

#[test]
fn push_stores_under_the_natural_key() {
    let mut repo = PlayersRepo::new();
    repo.push(player("sr:player:1", "Alvarez, Julian"));
    repo.push(player("sr:player:2", "Foden, Phil"));

    assert_eq!(repo.all().len(), 2);
    assert_eq!(
        repo.find(&"sr:player:1".to_string()).unwrap().name,
        "Alvarez, Julian"
    );
    assert!(repo.find(&"sr:player:3".to_string()).is_none());
}

#[test]
fn upsert_replaces_and_keeps_the_count() {
    let mut repo = PlayersRepo::new();
    repo.push(player("sr:player:1", "Alvarez, J."));
    repo.push(player("sr:player:1", "Alvarez, Julian"));
    assert_eq!(repo.all().len(), 1, "a repeated key must not add an entry");
    assert_eq!(
        repo.find(&"sr:player:1".to_string()).unwrap().name,
        "Alvarez, Julian",
        "the later insert replaces the earlier value"
    );

    repo.push(player("sr:player:1", "Alvarez, Julian"));
    assert_eq!(repo.all().len(), 1, "repeating the same insert changes nothing");
}

#[test]
fn explicit_insert_uses_the_given_key() {
    let mut repo = TeamsRepo::new();
    repo.insert(
        "custom-key".to_string(),
        Team {
            id: "sr:competitor:17".to_string(),
            name: "Manchester City".to_string(),
            abbreviation: "MCI".to_string(),
        },
    );
    assert!(repo.find(&"custom-key".to_string()).is_some());
    assert!(repo.find(&"sr:competitor:17".to_string()).is_none());
}

#[test]
fn stats_use_the_composite_key() {
    let mut repo = PlayerStatsRepo::new();
    let record = PlayerStats {
        player_id: "sr:player:1".to_string(),
        team_id: "sr:competitor:17".to_string(),
        competition_id: "sr:competition:808".to_string(),
        metrics: vec![Metric::GoalsScored { value: 10 }],
    };
    repo.push(record.clone());
    assert!(
        repo.find(&"sr:player:1::sr:competitor:17::sr:competition:808".to_string()).is_some()
    );

    let mut replacement = record;
    replacement.metrics = vec![Metric::GoalsScored { value: 11 }];
    repo.push(replacement);
    assert_eq!(repo.all().len(), 1, "the same composite key is replaced, not duplicated");
    assert_eq!(
        repo.find(&"sr:player:1::sr:competitor:17::sr:competition:808".to_string())
            .unwrap()
            .metrics,
        vec![Metric::GoalsScored { value: 11 }]
    );

    repo.push(PlayerStats {
        player_id: "sr:player:1".to_string(),
        team_id: "sr:competitor:17".to_string(),
        competition_id: "sr:competition:16".to_string(),
        metrics: vec![Metric::GoalsScored { value: 2 }],
    });
    assert_eq!(repo.all().len(), 2, "another competition is another key");
}

#[test]
fn empty_repositories_find_nothing() {
    let competitions = CompetitionsRepo::new();
    assert!(competitions.all().is_empty());
    assert!(competitions.find(&"sr:competition:808".to_string()).is_none());
}

#[test]
fn metric_value_and_default() {
    assert_eq!(Metric::GoalsScored { value: 7 }.value(), 7);
    assert_eq!(Metric::Assists { value: 4 }.value(), 4);
    assert_eq!(Metric::default(), Metric::GoalsScored { value: 0 });
}
