use sport_analytics::sport_radar::config::SportRadarConfig;
use sport_analytics::sport_radar::urls::{
    competition_seasons_url, competitions_url, season_competitors_url,
    seasonal_competitor_statistics_url,
};
use sport_analytics::sport_radar::utils::construct_url;

fn config() -> SportRadarConfig {
    SportRadarConfig::new("demo-key".to_string(), None, None, None)
}

#[test]
fn absent_parts_fall_back_to_defaults() {
    let c = config();
    assert_eq!(c.api_key(), "demo-key");
    assert_eq!(c.access_level(), "trial");
    assert_eq!(c.language_code(), "en");
    assert_eq!(c.format(), "json");
}

#[test]
fn given_parts_are_kept() {
    let c = SportRadarConfig::new(
        "k".to_string(),
        Some("production".to_string()),
        Some("de".to_string()),
        Some("xml".to_string()),
    );
    assert_eq!(c.api_key(), "k");
    assert_eq!(c.access_level(), "production");
    assert_eq!(c.language_code(), "de");
    assert_eq!(c.format(), "xml");
}

#[test]
fn joins_base_and_parameters() {
    assert_eq!(
        construct_url("https://example.net/a", &[("api_key", "k")]),
        "https://example.net/a?api_key=k"
    );
    assert_eq!(
        construct_url("https://example.net/a", &[("x", "1"), ("y", "2")]),
        "https://example.net/a?x=1&y=2"
    );
    assert_eq!(construct_url("https://example.net/a", &[]), "https://example.net/a?");
}

#[test]
fn endpoint_urls() {
    let c = config();
    assert_eq!(
        competitions_url(&c),
        "https://api.sportradar.com/soccer/trial/v4/en/competitions.json?api_key=demo-key"
    );
    assert_eq!(
        competition_seasons_url(&c, "sr:competition:17"),
        "https://api.sportradar.com/soccer/trial/v4/en/competitions/sr:competition:17/seasons.json?api_key=demo-key"
    );
    assert_eq!(
        season_competitors_url(&c, "sr:season:105353"),
        "https://api.sportradar.com/soccer/trial/v4/en/seasons/sr:season:105353/competitors.json?api_key=demo-key"
    );
    assert_eq!(
        seasonal_competitor_statistics_url(&c, "sr:season:105353", "sr:competitor:44"),
        "https://api.sportradar.com/soccer/trial/v4/en/seasons/sr:season:105353/competitors/sr:competitor:44/statistics.json?api_key=demo-key"
    );
}
