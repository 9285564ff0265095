//! The four endpoint URLs of the data source, assembled from the client
//! configuration: each call is one HTTP GET against one of these, with the
//! API key as a query parameter.

use vstd::prelude::*;
use vstd::string::StringExecFns;

use crate::sport_radar::config::SportRadarConfig;
use crate::sport_radar::utils::construct_url;

verus! {

/// The shared prefix of every endpoint: scheme, host, access level and
/// language.
pub open spec fn spec_base_url(c: SportRadarConfig) -> Seq<char> {
    "https://api.sportradar.com/soccer/"@ + c.spec_access_level() + "/v4/"@
        + c.spec_language_code() + "/"@
}

/// The API-key query string appended to every endpoint.
pub open spec fn spec_key_suffix(c: SportRadarConfig) -> Seq<char> {
    "?"@ + "api_key"@ + "="@ + c.spec_api_key()
}

/// The URL of the competitions listing.
pub open spec fn spec_competitions_url(c: SportRadarConfig) -> Seq<char> {
    spec_base_url(c) + "competitions."@ + c.spec_format() + spec_key_suffix(c)
}

/// The URL of a competition's seasons listing.
pub open spec fn spec_competition_seasons_url(c: SportRadarConfig, competition_id: Seq<
    char,
>) -> Seq<char> {
    spec_base_url(c) + "competitions/"@ + competition_id + "/seasons."@ + c.spec_format()
        + spec_key_suffix(c)
}

/// The URL of a season's competitors listing.
pub open spec fn spec_season_competitors_url(c: SportRadarConfig, season_id: Seq<char>) -> Seq<
    char,
> {
    spec_base_url(c) + "seasons/"@ + season_id + "/competitors."@ + c.spec_format()
        + spec_key_suffix(c)
}

/// The URL of one competitor's statistics for one season.
pub open spec fn spec_seasonal_competitor_statistics_url(
    c: SportRadarConfig,
    season_id: Seq<char>,
    competitor_id: Seq<char>,
) -> Seq<char> {
    spec_base_url(c) + "seasons/"@ + season_id + "/competitors/"@ + competitor_id + "/statistics."@
        + c.spec_format() + spec_key_suffix(c)
}

/// The shared prefix, assembled.
fn base_url(config: &SportRadarConfig) -> (r: String)
    ensures
        r@ == spec_base_url(*config),
{
    let mut base = String::from_str("https://api.sportradar.com/soccer/");
    base.append(config.access_level());
    base.append("/v4/");
    base.append(config.language_code());
    base.append("/");
    base
}

/// Appends the API key and finishes the URL.
fn finish_url(base: String, config: &SportRadarConfig) -> (r: String)
    ensures
        r@ == base@ + spec_key_suffix(*config),
{
    let mut params: Vec<(&str, &str)> = Vec::new();
    params.push(("api_key", config.api_key()));
    let url = construct_url(base.as_str(), params.as_slice());
    proof {
        assert(url@ =~= base@ + spec_key_suffix(*config));
    }
    url
}

/// The URL the client fetches the competitions listing from.
pub fn competitions_url(config: &SportRadarConfig) -> (r: String)
    ensures
        r@ == spec_competitions_url(*config),
{
    let mut base = base_url(config);
    base.append("competitions.");
    base.append(config.format());
    finish_url(base, config)
}

/// The URL the client fetches a competition's seasons from.
pub fn competition_seasons_url(config: &SportRadarConfig, competition_id: &str) -> (r: String)
    ensures
        r@ == spec_competition_seasons_url(*config, competition_id@),
{
    let mut base = base_url(config);
    base.append("competitions/");
    base.append(competition_id);
    base.append("/seasons.");
    base.append(config.format());
    finish_url(base, config)
}

/// The URL the client fetches a season's competitors from.
pub fn season_competitors_url(config: &SportRadarConfig, season_id: &str) -> (r: String)
    ensures
        r@ == spec_season_competitors_url(*config, season_id@),
{
    let mut base = base_url(config);
    base.append("seasons/");
    base.append(season_id);
    base.append("/competitors.");
    base.append(config.format());
    finish_url(base, config)
}

/// The URL the client fetches one competitor's seasonal statistics from.
pub fn seasonal_competitor_statistics_url(
    config: &SportRadarConfig,
    season_id: &str,
    competitor_id: &str,
) -> (r: String)
    ensures
        r@ == spec_seasonal_competitor_statistics_url(*config, season_id@, competitor_id@),
{
    let mut base = base_url(config);
    base.append("seasons/");
    base.append(season_id);
    base.append("/competitors/");
    base.append(competitor_id);
    base.append("/statistics.");
    base.append(config.format());
    finish_url(base, config)
}

} // verus!
