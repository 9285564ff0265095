//! The query engine: given filter, dimension, metric, sort and limit, it
//! filters the stored player statistics, scores them by the chosen metric,
//! ranks them and joins each surviving record with its player, team and
//! competition.

use vstd::prelude::*;

use crate::date::Date;
use crate::repo::competitions::CompetitionsRepo;
use crate::repo::in_memo::{spec_find, spec_unique_keys, InMemoRepository};
use crate::repo::model::{Competition, Gender, Metric, Player, PlayerDetails, PlayerStats, Team};
use crate::repo::player_stats::PlayerStatsRepo;
use crate::repo::players::PlayersRepo;
use crate::repo::teams::TeamsRepo;
use vstd::relations::{sorted_by, total_ordering};
use vstd::seq_lib::group_to_multiset_ensures;
use vstd::seq_lib::lemma_sorted_unique;

verus! {

/// The entity type being ranked.
#[derive(Debug, Clone, Copy, PartialEq, Eq, Structural)]
pub enum Dimension {
    Player,
    Team,
}

impl Default for Dimension {
    fn default() -> (r: Self)
        ensures
            r == Dimension::Player,
    {
        Dimension::Player
    }
}

/// The direction of the ranking.
#[derive(Debug, Clone, Copy, PartialEq, Eq, Structural)]
pub enum Sort {
    Asc,
    Desc,
}

impl Default for Sort {
    fn default() -> (r: Self)
        ensures
            r == Sort::Asc,
    {
        Sort::Asc
    }
}

/// The metric kind a query ranks by.
#[derive(Debug, Clone, Copy, PartialEq, Eq, Structural)]
pub enum MetricKind {
    GoalsScored,
    Assists,
}

impl Default for MetricKind {
    fn default() -> (r: Self)
        ensures
            r == MetricKind::GoalsScored,
    {
        MetricKind::GoalsScored
    }
}

/// A ranking query: competition filter, dimension, metric, direction and
/// result limit.
#[derive(Debug, Clone, PartialEq)]
pub struct Query {
    pub event: String,
    pub location: String,
    pub season_start: Date,
    pub season_end: Date,
    pub gender: Gender,
    pub dimension: Dimension,
    pub metric: MetricKind,
    pub sort: Sort,
    pub limit: u8,
}

/// One ranked result: the joined identity, the metric asked for and its
/// value.
#[derive(Debug, Clone, PartialEq)]
pub struct QueryResponse<T> {
    pub dimension: T,
    pub metric: MetricKind,
    pub value: u32,
}

/// Whether a stored competition satisfies the query's five filter fields
/// exactly.
pub open spec fn spec_competition_matches(c: Competition, q: Query) -> bool {
    c.name@ == q.event@ && c.location@ == q.location@ && c.gender == q.gender && c.season_start
        == q.season_start && c.season_end == q.season_end
}

/// Whether the metric is of the given kind.
pub open spec fn spec_metric_kind_matches(m: Metric, kind: MetricKind) -> bool {
    match kind {
        MetricKind::GoalsScored => m is GoalsScored,
        MetricKind::Assists => m is Assists,
    }
}

/// The value of the first metric of the given kind; absence defaults to
/// zero.
pub open spec fn spec_metric_value(metrics: Seq<Metric>, kind: MetricKind) -> u32
    decreases metrics.len(),
{
    if metrics.len() == 0 {
        0u32
    } else if spec_metric_kind_matches(metrics[0], kind) {
        metrics[0].spec_value()
    } else {
        spec_metric_value(metrics.drop_first(), kind)
    }
}

/// Whether a statistics record survives the filter: its competition is
/// stored and matches the query.
pub open spec fn spec_stat_passes(
    stat: PlayerStats,
    comps: Seq<(Seq<char>, Competition)>,
    q: Query,
) -> bool {
    match spec_find(comps, stat.competition_id@) {
        Some(c) => spec_competition_matches(c, q),
        None => false,
    }
}

/// The records surviving the filter, in store order, as (store index,
/// metric value) pairs.
pub open spec fn spec_scored(
    stats: Seq<(Seq<char>, PlayerStats)>,
    comps: Seq<(Seq<char>, Competition)>,
    q: Query,
) -> Seq<(usize, u32)>
    decreases stats.len(),
{
    if stats.len() == 0 {
        Seq::empty()
    } else {
        let prefix = spec_scored(stats.drop_last(), comps, q);
        if spec_stat_passes(stats.last().1, comps, q) {
            prefix.push(
                (((stats.len() - 1) as usize), spec_metric_value(stats.last().1.metrics@, q.metric)),
            )
        } else {
            prefix
        }
    }
}

/// What holds of every scored pair: its index points at a stored record
/// that survives the filter, and its value is that record's metric value.
pub open spec fn spec_pair_ok(
    stats: Seq<(Seq<char>, PlayerStats)>,
    comps: Seq<(Seq<char>, Competition)>,
    q: Query,
    pair: (usize, u32),
) -> bool {
    &&& (pair.0 as int) < stats.len()
    &&& spec_stat_passes(stats[pair.0 as int].1, comps, q)
    &&& pair.1 == spec_metric_value(stats[pair.0 as int].1.metrics@, q.metric)
}

/// Every pair produced by the filter satisfies `spec_pair_ok`.
pub proof fn lemma_scored_ok(
    stats: Seq<(Seq<char>, PlayerStats)>,
    comps: Seq<(Seq<char>, Competition)>,
    q: Query,
)
    requires
        stats.len() <= usize::MAX,
    ensures
        forall|t: int|
            0 <= t < spec_scored(stats, comps, q).len() ==> spec_pair_ok(
                stats,
                comps,
                q,
                #[trigger] spec_scored(stats, comps, q)[t],
            ),
    decreases stats.len(),
{
    if stats.len() > 0 {
        lemma_scored_ok(stats.drop_last(), comps, q);
        assert forall|t: int|
            0 <= t < spec_scored(stats, comps, q).len() implies spec_pair_ok(
            stats,
            comps,
            q,
            #[trigger] spec_scored(stats, comps, q)[t],
        ) by {
            let prefix = spec_scored(stats.drop_last(), comps, q);
            if t < prefix.len() {
                assert(spec_pair_ok(stats.drop_last(), comps, q, prefix[t]));
                assert(stats.drop_last()[prefix[t].0 as int] == stats[prefix[t].0 as int]);
            } else {
                assert(spec_stat_passes(stats.last().1, comps, q));
                let pair = spec_scored(stats, comps, q)[t];
                assert(pair.0 as int == stats.len() - 1);
                assert(stats[pair.0 as int] == stats.last());
            }
        }
    }
}

/// The ranking order: by metric value in the query's direction, with the
/// store index as the deterministic secondary key.
pub open spec fn spec_rank_leq(sort: Sort, a: (usize, u32), b: (usize, u32)) -> bool {
    match sort {
        Sort::Asc => a.1 < b.1 || (a.1 == b.1 && a.0 <= b.0),
        Sort::Desc => a.1 > b.1 || (a.1 == b.1 && a.0 <= b.0),
    }
}

/// The ranking order as a relation value.
pub open spec fn spec_rank_order(sort: Sort) -> spec_fn((usize, u32), (usize, u32)) -> bool {
    |a: (usize, u32), b: (usize, u32)| spec_rank_leq(sort, a, b)
}

/// The ranking order is total, so the ranked sequence is unique.
pub proof fn lemma_rank_order_total(sort: Sort)
    ensures
        total_ordering(spec_rank_order(sort)),
{
    let leq = spec_rank_order(sort);
    assert forall|a: (usize, u32)| #[trigger] leq(a, a) by {}
    assert forall|a: (usize, u32), b: (usize, u32)| #[trigger] leq(a, b) && #[trigger] leq(b, a)
        implies a == b by {}
    assert forall|a: (usize, u32), b: (usize, u32), c: (usize, u32)|
        #[trigger] leq(a, b) && #[trigger] leq(b, c) implies leq(a, c) by {}
    assert forall|a: (usize, u32), b: (usize, u32)| #[trigger] leq(a, b) || #[trigger] leq(
        b,
        a,
    ) by {}
}

/// The fully ranked sequence of scored pairs for a query.
pub open spec fn spec_ranked(
    stats: Seq<(Seq<char>, PlayerStats)>,
    comps: Seq<(Seq<char>, Competition)>,
    q: Query,
) -> Seq<(usize, u32)> {
    spec_scored(stats, comps, q).sort_by(spec_rank_order(q.sort))
}

/// Executable twin of `spec_rank_leq`.
fn rank_leq(sort: Sort, a: (usize, u32), b: (usize, u32)) -> (r: bool)
    ensures
        r == spec_rank_leq(sort, a, b),
{
    match sort {
        Sort::Asc => a.1 < b.1 || (a.1 == b.1 && a.0 <= b.0),
        Sort::Desc => a.1 > b.1 || (a.1 == b.1 && a.0 <= b.0),
    }
}

/// Sorts the scored pairs by the ranking order; the result is the unique
/// sorted permutation of its input.
fn sort_pairs(pairs: &Vec<(usize, u32)>, sort: Sort) -> (r: Vec<(usize, u32)>)
    ensures
        r@ == pairs@.sort_by(spec_rank_order(sort)),
{
    broadcast use group_to_multiset_ensures;

    let ghost leq = spec_rank_order(sort);
    proof {
        lemma_rank_order_total(sort);
    }
    let mut out: Vec<(usize, u32)> = Vec::new();
    let n = pairs.len();
    let mut k: usize = 0;
    while k < n
        invariant
            n == pairs@.len(),
            k <= n,
            leq == spec_rank_order(sort),
            total_ordering(leq),
            sorted_by(out@, leq),
            out@.to_multiset() == pairs@.take(k as int).to_multiset(),
        decreases n - k,
    {
        let p = pairs[k];
        let mut pos: usize = 0;
        while pos < out.len() && rank_leq(sort, out[pos], p)
            invariant
                pos <= out@.len(),
                leq == spec_rank_order(sort),
                forall|t: int| 0 <= t < pos ==> leq(#[trigger] out@[t], p),
            decreases out@.len() - pos,
        {
            pos = pos + 1;
        }
        let ghost old_out = out@;
        out.insert(pos, p);
        proof {
            assert(out@ == old_out.insert(pos as int, p));
            vstd::seq_lib::to_multiset_insert(old_out, pos as int, p);
            assert(pairs@.take(k + 1).drop_last() =~= pairs@.take(k as int));
            assert(pairs@.take(k + 1) =~= pairs@.take(k as int).push(pairs@[k as int]));
            vstd::seq_lib::to_multiset_build(pairs@.take(k as int), pairs@[k as int]);
            assert(out@.to_multiset() == pairs@.take(k + 1).to_multiset());
            assert forall|a: int, b: int| 0 <= a < b < out@.len() implies #[trigger] leq(
                out@[a],
                out@[b],
            ) by {
                if b < pos {
                    assert(out@[a] == old_out[a] && out@[b] == old_out[b]);
                } else if b == pos {
                    assert(out@[a] == old_out[a]);
                    assert(leq(old_out[a], p));
                } else {
                    assert(out@[b] == old_out[b - 1]);
                    assert(pos <= b - 1 < old_out.len());
                    if a < pos {
                        assert(out@[a] == old_out[a]);
                        assert(leq(old_out[a], old_out[b - 1]));
                    } else if a == pos {
                        assert(out@[a] == p);
                        assert(!leq(old_out[pos as int], p));
                        assert(leq(p, old_out[pos as int]));
                        if pos < b - 1 {
                            assert(leq(old_out[pos as int], old_out[b - 1]));
                        }
                    } else {
                        assert(out@[a] == old_out[a - 1]);
                        assert(leq(old_out[a - 1], old_out[b - 1]));
                    }
                }
            }
        }
        k = k + 1;
    }
    proof {
        assert(pairs@.take(n as int) =~= pairs@);
        pairs@.lemma_sort_by_ensures(leq);
        lemma_sorted_unique(out@, pairs@.sort_by(leq), leq);
        assert(out@ =~= pairs@.sort_by(leq));
    }
    out
}

/// Executable twin of `spec_competition_matches`.
fn competition_matches(c: &Competition, q: &Query) -> (r: bool)
    ensures
        r == spec_competition_matches(*c, *q),
{
    c.name.eq(&q.event) && c.location.eq(&q.location) && c.gender == q.gender && c.season_start
        == q.season_start && c.season_end == q.season_end
}

/// Executable twin of `spec_metric_value`: the value of the first metric
/// of the kind, or zero when none is stored.
fn metric_value(metrics: &Vec<Metric>, kind: MetricKind) -> (v: u32)
    ensures
        v == spec_metric_value(metrics@, kind),
{
    let n = metrics.len();
    let mut j: usize = 0;
    proof {
        assert(metrics@.skip(0) =~= metrics@);
    }
    while j < n
        invariant
            n == metrics@.len(),
            j <= n,
            spec_metric_value(metrics@, kind) == spec_metric_value(metrics@.skip(j as int), kind),
        decreases n - j,
    {
        let found = match (metrics[j], kind) {
            (Metric::GoalsScored { value }, MetricKind::GoalsScored) => Some(value),
            (Metric::Assists { value }, MetricKind::Assists) => Some(value),
            _ => None,
        };
        proof {
            assert(metrics@.skip(j as int)[0] == metrics@[j as int]);
            assert(metrics@.skip(j as int).drop_first() =~= metrics@.skip(j + 1));
        }
        match found {
            Some(value) => {
                return value;
            },
            None => {
                j = j + 1;
            },
        }
    }
    proof {
        assert(metrics@.skip(n as int).len() == 0);
    }
    0
}

/// What holds of one result row: it reports the record its ranked pair
/// picked, with the query's metric kind, that record's metric value, and
/// the identities and names of the joined player, team and competition.
pub open spec fn spec_result_row(
    players: Seq<(Seq<char>, Player)>,
    teams: Seq<(Seq<char>, Team)>,
    comps: Seq<(Seq<char>, Competition)>,
    stats: Seq<(Seq<char>, PlayerStats)>,
    q: Query,
    pair: (usize, u32),
    row: QueryResponse<PlayerDetails>,
) -> bool {
    &&& spec_pair_ok(stats, comps, q, pair)
    &&& row.metric == q.metric
    &&& row.value == pair.1
    &&& {
        let stat = stats[pair.0 as int].1;
        &&& match spec_find(players, stat.player_id@) {
            Some(p) => row.dimension.player_id@ == p.id@ && row.dimension.player_name@ == p.name@,
            None => false,
        }
        &&& match spec_find(teams, stat.team_id@) {
            Some(t) => row.dimension.team_id@ == t.id@ && row.dimension.team_name@ == t.name@,
            None => false,
        }
        &&& match spec_find(comps, stat.competition_id@) {
            Some(c) => row.dimension.competition_id@ == c.id@ && row.dimension.competition_name@
                == c.name@,
            None => false,
        }
    }
}

/// The query engine.
#[derive(Debug, Clone, PartialEq)]
pub struct Engine;

impl Engine {
    /// Answers a ranking query against the four stores.
    ///
    /// The result holds, for every statistics record whose competition
    /// matches the query on all five filter fields, its value under the
    /// query's metric (zero when the metric is absent), ranked in the
    /// query's direction with the store position as the deterministic
    /// secondary key, truncated to the query's limit, and joined with the
    /// record's player, team and competition.
    pub fn execute(
        &self,
        players: &PlayersRepo,
        teams: &TeamsRepo,
        player_stats: &PlayerStatsRepo,
        competitions: &CompetitionsRepo,
        query: &Query,
    ) -> (r: Vec<QueryResponse<PlayerDetails>>)
        requires
            spec_unique_keys(players.entries()),
            spec_unique_keys(teams.entries()),
            spec_unique_keys(player_stats.entries()),
            spec_unique_keys(competitions.entries()),
            forall|i: int|
                0 <= i < player_stats.entries().len() && spec_stat_passes(
                    (#[trigger] player_stats.entries()[i]).1,
                    competitions.entries(),
                    *query,
                ) ==> spec_find(players.entries(), player_stats.entries()[i].1.player_id@) is Some
                    && spec_find(teams.entries(), player_stats.entries()[i].1.team_id@) is Some,
        ensures
            r@.len() == vstd::math::min(
                query.limit as int,
                spec_scored(player_stats.entries(), competitions.entries(), *query).len() as int,
            ),
            r@.len() <= query.limit as int,
            forall|i: int|
                0 <= i < r@.len() ==> spec_result_row(
                    players.entries(),
                    teams.entries(),
                    competitions.entries(),
                    player_stats.entries(),
                    *query,
                    spec_ranked(player_stats.entries(), competitions.entries(), *query)[i],
                    #[trigger] r@[i],
                ),
            forall|i: int, j: int|
                #![trigger r@[i], r@[j]]
                0 <= i < j < r@.len() ==> ((query.sort == Sort::Desc ==> r@[i].value
                    >= r@[j].value) && (query.sort == Sort::Asc ==> r@[i].value <= r@[j].value)),
    {
        let ghost stats_seq = player_stats.entries();
        let ghost comps_seq = competitions.entries();
        let stats_vec = player_stats.all();
        let n = stats_vec.len();
        let mut scored: Vec<(usize, u32)> = Vec::new();
        let mut i: usize = 0;
        proof {
            assert(stats_seq.take(0) =~= Seq::<(Seq<char>, PlayerStats)>::empty());
        }
        while i < n
            invariant
                n == stats_vec@.len(),
                i <= n,
                crate::repo::in_memo::spec_entries(stats_vec@) == stats_seq,
                comps_seq == competitions.entries(),
                spec_unique_keys(comps_seq),
                scored@ == spec_scored(stats_seq.take(i as int), comps_seq, *query),
            decreases n - i,
        {
            let stat = &stats_vec[i].1;
            proof {
                assert(stats_seq[i as int] == (stats_vec@[i as int].0@, stats_vec@[i as int].1));
            }
            let passes = match competitions.find(&stat.competition_id) {
                Some(c) => competition_matches(c, query),
                None => false,
            };
            proof {
                assert(stats_seq.take(i + 1).drop_last() =~= stats_seq.take(i as int));
                assert(stats_seq.take(i + 1).last() == stats_seq[i as int]);
                assert(passes == spec_stat_passes(stats_seq[i as int].1, comps_seq, *query));
            }
            if passes {
                let v = metric_value(&stat.metrics, query.metric);
                scored.push((i, v));
            }
            i = i + 1;
        }
        proof {
            assert(stats_seq.take(n as int) =~= stats_seq);
        }
        let sorted = sort_pairs(&scored, query.sort);
        let ghost order = spec_rank_order(query.sort);
        proof {
            lemma_rank_order_total(query.sort);
            lemma_scored_ok(stats_seq, comps_seq, *query);
            scored@.lemma_sort_by_ensures(order);
            scored@.to_multiset_ensures();
            sorted@.to_multiset_ensures();
            assert(sorted@.len() == scored@.len());
            assert forall|u: int| 0 <= u < sorted@.len() implies spec_pair_ok(
                stats_seq,
                comps_seq,
                *query,
                #[trigger] sorted@[u],
            ) by {
                assert(sorted@.to_multiset().count(sorted@[u]) > 0);
                assert(scored@.contains(sorted@[u]));
                let w = choose|w: int| 0 <= w < scored@.len() && scored@[w] == sorted@[u];
                assert(spec_pair_ok(stats_seq, comps_seq, *query, scored@[w]));
            }
        }
        let limit = query.limit as usize;
        let k = if limit < sorted.len() {
            limit
        } else {
            sorted.len()
        };
        let mut out: Vec<QueryResponse<PlayerDetails>> = Vec::new();
        let mut t: usize = 0;
        while t < k
            invariant
                t <= k,
                k == vstd::math::min(query.limit as int, sorted@.len() as int),
                sorted@ == spec_ranked(stats_seq, comps_seq, *query),
                stats_seq == player_stats.entries(),
                comps_seq == competitions.entries(),
                crate::repo::in_memo::spec_entries(stats_vec@) == stats_seq,
                n == stats_vec@.len(),
                spec_unique_keys(players.entries()),
                spec_unique_keys(teams.entries()),
                spec_unique_keys(comps_seq),
                forall|u: int|
                    0 <= u < stats_seq.len() && spec_stat_passes(
                        (#[trigger] stats_seq[u]).1,
                        comps_seq,
                        *query,
                    ) ==> spec_find(players.entries(), stats_seq[u].1.player_id@) is Some
                        && spec_find(teams.entries(), stats_seq[u].1.team_id@) is Some,
                forall|u: int|
                    0 <= u < sorted@.len() ==> spec_pair_ok(
                        stats_seq,
                        comps_seq,
                        *query,
                        #[trigger] sorted@[u],
                    ),
                out@.len() == t,
                forall|u: int|
                    0 <= u < t ==> spec_result_row(
                        players.entries(),
                        teams.entries(),
                        comps_seq,
                        stats_seq,
                        *query,
                        sorted@[u],
                        #[trigger] out@[u],
                    ),
            decreases k - t,
        {
            let pair = sorted[t];
            let idx = pair.0;
            let v = pair.1;
            proof {
                assert(spec_pair_ok(stats_seq, comps_seq, *query, sorted@[t as int]));
            }
            let stat = &stats_vec[idx].1;
            proof {
                assert(stats_seq[idx as int] == (
                    stats_vec@[idx as int].0@,
                    stats_vec@[idx as int].1,
                ));
                assert(spec_stat_passes(stats_seq[idx as int].1, comps_seq, *query));
            }
            let player = match players.find(&stat.player_id) {
                Some(p) => p,
                None => {
                    proof {
                        assert(false);
                    }
                    vstd::pervasive::unreached()
                },
            };
            let team = match teams.find(&stat.team_id) {
                Some(t_) => t_,
                None => {
                    proof {
                        assert(false);
                    }
                    vstd::pervasive::unreached()
                },
            };
            let competition = match competitions.find(&stat.competition_id) {
                Some(c) => c,
                None => {
                    proof {
                        assert(false);
                    }
                    vstd::pervasive::unreached()
                },
            };
            let details = PlayerDetails {
                player_id: player.id.clone(),
                player_name: player.name.clone(),
                team_id: team.id.clone(),
                team_name: team.name.clone(),
                competition_id: competition.id.clone(),
                competition_name: competition.name.clone(),
            };
            out.push(QueryResponse { dimension: details, metric: query.metric, value: v });
            t = t + 1;
        }
        proof {
            scored@.lemma_sort_by_ensures(order);
            assert forall|a: int, b: int|
                #![trigger out@[a], out@[b]]
                0 <= a < b < out@.len() implies ((query.sort == Sort::Desc ==> out@[a].value
                >= out@[b].value) && (query.sort == Sort::Asc ==> out@[a].value
                <= out@[b].value)) by {
                assert(sorted_by(sorted@, order));
                assert(order(sorted@[a], sorted@[b]));
                assert(out@[a].value == sorted@[a].1);
                assert(out@[b].value == sorted@[b].1);
            }
        }
        out
    }
}

} // verus!
