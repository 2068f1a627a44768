//! Every PromQL query the dashboard performs, in one place, so metric
//! names and aggregation logic can be audited together.

use vstd::prelude::*;
use crate::range::{TimeRange, range_text, selector_text};
use crate::text::{owned, join3};

verus! {

/// A named, parameterized PromQL query template.
#[derive(Debug, Clone, Copy, PartialEq, Eq, Structural)]
pub enum Query {
    // ---- liveness ----
    /// Is the Factorio metrics job present in Prometheus?
    FactorioTargetUp,
    /// Prometheus self-scrape liveness.
    PrometheusUp,
    // ---- game ----
    EvolutionFactor,
    PollutionOverall,
    GameTicksPlayed,
    CurrentResearch,
    ResearchCompletedCount,
    ResearchQueueSize,
    ResearchProgressPct,
    // ---- power ----
    PowerProduction,
    PowerConsumption,
    PowerProductionBySource,
    AccumulatorCharge,
    Satisfaction,
    // ---- production ----
    ItemProduced,
    ItemConsumed,
    ItemProducedRate,
    ItemConsumedRate,
    FluidProduced,
    FluidConsumed,
    ResearchPackagesBuilt,
    // ---- factory machines ----
    MachineCounts,
    // ---- logistics ----
    RobotCounts,
    ChestContents,
    NetworkIdCount,
    // ---- trains ----
    TrainCounts,
    TrainStations,
    TrainStationWaiting,
    // ---- space platforms ----
    PlatformCount,
    PlatformSpeed,
    PlatformFuel,
}

/// Canonical query name used in logs.
pub open spec fn query_name(q: Query) -> Seq<char> {
    match q {
        Query::FactorioTargetUp => "factorio_target_up"@,
        Query::PrometheusUp => "prometheus_up"@,
        Query::EvolutionFactor => "evolution_factor"@,
        Query::PollutionOverall => "pollution_overall"@,
        Query::GameTicksPlayed => "game_ticks_played"@,
        Query::CurrentResearch => "current_research"@,
        Query::ResearchCompletedCount => "research_completed_count"@,
        Query::ResearchQueueSize => "research_queue_size"@,
        Query::ResearchProgressPct => "research_progress_pct"@,
        Query::PowerProduction => "power_production"@,
        Query::PowerConsumption => "power_consumption"@,
        Query::PowerProductionBySource => "power_production_by_source"@,
        Query::AccumulatorCharge => "accumulator_charge"@,
        Query::Satisfaction => "satisfaction"@,
        Query::ItemProduced => "item_produced"@,
        Query::ItemConsumed => "item_consumed"@,
        Query::ItemProducedRate => "item_produced_rate"@,
        Query::ItemConsumedRate => "item_consumed_rate"@,
        Query::FluidProduced => "fluid_produced"@,
        Query::FluidConsumed => "fluid_consumed"@,
        Query::ResearchPackagesBuilt => "research_packages_built"@,
        Query::MachineCounts => "machine_counts"@,
        Query::RobotCounts => "robot_counts"@,
        Query::ChestContents => "chest_contents"@,
        Query::NetworkIdCount => "network_id_count"@,
        Query::TrainCounts => "train_counts"@,
        Query::TrainStations => "train_stations"@,
        Query::TrainStationWaiting => "train_station_waiting"@,
        Query::PlatformCount => "platform_count"@,
        Query::PlatformSpeed => "platform_speed"@,
        Query::PlatformFuel => "platform_fuel"@,
    }
}

/// Whether the query reads a lookback window, so that its text depends on
/// the range; state-style gauges ignore the range.
pub open spec fn uses_range(q: Query) -> bool {
    match q {
        Query::ResearchProgressPct => true,
        Query::ItemProduced => true,
        Query::ItemConsumed => true,
        Query::ItemProducedRate => true,
        Query::ItemConsumedRate => true,
        Query::FluidProduced => true,
        Query::FluidConsumed => true,
        Query::ResearchPackagesBuilt => true,
        _ => false,
    }
}

/// Text before the range selector in a windowed query.
pub open spec fn windowed_head(q: Query) -> Seq<char> {
    match q {
        Query::ResearchProgressPct => "avg_over_time(graftorio_factorio_research_progress{type=\"progress\"}"@,
        Query::ItemProduced => "topk(8, sum by (item) (rate(graftorio_factorio_item_produced_total"@,
        Query::ItemConsumed => "topk(8, sum by (item) (rate(graftorio_factorio_item_consumed_total"@,
        Query::ItemProducedRate => "sum by (item) (rate(graftorio_factorio_item_produced_total"@,
        Query::ItemConsumedRate => "sum by (item) (rate(graftorio_factorio_item_consumed_total"@,
        Query::FluidProduced => "topk(8, sum by (fluid) (rate(graftorio_factorio_fluid_produced_total"@,
        Query::FluidConsumed => "topk(8, sum by (fluid) (rate(graftorio_factorio_fluid_consumed_total"@,
        Query::ResearchPackagesBuilt => "sum(rate(graftorio_factorio_research_packages_built_total"@,
        _ => Seq::empty(),
    }
}

/// Text after the range selector in a windowed query.
pub open spec fn windowed_tail(q: Query) -> Seq<char> {
    match q {
        Query::ResearchProgressPct => ") * 100"@,
        Query::ItemProduced => ")))"@,
        Query::ItemConsumed => ")))"@,
        Query::ItemProducedRate => "))"@,
        Query::ItemConsumedRate => "))"@,
        Query::FluidProduced => ")))"@,
        Query::FluidConsumed => ")))"@,
        Query::ResearchPackagesBuilt => ")) * 60"@,
        _ => Seq::empty(),
    }
}

/// Text of a query that ignores the range.
pub open spec fn gauge_text(q: Query) -> Seq<char> {
    match q {
        Query::FactorioTargetUp => "up{job=\"factorio-metrics\"}"@,
        Query::PrometheusUp => "up"@,
        Query::EvolutionFactor => "graftorio_factorio_evolution_factor{type=\"time\"}"@,
        Query::PollutionOverall => "sum(graftorio_factorio_pollution{type=\"overall\"})"@,
        Query::GameTicksPlayed => "max(graftorio_factorio_game_tick)"@,
        Query::CurrentResearch => "graftorio_factorio_research_in_progress"@,
        Query::ResearchCompletedCount => "graftorio_factorio_research_completed_total"@,
        Query::ResearchQueueSize => "graftorio_factorio_research_queue_size"@,
        Query::PowerProduction => "sum(graftorio_factorio_power_production{type=\"overall\"}) * 60 / 1000000"@,
        Query::PowerConsumption => "sum(graftorio_factorio_power_consumption{type=\"overall\"}) * 60 / 1000000"@,
        Query::PowerProductionBySource => "sum by (source) (graftorio_factorio_power_production{type=\"by_source\"}) * 60 / 1000000"@,
        Query::AccumulatorCharge => "graftorio_factorio_accumulator_charge"@,
        Query::Satisfaction => "graftorio_factorio_satisfaction"@,
        Query::MachineCounts => "graftorio_factorio_machine_count"@,
        Query::RobotCounts => "graftorio_factorio_robot_count"@,
        Query::ChestContents => "graftorio_factorio_chest_contents"@,
        Query::NetworkIdCount => "count(graftorio_factorio_chest_contents)"@,
        Query::TrainCounts => "graftorio_factorio_train_count"@,
        Query::TrainStations => "graftorio_factorio_train_station_count"@,
        Query::TrainStationWaiting => "graftorio_factorio_train_station_waiting"@,
        Query::PlatformCount => "count(graftorio_factorio_platform_speed)"@,
        Query::PlatformSpeed => "graftorio_factorio_platform_speed"@,
        Query::PlatformFuel => "graftorio_factorio_platform_fuel"@,
        _ => Seq::empty(),
    }
}

/// The PromQL text of a query for a range: windowed queries put the range
/// selector between their head and tail; the others are fixed text.
pub open spec fn promql_text(q: Query, r: TimeRange) -> Seq<char> {
    if uses_range(q) {
        windowed_head(q) + selector_text(r) + windowed_tail(q)
    } else {
        gauge_text(q)
    }
}

impl Query {
    /// Canonical query name used in logs.
    pub fn name(self) -> (s: &'static str)
        ensures
            s@ == query_name(self),
    {
        match self {
            Query::FactorioTargetUp => "factorio_target_up",
            Query::PrometheusUp => "prometheus_up",
            Query::EvolutionFactor => "evolution_factor",
            Query::PollutionOverall => "pollution_overall",
            Query::GameTicksPlayed => "game_ticks_played",
            Query::CurrentResearch => "current_research",
            Query::ResearchCompletedCount => "research_completed_count",
            Query::ResearchQueueSize => "research_queue_size",
            Query::ResearchProgressPct => "research_progress_pct",
            Query::PowerProduction => "power_production",
            Query::PowerConsumption => "power_consumption",
            Query::PowerProductionBySource => "power_production_by_source",
            Query::AccumulatorCharge => "accumulator_charge",
            Query::Satisfaction => "satisfaction",
            Query::ItemProduced => "item_produced",
            Query::ItemConsumed => "item_consumed",
            Query::ItemProducedRate => "item_produced_rate",
            Query::ItemConsumedRate => "item_consumed_rate",
            Query::FluidProduced => "fluid_produced",
            Query::FluidConsumed => "fluid_consumed",
            Query::ResearchPackagesBuilt => "research_packages_built",
            Query::MachineCounts => "machine_counts",
            Query::RobotCounts => "robot_counts",
            Query::ChestContents => "chest_contents",
            Query::NetworkIdCount => "network_id_count",
            Query::TrainCounts => "train_counts",
            Query::TrainStations => "train_stations",
            Query::TrainStationWaiting => "train_station_waiting",
            Query::PlatformCount => "platform_count",
            Query::PlatformSpeed => "platform_speed",
            Query::PlatformFuel => "platform_fuel",
        }
    }

    /// Builds the PromQL string for this query; `range` selects the
    /// lookback window of windowed queries.
    pub fn promql(self, range: TimeRange) -> (s: String)
        ensures
            s@ == promql_text(self, range),
    {
        let r = range.selector();
        match self {
            Query::FactorioTargetUp => owned("up{job=\"factorio-metrics\"}"),
            Query::PrometheusUp => owned("up"),
            Query::EvolutionFactor => owned("graftorio_factorio_evolution_factor{type=\"time\"}"),
            Query::PollutionOverall => owned("sum(graftorio_factorio_pollution{type=\"overall\"})"),
            Query::GameTicksPlayed => owned("max(graftorio_factorio_game_tick)"),
            Query::CurrentResearch => owned("graftorio_factorio_research_in_progress"),
            Query::ResearchCompletedCount => owned("graftorio_factorio_research_completed_total"),
            Query::ResearchQueueSize => owned("graftorio_factorio_research_queue_size"),
            Query::ResearchProgressPct => join3("avg_over_time(graftorio_factorio_research_progress{type=\"progress\"}", r, ") * 100"),
            Query::PowerProduction => owned("sum(graftorio_factorio_power_production{type=\"overall\"}) * 60 / 1000000"),
            Query::PowerConsumption => owned("sum(graftorio_factorio_power_consumption{type=\"overall\"}) * 60 / 1000000"),
            Query::PowerProductionBySource => owned("sum by (source) (graftorio_factorio_power_production{type=\"by_source\"}) * 60 / 1000000"),
            Query::AccumulatorCharge => owned("graftorio_factorio_accumulator_charge"),
            Query::Satisfaction => owned("graftorio_factorio_satisfaction"),
            Query::ItemProduced => join3("topk(8, sum by (item) (rate(graftorio_factorio_item_produced_total", r, ")))"),
            Query::ItemConsumed => join3("topk(8, sum by (item) (rate(graftorio_factorio_item_consumed_total", r, ")))"),
            Query::ItemProducedRate => join3("sum by (item) (rate(graftorio_factorio_item_produced_total", r, "))"),
            Query::ItemConsumedRate => join3("sum by (item) (rate(graftorio_factorio_item_consumed_total", r, "))"),
            Query::FluidProduced => join3("topk(8, sum by (fluid) (rate(graftorio_factorio_fluid_produced_total", r, ")))"),
            Query::FluidConsumed => join3("topk(8, sum by (fluid) (rate(graftorio_factorio_fluid_consumed_total", r, ")))"),
            Query::ResearchPackagesBuilt => join3("sum(rate(graftorio_factorio_research_packages_built_total", r, ")) * 60"),
            Query::MachineCounts => owned("graftorio_factorio_machine_count"),
            Query::RobotCounts => owned("graftorio_factorio_robot_count"),
            Query::ChestContents => owned("graftorio_factorio_chest_contents"),
            Query::NetworkIdCount => owned("count(graftorio_factorio_chest_contents)"),
            Query::TrainCounts => owned("graftorio_factorio_train_count"),
            Query::TrainStations => owned("graftorio_factorio_train_station_count"),
            Query::TrainStationWaiting => owned("graftorio_factorio_train_station_waiting"),
            Query::PlatformCount => owned("count(graftorio_factorio_platform_speed)"),
            Query::PlatformSpeed => owned("graftorio_factorio_platform_speed"),
            Query::PlatformFuel => owned("graftorio_factorio_platform_fuel"),
        }
    }
}

/// Whether a name is non-empty lower snake case: letters `a`-`z` and `_`.
pub open spec fn is_snake_name(s: Seq<char>) -> bool {
    &&& s.len() > 0
    &&& forall|i: int| 0 <= i < s.len() ==> (('a' as u32) <= (#[trigger] s[i]) as u32 <= ('z' as u32)
        || s[i] == '_')
}

/// The query a name of this catalogue belongs to, told apart by the name's
/// length and its characters at positions 0, 5 and 9.
spec fn query_of_name(s: Seq<char>) -> Option<Query> {
    if s.len() == 18 && s[0] == 'f' && s[5] == 'r' && s[9] == 't' {
        Some(Query::FactorioTargetUp)
    } else if s.len() == 13 && s[0] == 'p' && s[5] == 't' && s[9] == 's' {
        Some(Query::PrometheusUp)
    } else if s.len() == 16 && s[0] == 'e' && s[5] == 't' && s[9] == '_' {
        Some(Query::EvolutionFactor)
    } else if s.len() == 17 && s[0] == 'p' && s[5] == 't' && s[9] == '_' {
        Some(Query::PollutionOverall)
    } else if s.len() == 17 && s[0] == 'g' && s[5] == 't' && s[9] == 's' {
        Some(Query::GameTicksPlayed)
    } else if s.len() == 16 && s[0] == 'c' && s[5] == 'n' && s[9] == 'e' {
        Some(Query::CurrentResearch)
    } else if s.len() == 24 && s[0] == 'r' && s[5] == 'r' && s[9] == 'c' {
        Some(Query::ResearchCompletedCount)
    } else if s.len() == 19 && s[0] == 'r' && s[5] == 'r' && s[9] == 'q' {
        Some(Query::ResearchQueueSize)
    } else if s.len() == 21 && s[0] == 'r' && s[5] == 'r' && s[9] == 'p' {
        Some(Query::ResearchProgressPct)
    } else if s.len() == 16 && s[0] == 'p' && s[5] == '_' && s[9] == 'd' {
        Some(Query::PowerProduction)
    } else if s.len() == 17 && s[0] == 'p' && s[5] == '_' && s[9] == 's' {
        Some(Query::PowerConsumption)
    } else if s.len() == 26 && s[0] == 'p' && s[5] == '_' && s[9] == 'd' {
        Some(Query::PowerProductionBySource)
    } else if s.len() == 18 && s[0] == 'a' && s[5] == 'u' && s[9] == 'o' {
        Some(Query::AccumulatorCharge)
    } else if s.len() == 12 && s[0] == 's' && s[5] == 'f' && s[9] == 'i' {
        Some(Query::Satisfaction)
    } else if s.len() == 13 && s[0] == 'i' && s[5] == 'p' && s[9] == 'u' {
        Some(Query::ItemProduced)
    } else if s.len() == 13 && s[0] == 'i' && s[5] == 'c' && s[9] == 'u' {
        Some(Query::ItemConsumed)
    } else if s.len() == 18 && s[0] == 'i' && s[5] == 'p' && s[9] == 'u' {
        Some(Query::ItemProducedRate)
    } else if s.len() == 18 && s[0] == 'i' && s[5] == 'c' && s[9] == 'u' {
        Some(Query::ItemConsumedRate)
    } else if s.len() == 14 && s[0] == 'f' && s[5] == '_' && s[9] == 'd' {
        Some(Query::FluidProduced)
    } else if s.len() == 14 && s[0] == 'f' && s[5] == '_' && s[9] == 's' {
        Some(Query::FluidConsumed)
    } else if s.len() == 23 && s[0] == 'r' && s[5] == 'r' && s[9] == 'p' {
        Some(Query::ResearchPackagesBuilt)
    } else if s.len() == 14 && s[0] == 'm' && s[5] == 'n' && s[9] == 'o' {
        Some(Query::MachineCounts)
    } else if s.len() == 12 && s[0] == 'r' && s[5] == '_' && s[9] == 'n' {
        Some(Query::RobotCounts)
    } else if s.len() == 14 && s[0] == 'c' && s[5] == '_' && s[9] == 't' {
        Some(Query::ChestContents)
    } else if s.len() == 16 && s[0] == 'n' && s[5] == 'r' && s[9] == 'd' {
        Some(Query::NetworkIdCount)
    } else if s.len() == 12 && s[0] == 't' && s[5] == '_' && s[9] == 'n' {
        Some(Query::TrainCounts)
    } else if s.len() == 14 && s[0] == 't' && s[5] == '_' && s[9] == 't' {
        Some(Query::TrainStations)
    } else if s.len() == 21 && s[0] == 't' && s[5] == '_' && s[9] == 't' {
        Some(Query::TrainStationWaiting)
    } else if s.len() == 14 && s[0] == 'p' && s[5] == 'o' && s[9] == 'c' {
        Some(Query::PlatformCount)
    } else if s.len() == 14 && s[0] == 'p' && s[5] == 'o' && s[9] == 's' {
        Some(Query::PlatformSpeed)
    } else if s.len() == 13 && s[0] == 'p' && s[5] == 'o' && s[9] == 'f' {
        Some(Query::PlatformFuel)
    } else {
        None
    }
}

/// Query names are lower snake case and tell queries apart: two different
/// queries never log under the same name.
pub proof fn lemma_query_names_distinct(q1: Query, q2: Query)
    ensures
        is_snake_name(query_name(q1)),
        q1 != q2 ==> query_name(q1) != query_name(q2),
{
    reveal_strlit("factorio_target_up");
    reveal_strlit("prometheus_up");
    reveal_strlit("evolution_factor");
    reveal_strlit("pollution_overall");
    reveal_strlit("game_ticks_played");
    reveal_strlit("current_research");
    reveal_strlit("research_completed_count");
    reveal_strlit("research_queue_size");
    reveal_strlit("research_progress_pct");
    reveal_strlit("power_production");
    reveal_strlit("power_consumption");
    reveal_strlit("power_production_by_source");
    reveal_strlit("accumulator_charge");
    reveal_strlit("satisfaction");
    reveal_strlit("item_produced");
    reveal_strlit("item_consumed");
    reveal_strlit("item_produced_rate");
    reveal_strlit("item_consumed_rate");
    reveal_strlit("fluid_produced");
    reveal_strlit("fluid_consumed");
    reveal_strlit("research_packages_built");
    reveal_strlit("machine_counts");
    reveal_strlit("robot_counts");
    reveal_strlit("chest_contents");
    reveal_strlit("network_id_count");
    reveal_strlit("train_counts");
    reveal_strlit("train_stations");
    reveal_strlit("train_station_waiting");
    reveal_strlit("platform_count");
    reveal_strlit("platform_speed");
    reveal_strlit("platform_fuel");
    lemma_name_identifies(q1);
    lemma_name_identifies(q2);
    let s = query_name(q1);
    if exists|i: int| 0 <= i < s.len() && !(('a' as u32) <= (#[trigger] s[i]) as u32 <= ('z' as u32)
        || s[i] == '_') {
        let i = choose|i: int| 0 <= i < s.len() && !(('a' as u32) <= (#[trigger] s[i]) as u32
            <= ('z' as u32) || s[i] == '_');
        assert(false);
    }
}

/// Each name reads back as its query.
proof fn lemma_name_identifies(q: Query)
    ensures
        query_of_name(query_name(q)) == Some(q),
{
    reveal_strlit("factorio_target_up");
    reveal_strlit("prometheus_up");
    reveal_strlit("evolution_factor");
    reveal_strlit("pollution_overall");
    reveal_strlit("game_ticks_played");
    reveal_strlit("current_research");
    reveal_strlit("research_completed_count");
    reveal_strlit("research_queue_size");
    reveal_strlit("research_progress_pct");
    reveal_strlit("power_production");
    reveal_strlit("power_consumption");
    reveal_strlit("power_production_by_source");
    reveal_strlit("accumulator_charge");
    reveal_strlit("satisfaction");
    reveal_strlit("item_produced");
    reveal_strlit("item_consumed");
    reveal_strlit("item_produced_rate");
    reveal_strlit("item_consumed_rate");
    reveal_strlit("fluid_produced");
    reveal_strlit("fluid_consumed");
    reveal_strlit("research_packages_built");
    reveal_strlit("machine_counts");
    reveal_strlit("robot_counts");
    reveal_strlit("chest_contents");
    reveal_strlit("network_id_count");
    reveal_strlit("train_counts");
    reveal_strlit("train_stations");
    reveal_strlit("train_station_waiting");
    reveal_strlit("platform_count");
    reveal_strlit("platform_speed");
    reveal_strlit("platform_fuel");
}

/// `t` occurs in `s` starting at position `i`.
pub open spec fn occurs_at(s: Seq<char>, t: Seq<char>, i: int) -> bool {
    0 <= i && i + t.len() <= s.len() && s.subrange(i, i + t.len()) == t
}

/// No `[` stands in the fixed parts of a windowed query.
proof fn lemma_windowed_parts_unbracketed(q: Query)
    requires
        uses_range(q),
    ensures
        forall|k: int| 0 <= k < windowed_head(q).len() ==> #[trigger] windowed_head(q)[k] != '[',
        forall|k: int| 0 <= k < windowed_tail(q).len() ==> #[trigger] windowed_tail(q)[k] != '[',
{
    reveal_strlit("avg_over_time(graftorio_factorio_research_progress{type=\"progress\"}");
    reveal_strlit("topk(8, sum by (item) (rate(graftorio_factorio_item_produced_total");
    reveal_strlit("topk(8, sum by (item) (rate(graftorio_factorio_item_consumed_total");
    reveal_strlit("sum by (item) (rate(graftorio_factorio_item_produced_total");
    reveal_strlit("sum by (item) (rate(graftorio_factorio_item_consumed_total");
    reveal_strlit("topk(8, sum by (fluid) (rate(graftorio_factorio_fluid_produced_total");
    reveal_strlit("topk(8, sum by (fluid) (rate(graftorio_factorio_fluid_consumed_total");
    reveal_strlit("sum(rate(graftorio_factorio_research_packages_built_total");
    reveal_strlit(") * 100");
    reveal_strlit("))");
    reveal_strlit(")) * 60");
    reveal_strlit(")))");
    let h = windowed_head(q);
    let t = windowed_tail(q);
    if exists|k: int| 0 <= k < h.len() && #[trigger] h[k] == '[' {
        let k = choose|k: int| 0 <= k < h.len() && #[trigger] h[k] == '[';
        assert(false);
    }
    if exists|k: int| 0 <= k < t.len() && #[trigger] t[k] == '[' {
        let k = choose|k: int| 0 <= k < t.len() && #[trigger] t[k] == '[';
        assert(false);
    }
}

/// Splicing a selector between texts without `[`: the selector occurs once,
/// right after the head, and swapping ranges swaps only the selector.
proof fn lemma_selector_splice(h: Seq<char>, t: Seq<char>, r: TimeRange, r2: TimeRange)
    requires
        forall|k: int| 0 <= k < h.len() ==> #[trigger] h[k] != '[',
        forall|k: int| 0 <= k < t.len() ==> #[trigger] t[k] != '[',
    ensures
        forall|i: int|
            occurs_at(h + selector_text(r) + t, selector_text(r2), i) <==> (r2 == r && i
                == h.len()),
        h + selector_text(r2) + t == (h + selector_text(r) + t).subrange(0, h.len() as int)
            + selector_text(r2) + (h + selector_text(r) + t).subrange(
            (h.len() + selector_text(r).len()) as int,
            (h + selector_text(r) + t).len() as int,
        ),
        r != r2 ==> h + selector_text(r) + t != h + selector_text(r2) + t,
{
    let m = selector_text(r);
    let m2 = selector_text(r2);
    let s = h + m + t;
    let hl = h.len() as int;
    assert(range_text(r)[0] == range_text(r2)[0] ==> r == r2);
    assert(m[0] == '[' && m2[0] == '[');
    assert forall|j: int| 0 < j < m.len() implies #[trigger] m[j] != '[' by {
        if j < m.len() - 1 {
            assert(m[j] == range_text(r)[j - 1]);
        }
    }
    assert forall|i: int| occurs_at(s, m2, i) implies (r2 == r && i == hl) by {
        assert(s.subrange(i, i + m2.len())[0] == s[i]);
        if i < hl {
            assert(s[i] == h[i]);
        } else if i >= hl + m.len() {
            assert(s[i] == t[i - hl - m.len()]);
        } else if i > hl {
            assert(s[i] == m[i - hl]);
        }
        assert(s.subrange(i, i + m2.len())[1] == s[i + 1]);
        assert(s[hl + 1] == m[1]);
    }
    assert(s.subrange(hl, hl + m.len()) =~= m);
    assert(s.subrange(0, hl) =~= h);
    assert(s.subrange(hl + m.len(), s.len() as int) =~= t);
    if r != r2 {
        assert((h + m2 + t)[hl + 1] == m2[1]);
        assert(s[hl + 1] == m[1]);
    }
}

/// Changing the range only swaps the lookback window: a windowed query's
/// text holds the selector of its range exactly once, right after its head,
/// and no other range's selector; its text for any other range is that text
/// with the one selector replaced, and differs from it.
pub proof fn lemma_range_swaps_selector(q: Query, r: TimeRange, r2: TimeRange)
    requires
        uses_range(q),
    ensures
        forall|i: int|
            occurs_at(promql_text(q, r), selector_text(r2), i) <==> (r2 == r && i
                == windowed_head(q).len()),
        promql_text(q, r2) == promql_text(q, r).subrange(0, windowed_head(q).len() as int)
            + selector_text(r2) + promql_text(q, r).subrange(
            (windowed_head(q).len() + selector_text(r).len()) as int,
            promql_text(q, r).len() as int,
        ),
        r != r2 ==> promql_text(q, r) != promql_text(q, r2),
{
    lemma_windowed_parts_unbracketed(q);
    lemma_selector_splice(windowed_head(q), windowed_tail(q), r, r2);
}

/// Every query text is a single non-empty line, for every range.
pub proof fn lemma_promql_single_line(q: Query, r: TimeRange)
    ensures
        promql_text(q, r).len() > 0,
        !promql_text(q, r).contains('\n'),
{
    reveal_strlit("up{job=\"factorio-metrics\"}");
    reveal_strlit("up");
    reveal_strlit("graftorio_factorio_evolution_factor{type=\"time\"}");
    reveal_strlit("sum(graftorio_factorio_pollution{type=\"overall\"})");
    reveal_strlit("max(graftorio_factorio_game_tick)");
    reveal_strlit("graftorio_factorio_research_in_progress");
    reveal_strlit("graftorio_factorio_research_completed_total");
    reveal_strlit("graftorio_factorio_research_queue_size");
    reveal_strlit("sum(graftorio_factorio_power_production{type=\"overall\"}) * 60 / 1000000");
    reveal_strlit("sum(graftorio_factorio_power_consumption{type=\"overall\"}) * 60 / 1000000");
    reveal_strlit("sum by (source) (graftorio_factorio_power_production{type=\"by_source\"}) * 60 / 1000000");
    reveal_strlit("graftorio_factorio_accumulator_charge");
    reveal_strlit("graftorio_factorio_satisfaction");
    reveal_strlit("graftorio_factorio_machine_count");
    reveal_strlit("graftorio_factorio_robot_count");
    reveal_strlit("graftorio_factorio_chest_contents");
    reveal_strlit("count(graftorio_factorio_chest_contents)");
    reveal_strlit("graftorio_factorio_train_count");
    reveal_strlit("graftorio_factorio_train_station_count");
    reveal_strlit("graftorio_factorio_train_station_waiting");
    reveal_strlit("count(graftorio_factorio_platform_speed)");
    reveal_strlit("graftorio_factorio_platform_speed");
    reveal_strlit("graftorio_factorio_platform_fuel");
    reveal_strlit("avg_over_time(graftorio_factorio_research_progress{type=\"progress\"}");
    reveal_strlit("topk(8, sum by (item) (rate(graftorio_factorio_item_produced_total");
    reveal_strlit("topk(8, sum by (item) (rate(graftorio_factorio_item_consumed_total");
    reveal_strlit("sum by (item) (rate(graftorio_factorio_item_produced_total");
    reveal_strlit("sum by (item) (rate(graftorio_factorio_item_consumed_total");
    reveal_strlit("topk(8, sum by (fluid) (rate(graftorio_factorio_fluid_produced_total");
    reveal_strlit("topk(8, sum by (fluid) (rate(graftorio_factorio_fluid_consumed_total");
    reveal_strlit("sum(rate(graftorio_factorio_research_packages_built_total");
    reveal_strlit(") * 100");
    reveal_strlit("))");
    reveal_strlit(")) * 60");
    reveal_strlit(")))");
    let s = promql_text(q, r);
    if s.contains('\n') {
        let i = choose|i: int| 0 <= i < s.len() && s[i] == '\n';
        if uses_range(q) {
            let h = windowed_head(q);
            let m = selector_text(r);
            if i < h.len() {
                assert(h[i] == '\n');
            } else if i < h.len() + m.len() {
                assert(m[i - h.len()] == '\n');
            } else {
                assert(windowed_tail(q)[i - h.len() - m.len()] == '\n');
            }
        }
    }
}

/// A query that ignores the range has the same text for every range.
pub proof fn lemma_gauges_ignore_range(q: Query, a: TimeRange, b: TimeRange)
    ensures
        !uses_range(q) ==> promql_text(q, a) == promql_text(q, b),
{
}

/// A windowed query holds the selector of its range.
pub proof fn lemma_windowed_queries_select_range(q: Query, r: TimeRange)
    ensures
        uses_range(q) ==> promql_text(q, r).subrange(
            windowed_head(q).len() as int,
            (windowed_head(q).len() + selector_text(r).len()) as int,
        ) == selector_text(r),
{
    if uses_range(q) {
        let h = windowed_head(q);
        let m = selector_text(r);
        assert(promql_text(q, r).subrange(h.len() as int, (h.len() + m.len()) as int) =~= m);
    }
}

} // verus!
