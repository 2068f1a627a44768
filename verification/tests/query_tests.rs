use circuitdeck_backend::query::Query;
use circuitdeck_backend::range::TimeRange;

const ALL: [Query; 31] = [
    Query::FactorioTargetUp,
    Query::PrometheusUp,
    Query::EvolutionFactor,
    Query::PollutionOverall,
    Query::GameTicksPlayed,
    Query::CurrentResearch,
    Query::ResearchCompletedCount,
    Query::ResearchQueueSize,
    Query::ResearchProgressPct,
    Query::PowerProduction,
    Query::PowerConsumption,
    Query::PowerProductionBySource,
    Query::AccumulatorCharge,
    Query::Satisfaction,
    Query::ItemProduced,
    Query::ItemConsumed,
    Query::ItemProducedRate,
    Query::ItemConsumedRate,
    Query::FluidProduced,
    Query::FluidConsumed,
    Query::ResearchPackagesBuilt,
    Query::MachineCounts,
    Query::RobotCounts,
    Query::ChestContents,
    Query::NetworkIdCount,
    Query::TrainCounts,
    Query::TrainStations,
    Query::TrainStationWaiting,
    Query::PlatformCount,
    Query::PlatformSpeed,
    Query::PlatformFuel,
];

#[test]
fn item_produced_uses_range_selector() {
    let q = Query::ItemProduced.promql(TimeRange::OneHour);
    assert!(q.contains("[1h]"), "query: {q}");
    assert!(q.contains("topk(8"), "query: {q}");
}

#[test]
fn power_queries_scale_to_megawatts() {
    let q = Query::PowerProduction.promql(TimeRange::SixHours);
    assert!(q.contains("* 60"), "expected ticks/s scaling in: {q}");
    assert!(q.contains("/ 1000000"), "expected MW division in: {q}");
}

#[test]
fn every_query_is_non_empty_for_all_ranges() {
    for range in TimeRange::all() {
        for query in ALL {
            let promql = query.promql(range);
            assert!(!promql.is_empty(), "{} produced empty PromQL", query.name());
            assert!(!promql.contains('\n'), "{} contains newline", query.name());
        }
    }
}

#[test]
fn exact_query_texts() {
    assert_eq!(
        Query::ItemProduced.promql(TimeRange::SevenDays),
        "topk(8, sum by (item) (rate(graftorio_factorio_item_produced_total[7d])))"
    );
    assert_eq!(
        Query::ResearchProgressPct.promql(TimeRange::SixHours),
        "avg_over_time(graftorio_factorio_research_progress{type=\"progress\"}[6h]) * 100"
    );
    assert_eq!(
        Query::ResearchPackagesBuilt.promql(TimeRange::TwentyFourHours),
        "sum(rate(graftorio_factorio_research_packages_built_total[24h])) * 60"
    );
    assert_eq!(Query::FactorioTargetUp.promql(TimeRange::OneHour), "up{job=\"factorio-metrics\"}");
    assert_eq!(Query::PlatformCount.promql(TimeRange::OneHour), "count(graftorio_factorio_platform_speed)");
    assert_eq!(Query::PrometheusUp.promql(TimeRange::SevenDays), "up");
}

#[test]
fn gauges_ignore_the_range() {
    let gauges = [Query::MachineCounts, Query::PowerProduction, Query::NetworkIdCount, Query::Satisfaction];
    for q in gauges {
        assert_eq!(q.promql(TimeRange::OneHour), q.promql(TimeRange::SevenDays));
    }
    assert_ne!(
        Query::FluidConsumed.promql(TimeRange::OneHour),
        Query::FluidConsumed.promql(TimeRange::SevenDays)
    );
}

#[test]
fn names_are_canonical() {
    assert_eq!(Query::FactorioTargetUp.name(), "factorio_target_up");
    assert_eq!(Query::PowerProductionBySource.name(), "power_production_by_source");
    assert_eq!(Query::PlatformFuel.name(), "platform_fuel");
    let mut names: Vec<&str> = ALL.iter().map(|q| q.name()).collect();
    names.sort();
    names.dedup();
    assert_eq!(names.len(), ALL.len());
}

#[test]
fn query_names_are_distinct_snake_case() {
    let names: Vec<&str> = ALL.iter().map(|q| q.name()).collect();
    for (i, a) in names.iter().enumerate() {
        assert!(!a.is_empty());
        assert!(a.chars().all(|c| c.is_ascii_lowercase() || c == '_'), "{a}");
        for b in &names[i + 1..] {
            assert_ne!(a, b);
        }
    }
    assert_eq!(Query::FactorioTargetUp.name(), "factorio_target_up");
    assert_eq!(Query::PlatformFuel.name(), "platform_fuel");
}

#[test]
fn changing_the_range_only_swaps_the_selector() {
    let ranges = TimeRange::all();
    for q in [Query::ItemProduced, Query::ResearchProgressPct, Query::ResearchPackagesBuilt] {
        for r in ranges {
            let text = q.promql(r);
            assert_eq!(text.matches(r.selector()).count(), 1);
            for r2 in ranges {
                if r2 != r {
                    assert!(!text.contains(r2.selector()));
                    assert_ne!(text, q.promql(r2));
                }
                assert_eq!(q.promql(r2), text.replace(r.selector(), r2.selector()));
            }
        }
    }
}
