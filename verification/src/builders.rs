//! The dashboard views: for each, which queries it needs and how their
//! results (or the first failure among them) become its report.

use vstd::prelude::*;
use crate::client::{
    InstantResult, PromEvent, PromRequest, RangeResult, SeriesView, instant_outcome,
    instant_outcome_is, instant_request, instant_view, range_outcome, range_outcome_is,
    range_request, range_view, pairs_view,
};
use crate::error::{ApiError, ErrorView};
use crate::mapping::{
    current_research, labeled, labeled_from, named_series, platform_rows, platform_rows_from,
    research_name, scalar, scalar_of, to_series, top_ten, top_ten_by_value,
};
use crate::number::{above_zero, is_above_zero};
use crate::models::{
    FactoryReport, HealthReport, LogisticsReport, MachineStatus, Overview, PlatformReport,
    PlatformStatus, PowerReport, ProductionReport, Reading, ResearchReport, Series,
    TrainsReport, readings_view,
};
use crate::query::{Query, promql_text};
use crate::range::{TimeRange, range_secs, range_step, range_text};
use crate::text::{decimal_text, owned, signed_decimal_text};

verus! {

/// Whether a query is read at one instant or over the range.
#[derive(Debug, Clone, Copy, PartialEq, Eq, Structural)]
pub enum FetchKind {
    Instant,
    Range,
}

/// One query a view needs: which, how, and over which range.
#[derive(Debug, Clone, Copy, PartialEq, Eq, Structural)]
pub struct Fetch {
    pub query: Query,
    pub kind: FetchKind,
    pub range: TimeRange,
}

/// What came of one fetch.
pub enum FetchOutcome {
    Instant(Result<InstantResult, ApiError>),
    Range(Result<RangeResult, ApiError>),
}

/// The error a fetch ended in, if any.
pub open spec fn outcome_error(o: FetchOutcome) -> Option<ErrorView> {
    match o {
        FetchOutcome::Instant(Err(e)) => Some(e@),
        FetchOutcome::Range(Err(e)) => Some(e@),
        _ => None,
    }
}

/// The series a fetch that went through yielded.
pub open spec fn outcome_series(o: FetchOutcome) -> Seq<SeriesView> {
    match o {
        FetchOutcome::Instant(Ok(r)) => instant_view(r@),
        FetchOutcome::Range(Ok(r)) => range_view(r@),
        _ => Seq::empty(),
    }
}

/// The scalar of a fetch, with a failed fetch counting as no value.
pub open spec fn outcome_scalar(o: FetchOutcome) -> Option<u64> {
    if outcome_error(o) is None {
        scalar_of(outcome_series(o))
    } else {
        None
    }
}

/// The error of the first fetch, taken in `order`, that failed.
pub open spec fn first_failure(outs: Seq<FetchOutcome>, order: Seq<int>) -> Option<ErrorView>
    decreases order.len(),
{
    if order.len() == 0 {
        None
    } else {
        match outcome_error(outs[order[0]]) {
            Some(e) => Some(e),
            None => first_failure(outs, order.drop_first()),
        }
    }
}

/// The outcomes answer the plan: one per fetch, of the fetch's kind.
pub open spec fn outcomes_fit(outs: Seq<FetchOutcome>, plan: Seq<Fetch>) -> bool {
    &&& outs.len() == plan.len()
    &&& forall|i: int|
        0 <= i < outs.len() ==> ((#[trigger] outs[i] is Instant) <==> plan[i].kind
            == FetchKind::Instant)
}

pub open spec fn instant(q: Query, r: TimeRange) -> Fetch {
    Fetch { query: q, kind: FetchKind::Instant, range: r }
}

pub open spec fn ranged(q: Query, r: TimeRange) -> Fetch {
    Fetch { query: q, kind: FetchKind::Range, range: r }
}

/// The latest moment a range fetch can end at such that its start is
/// representable.
pub open spec fn now_fits(now: i64) -> bool {
    now >= i64::MIN + 604800
}

/// The request for a fetch: an instant query, or a range query over the
/// `range` seconds up to `now`, stepped by the range's graphing step.
pub fn fetch_request(base_url: &str, fetch: Fetch, now: i64) -> (r: PromRequest)
    requires
        now_fits(now),
    ensures
        r.promql@ == promql_text(fetch.query, fetch.range),
        fetch.kind == FetchKind::Instant ==> {
            &&& r.kind == crate::client::RequestKind::Instant
            &&& r.url@ == base_url@ + "/api/v1/query"@
            &&& pairs_view(r.params@) == seq![
                ("query"@, promql_text(fetch.query, fetch.range)),
            ]
        },
        fetch.kind == FetchKind::Range ==> {
            &&& r.kind == crate::client::RequestKind::Range
            &&& r.url@ == base_url@ + "/api/v1/query_range"@
            &&& pairs_view(r.params@) == seq![
                ("query"@, promql_text(fetch.query, fetch.range)),
                ("start"@, signed_decimal_text(now - range_secs(fetch.range))),
                ("end"@, signed_decimal_text(now as int)),
                ("step"@, decimal_text(range_step(fetch.range) as nat) + "s"@),
            ]
        },
{
    let promql = fetch.query.promql(fetch.range);
    match fetch.kind {
        FetchKind::Instant => instant_request(base_url, promql.as_str()),
        FetchKind::Range => {
            let start = now - fetch.range.secs();
            range_request(base_url, promql.as_str(), start, now, fetch.range.step_secs())
        },
    }
}

/// What a fetch's exchange yields, read as the fetch's kind.
pub fn fetch_outcome(fetch: Fetch, req: &PromRequest, ev: PromEvent) -> (r: FetchOutcome)
    ensures
        fetch.kind == FetchKind::Instant ==> (r matches FetchOutcome::Instant(x)
            && instant_outcome_is(*req, ev, x)),
        fetch.kind == FetchKind::Range ==> (r matches FetchOutcome::Range(x) && range_outcome_is(
            *req,
            ev,
            x,
        )),
{
    match fetch.kind {
        FetchKind::Instant => FetchOutcome::Instant(instant_outcome(req, ev)),
        FetchKind::Range => FetchOutcome::Range(range_outcome(req, ev)),
    }
}

fn take_instant(o: FetchOutcome) -> (r: Result<InstantResult, ApiError>)
    requires
        o is Instant,
    ensures
        o == FetchOutcome::Instant(r),
{
    match o {
        FetchOutcome::Instant(r) => r,
        FetchOutcome::Range(_) => unreached(),
    }
}

fn take_range(o: FetchOutcome) -> (r: Result<RangeResult, ApiError>)
    requires
        o is Range,
    ensures
        o == FetchOutcome::Range(r),
{
    match o {
        FetchOutcome::Range(r) => r,
        FetchOutcome::Instant(_) => unreached(),
    }
}

/// Removes and returns the last outcome.
fn pop_outcome(outs: &mut Vec<FetchOutcome>) -> (r: FetchOutcome)
    requires
        old(outs)@.len() > 0,
    ensures
        r == old(outs)@.last(),
        final(outs)@ == old(outs)@.drop_last(),
{
    outs.pop().unwrap()
}

// ------------------------------------------------------------ production

/// Fetches of the production view.
pub open spec fn production_plan(range: TimeRange) -> Seq<Fetch> {
    seq![
        instant(Query::ItemProduced, range),
        instant(Query::ItemConsumed, range),
        ranged(Query::ItemProducedRate, range),
        ranged(Query::ItemConsumedRate, range),
        instant(Query::ResearchPackagesBuilt, range),
    ]
}

/// The production report the fetches yield.
pub open spec fn production_report_is(rep: ProductionReport, range: TimeRange, outs: Seq<FetchOutcome>) -> bool {
    &&& rep.range@ == range_text(range)
    &&& labeled_from(outcome_series(outs[0]), "item"@, readings_view(rep.top_produced@))
    &&& labeled_from(outcome_series(outs[1]), "item"@, readings_view(rep.top_consumed@))
    &&& rep.produced_series@.map_values(|s: Series| s@) == named_series(
        outcome_series(outs[2]),
        "item"@,
    )
    &&& rep.consumed_series@.map_values(|s: Series| s@) == named_series(
        outcome_series(outs[3]),
        "item"@,
    )
    &&& rep.research_packages_per_minute == scalar_of(outcome_series(outs[4]))
}

/// Fetches of the production view.
pub fn production_fetches(range: TimeRange) -> (r: Vec<Fetch>)
    ensures
        r@ == production_plan(range),
{
    let r = vec![
        Fetch { query: Query::ItemProduced, kind: FetchKind::Instant, range },
        Fetch { query: Query::ItemConsumed, kind: FetchKind::Instant, range },
        Fetch { query: Query::ItemProducedRate, kind: FetchKind::Range, range },
        Fetch { query: Query::ItemConsumedRate, kind: FetchKind::Range, range },
        Fetch { query: Query::ResearchPackagesBuilt, kind: FetchKind::Instant, range },
    ];
    assert(r@ =~= production_plan(range));
    r
}

/// Builds the production report from the outcomes of its fetches, or
/// gives the error of the first one that failed.
pub fn build_production(range: TimeRange, outcomes: Vec<FetchOutcome>) -> (r: Result<
    ProductionReport,
    ApiError,
>)
    requires
        outcomes_fit(outcomes@, production_plan(range)),
    ensures
        match first_failure(outcomes@, seq![0, 1, 2, 3, 4]) {
            Some(e) => r matches Err(x) && x@ == e,
            None => r matches Ok(rep) && production_report_is(rep, range, outcomes@),
        },
{
    let ghost outs = outcomes@;
    proof {
        reveal_with_fuel(first_failure, 6);
        assert(outs[0] is Instant && outs[1] is Instant && outs[2] is Range && outs[3] is Range
            && outs[4] is Instant);
    }
    let mut v = outcomes;
    let o4 = pop_outcome(&mut v);
    let o3 = pop_outcome(&mut v);
    let o2 = pop_outcome(&mut v);
    let o1 = pop_outcome(&mut v);
    let o0 = pop_outcome(&mut v);
    let produced = match take_instant(o0) {
        Ok(x) => x,
        Err(e) => return Err(e),
    };
    let consumed = match take_instant(o1) {
        Ok(x) => x,
        Err(e) => return Err(e),
    };
    let produced_series = match take_range(o2) {
        Ok(x) => x,
        Err(e) => return Err(e),
    };
    let consumed_series = match take_range(o3) {
        Ok(x) => x,
        Err(e) => return Err(e),
    };
    let packages = match take_instant(o4) {
        Ok(x) => x,
        Err(e) => return Err(e),
    };
    Ok(
        ProductionReport {
            range: owned(range.as_str()),
            top_produced: labeled(&produced, "item"),
            top_consumed: labeled(&consumed, "item"),
            produced_series: to_series(&produced_series, "item"),
            consumed_series: to_series(&consumed_series, "item"),
            research_packages_per_minute: scalar(&packages),
        },
    )
}

// ------------------------------------------------------------ health

/// Fetches of the health check: none when Prometheus did not answer the
/// liveness probe, otherwise the Factorio job's `up` and the game tick.
pub open spec fn health_plan(reachable: bool) -> Seq<Fetch> {
    if reachable {
        seq![
            instant(Query::FactorioTargetUp, TimeRange::OneHour),
            instant(Query::GameTicksPlayed, TimeRange::OneHour),
        ]
    } else {
        Seq::empty()
    }
}

/// `value.unwrap_or(0.0) > 0.0`.
pub open spec fn reads_above_zero(value: Option<u64>) -> bool {
    match value {
        Some(b) => is_above_zero(b),
        None => false,
    }
}

/// Fetches of the health check, given whether the liveness probe went through.
pub fn health_fetches(reachable: bool) -> (r: Vec<Fetch>)
    ensures
        r@ == health_plan(reachable),
{
    if reachable {
        let r = vec![
            Fetch { query: Query::FactorioTargetUp, kind: FetchKind::Instant, range: TimeRange::OneHour },
            Fetch { query: Query::GameTicksPlayed, kind: FetchKind::Instant, range: TimeRange::OneHour },
        ];
        assert(r@ =~= health_plan(reachable));
        r
    } else {
        let r: Vec<Fetch> = Vec::new();
        assert(r@ =~= health_plan(reachable));
        r
    }
}

/// The health report the probe and the fetches yield.
pub open spec fn health_report_is(rep: HealthReport, reachable: bool, outs: Seq<FetchOutcome>) -> bool {
    &&& rep.prometheus_reachable == reachable
    &&& rep.factorio_metrics_job_present == (reachable && reads_above_zero(outcome_scalar(outs[0])))
    &&& rep.game_ticks_played == (if reachable {
        outcome_scalar(outs[1])
    } else {
        None
    })
}

/// Builds the health report: the Factorio job counts as present when its
/// `up` reads above zero; failed queries count as missing values.
pub fn build_health(reachable: bool, outcomes: Vec<FetchOutcome>) -> (r: HealthReport)
    requires
        outcomes_fit(outcomes@, health_plan(reachable)),
    ensures
        health_report_is(r, reachable, outcomes@),
{
    if !reachable {
        return HealthReport {
            prometheus_reachable: false,
            factorio_metrics_job_present: false,
            game_ticks_played: None,
        };
    }
    let ghost outs = outcomes@;
    assert(outs[0] is Instant && outs[1] is Instant);
    let mut v = outcomes;
    let o1 = pop_outcome(&mut v);
    let o0 = pop_outcome(&mut v);
    let up = match take_instant(o0) {
        Ok(x) => scalar(&x),
        Err(_) => None,
    };
    let ticks = match take_instant(o1) {
        Ok(x) => scalar(&x),
        Err(_) => None,
    };
    let present = match up {
        Some(b) => above_zero(b),
        None => false,
    };
    HealthReport {
        prometheus_reachable: true,
        factorio_metrics_job_present: present,
        game_ticks_played: ticks,
    }
}

// ------------------------------------------------------------ overview

/// Fetches of the overview.
pub open spec fn overview_plan(range: TimeRange) -> Seq<Fetch> {
    seq![
        instant(Query::EvolutionFactor, range),
        instant(Query::PollutionOverall, range),
        instant(Query::PowerProduction, range),
        instant(Query::PowerConsumption, range),
        instant(Query::AccumulatorCharge, range),
        instant(Query::Satisfaction, range),
        instant(Query::ItemProduced, range),
        instant(Query::ItemConsumed, range),
        instant(Query::CurrentResearch, range),
        instant(Query::ResearchProgressPct, range),
        instant(Query::MachineCounts, range),
        instant(Query::RobotCounts, range),
        instant(Query::TrainCounts, range),
        instant(Query::PlatformCount, range),
    ]
}

/// Order in which the overview gives up on a failed fetch.
pub open spec fn overview_failure_order() -> Seq<int> {
    seq![8, 0, 1, 2, 3, 4, 5, 6, 7, 9, 13, 10, 11, 12]
}

/// A present text as plain characters.
pub open spec fn text_view(t: Option<String>) -> Option<Seq<char>> {
    match t {
        Some(s) => Some(s@),
        None => None,
    }
}

/// The overview the fetches yield.
pub open spec fn overview_is(rep: Overview, health: HealthReport, outs: Seq<FetchOutcome>) -> bool {
    &&& rep.health == health
    &&& rep.evolution_factor == scalar_of(outcome_series(outs[0]))
    &&& rep.pollution == scalar_of(outcome_series(outs[1]))
    &&& rep.power_production_mw == scalar_of(outcome_series(outs[2]))
    &&& rep.power_consumption_mw == scalar_of(outcome_series(outs[3]))
    &&& rep.accumulator_charge_fraction == scalar_of(outcome_series(outs[4]))
    &&& rep.satisfaction_fraction == scalar_of(outcome_series(outs[5]))
    &&& labeled_from(outcome_series(outs[6]), "item"@, readings_view(rep.top_produced@))
    &&& labeled_from(outcome_series(outs[7]), "item"@, readings_view(rep.top_consumed@))
    &&& text_view(rep.current_research) == research_name(outcome_series(outs[8]))
    &&& rep.research_progress_pct == scalar_of(outcome_series(outs[9]))
    &&& labeled_from(outcome_series(outs[10]), "machine"@, readings_view(rep.machine_counts@))
    &&& labeled_from(outcome_series(outs[11]), "robot"@, readings_view(rep.robot_counts@))
    &&& labeled_from(outcome_series(outs[12]), "state"@, readings_view(rep.train_counts@))
    &&& rep.platform_count == scalar_of(outcome_series(outs[13]))
}

/// The overview when Prometheus is down: the health report and nothing else.
pub open spec fn is_degraded_overview(rep: Overview, health: HealthReport) -> bool {
    &&& rep.health == health
    &&& rep.evolution_factor is None
    &&& rep.pollution is None
    &&& rep.power_production_mw is None
    &&& rep.power_consumption_mw is None
    &&& rep.accumulator_charge_fraction is None
    &&& rep.satisfaction_fraction is None
    &&& rep.top_produced@.len() == 0
    &&& rep.top_consumed@.len() == 0
    &&& rep.current_research is None
    &&& rep.research_progress_pct is None
    &&& rep.platform_count is None
    &&& rep.machine_counts@.len() == 0
    &&& rep.robot_counts@.len() == 0
    &&& rep.train_counts@.len() == 0
}

/// Fetches of the overview, given the health report: none when Prometheus
/// is unreachable.
pub fn overview_fetches(range: TimeRange, health: &HealthReport) -> (r: Vec<Fetch>)
    ensures
        health.prometheus_reachable ==> r@ == overview_plan(range),
        !health.prometheus_reachable ==> r@.len() == 0,
{
    if !health.prometheus_reachable {
        return Vec::new();
    }
    let r = vec![
        Fetch { query: Query::EvolutionFactor, kind: FetchKind::Instant, range },
        Fetch { query: Query::PollutionOverall, kind: FetchKind::Instant, range },
        Fetch { query: Query::PowerProduction, kind: FetchKind::Instant, range },
        Fetch { query: Query::PowerConsumption, kind: FetchKind::Instant, range },
        Fetch { query: Query::AccumulatorCharge, kind: FetchKind::Instant, range },
        Fetch { query: Query::Satisfaction, kind: FetchKind::Instant, range },
        Fetch { query: Query::ItemProduced, kind: FetchKind::Instant, range },
        Fetch { query: Query::ItemConsumed, kind: FetchKind::Instant, range },
        Fetch { query: Query::CurrentResearch, kind: FetchKind::Instant, range },
        Fetch { query: Query::ResearchProgressPct, kind: FetchKind::Instant, range },
        Fetch { query: Query::MachineCounts, kind: FetchKind::Instant, range },
        Fetch { query: Query::RobotCounts, kind: FetchKind::Instant, range },
        Fetch { query: Query::TrainCounts, kind: FetchKind::Instant, range },
        Fetch { query: Query::PlatformCount, kind: FetchKind::Instant, range },
    ];
    assert(r@ =~= overview_plan(range));
    r
}

/// Builds the overview: when Prometheus is unreachable, the degraded
/// overview; otherwise the report of the fetches, or the error of the
/// first that failed.
#[verifier::rlimit(40)]
pub fn build_overview(range: TimeRange, health: HealthReport, outcomes: Vec<FetchOutcome>) -> (r:
    Result<Overview, ApiError>)
    requires
        health.prometheus_reachable ==> outcomes_fit(outcomes@, overview_plan(range)),
        !health.prometheus_reachable ==> outcomes@.len() == 0,
    ensures
        !health.prometheus_reachable ==> (r matches Ok(rep) && is_degraded_overview(rep, health)),
        health.prometheus_reachable ==> match first_failure(outcomes@, overview_failure_order()) {
            Some(e) => r matches Err(x) && x@ == e,
            None => r matches Ok(rep) && overview_is(rep, health, outcomes@),
        },
{
    if !health.prometheus_reachable {
        return Ok(
            Overview {
                health,
                evolution_factor: None,
                pollution: None,
                power_production_mw: None,
                power_consumption_mw: None,
                accumulator_charge_fraction: None,
                satisfaction_fraction: None,
                top_produced: Vec::new(),
                top_consumed: Vec::new(),
                current_research: None,
                research_progress_pct: None,
                platform_count: None,
                machine_counts: Vec::new(),
                robot_counts: Vec::new(),
                train_counts: Vec::new(),
            },
        );
    }
    let ghost outs = outcomes@;
    proof {
        reveal_with_fuel(first_failure, 15);
        assert forall|i: int| 0 <= i < 14 implies #[trigger] outs[i] is Instant by {
            assert(overview_plan(range)[i].kind == FetchKind::Instant);
        }
    }
    let mut v = outcomes;
    let o13 = pop_outcome(&mut v);
    let o12 = pop_outcome(&mut v);
    let o11 = pop_outcome(&mut v);
    let o10 = pop_outcome(&mut v);
    let o9 = pop_outcome(&mut v);
    let o8 = pop_outcome(&mut v);
    let o7 = pop_outcome(&mut v);
    let o6 = pop_outcome(&mut v);
    let o5 = pop_outcome(&mut v);
    let o4 = pop_outcome(&mut v);
    let o3 = pop_outcome(&mut v);
    let o2 = pop_outcome(&mut v);
    let o1 = pop_outcome(&mut v);
    let o0 = pop_outcome(&mut v);
    assert(o0 == outs[0] && o1 == outs[1] && o2 == outs[2] && o3 == outs[3] && o4 == outs[4]);
    assert(o5 == outs[5] && o6 == outs[6] && o7 == outs[7] && o8 == outs[8] && o9 == outs[9]);
    assert(o10 == outs[10] && o11 == outs[11] && o12 == outs[12] && o13 == outs[13]);
    let research = match take_instant(o8) {
        Ok(x) => x,
        Err(e) => return Err(e),
    };
    let current = current_research(&research);
    let evolution = match take_instant(o0) {
        Ok(x) => x,
        Err(e) => return Err(e),
    };
    let pollution = match take_instant(o1) {
        Ok(x) => x,
        Err(e) => return Err(e),
    };
    let power_prod = match take_instant(o2) {
        Ok(x) => x,
        Err(e) => return Err(e),
    };
    let power_cons = match take_instant(o3) {
        Ok(x) => x,
        Err(e) => return Err(e),
    };
    let accu = match take_instant(o4) {
        Ok(x) => x,
        Err(e) => return Err(e),
    };
    let satisfaction = match take_instant(o5) {
        Ok(x) => x,
        Err(e) => return Err(e),
    };
    let top_produced = match take_instant(o6) {
        Ok(x) => x,
        Err(e) => return Err(e),
    };
    let top_consumed = match take_instant(o7) {
        Ok(x) => x,
        Err(e) => return Err(e),
    };
    let research_progress = match take_instant(o9) {
        Ok(x) => x,
        Err(e) => return Err(e),
    };
    let platforms = match take_instant(o13) {
        Ok(x) => x,
        Err(e) => return Err(e),
    };
    let machines = match take_instant(o10) {
        Ok(x) => x,
        Err(e) => return Err(e),
    };
    let robots = match take_instant(o11) {
        Ok(x) => x,
        Err(e) => return Err(e),
    };
    let trains = match take_instant(o12) {
        Ok(x) => x,
        Err(e) => return Err(e),
    };
    Ok(
        Overview {
            health,
            evolution_factor: scalar(&evolution),
            pollution: scalar(&pollution),
            power_production_mw: scalar(&power_prod),
            power_consumption_mw: scalar(&power_cons),
            accumulator_charge_fraction: scalar(&accu),
            satisfaction_fraction: scalar(&satisfaction),
            top_produced: labeled(&top_produced, "item"),
            top_consumed: labeled(&top_consumed, "item"),
            current_research: current,
            research_progress_pct: scalar(&research_progress),
            platform_count: scalar(&platforms),
            machine_counts: labeled(&machines, "machine"),
            robot_counts: labeled(&robots, "robot"),
            train_counts: labeled(&trains, "state"),
        },
    )
}

// ------------------------------------------------------------ power

/// Fetches of the power view.
pub open spec fn power_plan(range: TimeRange) -> Seq<Fetch> {
    seq![
        instant(Query::PowerProduction, range),
        instant(Query::PowerConsumption, range),
        instant(Query::PowerProductionBySource, range),
        ranged(Query::PowerProduction, range),
        ranged(Query::PowerConsumption, range),
        instant(Query::AccumulatorCharge, range),
        instant(Query::Satisfaction, range),
    ]
}

/// The power report the fetches yield.
pub open spec fn power_report_is(rep: PowerReport, range: TimeRange, outs: Seq<FetchOutcome>) -> bool {
    &&& rep.range@ == range_text(range)
    &&& rep.production_mw == scalar_of(outcome_series(outs[0]))
    &&& rep.consumption_mw == scalar_of(outcome_series(outs[1]))
    &&& labeled_from(outcome_series(outs[2]), "source"@, readings_view(rep.production_by_source@))
    &&& rep.production_series@.map_values(|s: Series| s@) == named_series(
        outcome_series(outs[3]),
        "source"@,
    )
    &&& rep.consumption_series@.map_values(|s: Series| s@) == named_series(
        outcome_series(outs[4]),
        "source"@,
    )
    &&& rep.accumulator_charge_fraction == scalar_of(outcome_series(outs[5]))
    &&& rep.satisfaction_fraction == scalar_of(outcome_series(outs[6]))
}

/// Fetches of the power view.
pub fn power_fetches(range: TimeRange) -> (r: Vec<Fetch>)
    ensures
        r@ == power_plan(range),
{
    let r = vec![
        Fetch { query: Query::PowerProduction, kind: FetchKind::Instant, range },
        Fetch { query: Query::PowerConsumption, kind: FetchKind::Instant, range },
        Fetch { query: Query::PowerProductionBySource, kind: FetchKind::Instant, range },
        Fetch { query: Query::PowerProduction, kind: FetchKind::Range, range },
        Fetch { query: Query::PowerConsumption, kind: FetchKind::Range, range },
        Fetch { query: Query::AccumulatorCharge, kind: FetchKind::Instant, range },
        Fetch { query: Query::Satisfaction, kind: FetchKind::Instant, range },
    ];
    assert(r@ =~= power_plan(range));
    r
}

/// Builds the power report, or gives the error of the first fetch that failed.
pub fn build_power(range: TimeRange, outcomes: Vec<FetchOutcome>) -> (r: Result<PowerReport, ApiError>)
    requires
        outcomes_fit(outcomes@, power_plan(range)),
    ensures
        match first_failure(outcomes@, seq![0, 1, 2, 3, 4, 5, 6]) {
            Some(e) => r matches Err(x) && x@ == e,
            None => r matches Ok(rep) && power_report_is(rep, range, outcomes@),
        },
{
    let ghost outs = outcomes@;
    proof {
        reveal_with_fuel(first_failure, 8);
        assert(power_plan(range)[3].kind == FetchKind::Range);
        assert(power_plan(range)[4].kind == FetchKind::Range);
        assert(outs[0] is Instant && outs[1] is Instant && outs[2] is Instant && outs[3] is Range
            && outs[4] is Range && outs[5] is Instant && outs[6] is Instant);
    }
    let mut v = outcomes;
    let o6 = pop_outcome(&mut v);
    let o5 = pop_outcome(&mut v);
    let o4 = pop_outcome(&mut v);
    let o3 = pop_outcome(&mut v);
    let o2 = pop_outcome(&mut v);
    let o1 = pop_outcome(&mut v);
    let o0 = pop_outcome(&mut v);
    let prod = match take_instant(o0) {
        Ok(x) => x,
        Err(e) => return Err(e),
    };
    let cons = match take_instant(o1) {
        Ok(x) => x,
        Err(e) => return Err(e),
    };
    let by_source = match take_instant(o2) {
        Ok(x) => x,
        Err(e) => return Err(e),
    };
    let prod_series = match take_range(o3) {
        Ok(x) => x,
        Err(e) => return Err(e),
    };
    let cons_series = match take_range(o4) {
        Ok(x) => x,
        Err(e) => return Err(e),
    };
    let accu = match take_instant(o5) {
        Ok(x) => x,
        Err(e) => return Err(e),
    };
    let satisfaction = match take_instant(o6) {
        Ok(x) => x,
        Err(e) => return Err(e),
    };
    Ok(
        PowerReport {
            range: owned(range.as_str()),
            production_mw: scalar(&prod),
            consumption_mw: scalar(&cons),
            production_by_source: labeled(&by_source, "source"),
            production_series: to_series(&prod_series, "source"),
            consumption_series: to_series(&cons_series, "source"),
            accumulator_charge_fraction: scalar(&accu),
            satisfaction_fraction: scalar(&satisfaction),
        },
    )
}

// ------------------------------------------------------------ factory

/// Fetches of the factory view.
pub open spec fn factory_plan(range: TimeRange) -> Seq<Fetch> {
    seq![instant(Query::MachineCounts, range)]
}

/// Machine rows from readings: the reading is the active count; no total.
pub open spec fn machine_rows(rows: Seq<(Seq<char>, u64)>) -> Seq<(Seq<char>, Option<u64>, Option<u64>)> {
    rows.map_values(|r: (Seq<char>, u64)| (r.0, Some(r.1), None::<u64>))
}

/// The factory report the fetch yields.
pub open spec fn factory_report_is(rep: FactoryReport, outs: Seq<FetchOutcome>) -> bool {
    exists|rows: Seq<(Seq<char>, u64)>|
        labeled_from(outcome_series(outs[0]), "machine"@, rows)
            && rep.machines@.map_values(|m: MachineStatus| m@) == machine_rows(rows)
}

/// Fetches of the factory view.
pub fn factory_fetches(range: TimeRange) -> (r: Vec<Fetch>)
    ensures
        r@ == factory_plan(range),
{
    let r = vec![Fetch { query: Query::MachineCounts, kind: FetchKind::Instant, range }];
    assert(r@ =~= factory_plan(range));
    r
}

/// Builds the factory report, or gives the error of its fetch.
pub fn build_factory(range: TimeRange, outcomes: Vec<FetchOutcome>) -> (r: Result<FactoryReport, ApiError>)
    requires
        outcomes_fit(outcomes@, factory_plan(range)),
    ensures
        match outcome_error(outcomes@[0]) {
            Some(e) => r matches Err(x) && x@ == e,
            None => r matches Ok(rep) && factory_report_is(rep, outcomes@),
        },
{
    let ghost outs = outcomes@;
    assert(outs[0] is Instant);
    let mut v = outcomes;
    let o0 = pop_outcome(&mut v);
    let machines = match take_instant(o0) {
        Ok(x) => x,
        Err(e) => return Err(e),
    };
    let rows = labeled(&machines, "machine");
    let ghost rv = readings_view(rows@);
    let n = rows.len();
    let mut out: Vec<MachineStatus> = Vec::new();
    let mut i: usize = 0;
    while i < n
        invariant
            n == rows@.len(),
            i <= n,
            rv == readings_view(rows@),
            out@.map_values(|m: MachineStatus| m@) == machine_rows(rv.take(i as int)),
        decreases n - i,
    {
        let ghost before = out@;
        let row = MachineStatus { machine: rows[i].label.clone(), active: Some(rows[i].value), total: None };
        let ghost mv = row@;
        out.push(row);
        assert(out@.map_values(|m: MachineStatus| m@) =~= before.map_values(|m: MachineStatus| m@).push(mv));
        assert(machine_rows(rv.take(i + 1)) =~= machine_rows(rv.take(i as int)).push(mv));
        i = i + 1;
    }
    assert(rv.take(n as int) =~= rv);
    Ok(FactoryReport { machines: out })
}

// ------------------------------------------------------------ logistics

/// Fetches of the logistics view.
pub open spec fn logistics_plan(range: TimeRange) -> Seq<Fetch> {
    seq![
        instant(Query::RobotCounts, range),
        instant(Query::NetworkIdCount, range),
        instant(Query::ChestContents, range),
    ]
}

/// The logistics report the fetches yield.
pub open spec fn logistics_report_is(rep: LogisticsReport, outs: Seq<FetchOutcome>) -> bool {
    &&& labeled_from(outcome_series(outs[0]), "robot"@, readings_view(rep.robots@))
    &&& rep.networks == scalar_of(outcome_series(outs[1]))
    &&& exists|rows: Seq<(Seq<char>, u64)>|
        labeled_from(outcome_series(outs[2]), "item"@, rows) && top_ten_by_value(
            rows,
            readings_view(rep.top_stored_items@),
        )
}

/// Fetches of the logistics view.
pub fn logistics_fetches(range: TimeRange) -> (r: Vec<Fetch>)
    ensures
        r@ == logistics_plan(range),
{
    let r = vec![
        Fetch { query: Query::RobotCounts, kind: FetchKind::Instant, range },
        Fetch { query: Query::NetworkIdCount, kind: FetchKind::Instant, range },
        Fetch { query: Query::ChestContents, kind: FetchKind::Instant, range },
    ];
    assert(r@ =~= logistics_plan(range));
    r
}

/// Builds the logistics report, or gives the error of the first fetch that
/// failed (the chest contents are looked at first).
pub fn build_logistics(range: TimeRange, outcomes: Vec<FetchOutcome>) -> (r: Result<LogisticsReport, ApiError>)
    requires
        outcomes_fit(outcomes@, logistics_plan(range)),
    ensures
        match first_failure(outcomes@, seq![2, 0, 1]) {
            Some(e) => r matches Err(x) && x@ == e,
            None => r matches Ok(rep) && logistics_report_is(rep, outcomes@),
        },
{
    let ghost outs = outcomes@;
    proof {
        reveal_with_fuel(first_failure, 4);
        assert(outs[0] is Instant && outs[1] is Instant && outs[2] is Instant);
    }
    let mut v = outcomes;
    let o2 = pop_outcome(&mut v);
    let o1 = pop_outcome(&mut v);
    let o0 = pop_outcome(&mut v);
    let chest = match take_instant(o2) {
        Ok(x) => x,
        Err(e) => return Err(e),
    };
    let stored = labeled(&chest, "item");
    let ghost rows = readings_view(stored@);
    let top_stored = top_ten(stored);
    let robots = match take_instant(o0) {
        Ok(x) => x,
        Err(e) => return Err(e),
    };
    let networks = match take_instant(o1) {
        Ok(x) => x,
        Err(e) => return Err(e),
    };
    let rep = LogisticsReport {
        robots: labeled(&robots, "robot"),
        networks: scalar(&networks),
        top_stored_items: top_stored,
    };
    assert(labeled_from(outcome_series(outs[2]), "item"@, rows));
    assert(top_ten_by_value(rows, readings_view(rep.top_stored_items@)));
    assert(logistics_report_is(rep, outs));
    Ok(rep)
}

// ------------------------------------------------------------ trains

/// Fetches of the trains view.
pub open spec fn trains_plan(range: TimeRange) -> Seq<Fetch> {
    seq![
        instant(Query::TrainCounts, range),
        instant(Query::TrainStations, range),
        instant(Query::TrainStationWaiting, range),
    ]
}

/// The trains report the fetches yield.
pub open spec fn trains_report_is(rep: TrainsReport, outs: Seq<FetchOutcome>) -> bool {
    &&& labeled_from(outcome_series(outs[0]), "state"@, readings_view(rep.trains_by_state@))
    &&& rep.station_count == scalar_of(outcome_series(outs[1]))
    &&& labeled_from(outcome_series(outs[2]), "station"@, readings_view(rep.stations_waiting@))
}

/// Fetches of the trains view.
pub fn trains_fetches(range: TimeRange) -> (r: Vec<Fetch>)
    ensures
        r@ == trains_plan(range),
{
    let r = vec![
        Fetch { query: Query::TrainCounts, kind: FetchKind::Instant, range },
        Fetch { query: Query::TrainStations, kind: FetchKind::Instant, range },
        Fetch { query: Query::TrainStationWaiting, kind: FetchKind::Instant, range },
    ];
    assert(r@ =~= trains_plan(range));
    r
}

/// Builds the trains report, or gives the error of the first fetch that failed.
pub fn build_trains(range: TimeRange, outcomes: Vec<FetchOutcome>) -> (r: Result<TrainsReport, ApiError>)
    requires
        outcomes_fit(outcomes@, trains_plan(range)),
    ensures
        match first_failure(outcomes@, seq![0, 1, 2]) {
            Some(e) => r matches Err(x) && x@ == e,
            None => r matches Ok(rep) && trains_report_is(rep, outcomes@),
        },
{
    let ghost outs = outcomes@;
    proof {
        reveal_with_fuel(first_failure, 4);
        assert(outs[0] is Instant && outs[1] is Instant && outs[2] is Instant);
    }
    let mut v = outcomes;
    let o2 = pop_outcome(&mut v);
    let o1 = pop_outcome(&mut v);
    let o0 = pop_outcome(&mut v);
    let trains = match take_instant(o0) {
        Ok(x) => x,
        Err(e) => return Err(e),
    };
    let stations = match take_instant(o1) {
        Ok(x) => x,
        Err(e) => return Err(e),
    };
    let waiting = match take_instant(o2) {
        Ok(x) => x,
        Err(e) => return Err(e),
    };
    Ok(
        TrainsReport {
            trains_by_state: labeled(&trains, "state"),
            station_count: scalar(&stations),
            stations_waiting: labeled(&waiting, "station"),
        },
    )
}

// ------------------------------------------------------------ research

/// Fetches of the research view.
pub open spec fn research_plan(range: TimeRange) -> Seq<Fetch> {
    seq![
        instant(Query::ResearchProgressPct, range),
        instant(Query::ResearchCompletedCount, range),
        instant(Query::ResearchQueueSize, range),
        instant(Query::CurrentResearch, range),
    ]
}

/// The research report the fetches yield.
pub open spec fn research_report_is(rep: ResearchReport, outs: Seq<FetchOutcome>) -> bool {
    &&& text_view(rep.current_research) == research_name(outcome_series(outs[3]))
    &&& rep.progress_pct == scalar_of(outcome_series(outs[0]))
    &&& rep.completed_count == scalar_of(outcome_series(outs[1]))
    &&& rep.queue_size == scalar_of(outcome_series(outs[2]))
}

/// Fetches of the research view.
pub fn research_fetches(range: TimeRange) -> (r: Vec<Fetch>)
    ensures
        r@ == research_plan(range),
{
    let r = vec![
        Fetch { query: Query::ResearchProgressPct, kind: FetchKind::Instant, range },
        Fetch { query: Query::ResearchCompletedCount, kind: FetchKind::Instant, range },
        Fetch { query: Query::ResearchQueueSize, kind: FetchKind::Instant, range },
        Fetch { query: Query::CurrentResearch, kind: FetchKind::Instant, range },
    ];
    assert(r@ =~= research_plan(range));
    r
}

/// Builds the research report, or gives the error of the first fetch that
/// failed (the research in progress is looked at first).
pub fn build_research(range: TimeRange, outcomes: Vec<FetchOutcome>) -> (r: Result<ResearchReport, ApiError>)
    requires
        outcomes_fit(outcomes@, research_plan(range)),
    ensures
        match first_failure(outcomes@, seq![3, 0, 1, 2]) {
            Some(e) => r matches Err(x) && x@ == e,
            None => r matches Ok(rep) && research_report_is(rep, outcomes@),
        },
{
    let ghost outs = outcomes@;
    proof {
        reveal_with_fuel(first_failure, 5);
        assert(outs[0] is Instant && outs[1] is Instant && outs[2] is Instant && outs[3] is Instant);
    }
    let mut v = outcomes;
    let o3 = pop_outcome(&mut v);
    let o2 = pop_outcome(&mut v);
    let o1 = pop_outcome(&mut v);
    let o0 = pop_outcome(&mut v);
    let in_progress = match take_instant(o3) {
        Ok(x) => x,
        Err(e) => return Err(e),
    };
    let current = current_research(&in_progress);
    let progress = match take_instant(o0) {
        Ok(x) => x,
        Err(e) => return Err(e),
    };
    let completed = match take_instant(o1) {
        Ok(x) => x,
        Err(e) => return Err(e),
    };
    let queue = match take_instant(o2) {
        Ok(x) => x,
        Err(e) => return Err(e),
    };
    Ok(
        ResearchReport {
            current_research: current,
            progress_pct: scalar(&progress),
            completed_count: scalar(&completed),
            queue_size: scalar(&queue),
        },
    )
}

// ------------------------------------------------------------ platforms

/// Fetches of the platforms view.
pub open spec fn platforms_plan(range: TimeRange) -> Seq<Fetch> {
    seq![
        instant(Query::PlatformCount, range),
        instant(Query::PlatformSpeed, range),
        instant(Query::PlatformFuel, range),
    ]
}

/// The platforms report the fetches yield.
pub open spec fn platforms_report_is(rep: PlatformReport, outs: Seq<FetchOutcome>) -> bool {
    &&& rep.count == scalar_of(outcome_series(outs[0]))
    &&& exists|speeds: Seq<(Seq<char>, u64)>, fuels: Seq<(Seq<char>, u64)>|
        labeled_from(outcome_series(outs[1]), "platform"@, speeds) && labeled_from(
            outcome_series(outs[2]),
            "platform"@,
            fuels,
        ) && platform_rows_from(speeds, fuels, rep.platforms@.map_values(|p: PlatformStatus| p@))
}

/// Fetches of the platforms view.
pub fn platforms_fetches(range: TimeRange) -> (r: Vec<Fetch>)
    ensures
        r@ == platforms_plan(range),
{
    let r = vec![
        Fetch { query: Query::PlatformCount, kind: FetchKind::Instant, range },
        Fetch { query: Query::PlatformSpeed, kind: FetchKind::Instant, range },
        Fetch { query: Query::PlatformFuel, kind: FetchKind::Instant, range },
    ];
    assert(r@ =~= platforms_plan(range));
    r
}

/// Builds the platforms report, or gives the error of the first fetch that
/// failed (speeds, then fuel, then the count).
pub fn build_platforms(range: TimeRange, outcomes: Vec<FetchOutcome>) -> (r: Result<PlatformReport, ApiError>)
    requires
        outcomes_fit(outcomes@, platforms_plan(range)),
    ensures
        match first_failure(outcomes@, seq![1, 2, 0]) {
            Some(e) => r matches Err(x) && x@ == e,
            None => r matches Ok(rep) && platforms_report_is(rep, outcomes@),
        },
{
    let ghost outs = outcomes@;
    proof {
        reveal_with_fuel(first_failure, 4);
        assert(outs[0] is Instant && outs[1] is Instant && outs[2] is Instant);
    }
    let mut v = outcomes;
    let o2 = pop_outcome(&mut v);
    let o1 = pop_outcome(&mut v);
    let o0 = pop_outcome(&mut v);
    let speed = match take_instant(o1) {
        Ok(x) => x,
        Err(e) => return Err(e),
    };
    let fuel = match take_instant(o2) {
        Ok(x) => x,
        Err(e) => return Err(e),
    };
    let speeds = labeled(&speed, "platform");
    let fuels = labeled(&fuel, "platform");
    let platforms = platform_rows(&speeds, &fuels);
    let count = match take_instant(o0) {
        Ok(x) => x,
        Err(e) => return Err(e),
    };
    let rep = PlatformReport { count: scalar(&count), platforms };
    assert(labeled_from(outcome_series(outs[1]), "platform"@, readings_view(speeds@)));
    assert(labeled_from(outcome_series(outs[2]), "platform"@, readings_view(fuels@)));
    Ok(rep)
}


// ------------------------------------------------------------ sources of fields

/// Some fetch of `plan` is `f`, and `holds` is true of the series its
/// outcome yielded.
pub open spec fn read_from(
    plan: Seq<Fetch>,
    outs: Seq<FetchOutcome>,
    f: Fetch,
    holds: spec_fn(Seq<SeriesView>) -> bool,
) -> bool {
    exists|k: int| #![trigger plan[k]] 0 <= k < plan.len() && plan[k] == f && holds(outcome_series(outs[k]))
}

/// Each overview field comes from the query named for it: evolution from
/// the evolution factor, power production from the production query and
/// consumption from the consumption query, and so on for every field.
pub proof fn lemma_overview_reads_named_queries(range: TimeRange, health: HealthReport, outs: Seq<FetchOutcome>, rep: Overview)
    requires
        overview_is(rep, health, outs),
    ensures
        rep.health == health,
        read_from(overview_plan(range), outs, instant(Query::EvolutionFactor, range), |v: Seq<SeriesView>| rep.evolution_factor == scalar_of(v)),
        read_from(overview_plan(range), outs, instant(Query::PollutionOverall, range), |v: Seq<SeriesView>| rep.pollution == scalar_of(v)),
        read_from(overview_plan(range), outs, instant(Query::PowerProduction, range), |v: Seq<SeriesView>| rep.power_production_mw == scalar_of(v)),
        read_from(overview_plan(range), outs, instant(Query::PowerConsumption, range), |v: Seq<SeriesView>| rep.power_consumption_mw == scalar_of(v)),
        read_from(overview_plan(range), outs, instant(Query::AccumulatorCharge, range), |v: Seq<SeriesView>| rep.accumulator_charge_fraction == scalar_of(v)),
        read_from(overview_plan(range), outs, instant(Query::Satisfaction, range), |v: Seq<SeriesView>| rep.satisfaction_fraction == scalar_of(v)),
        read_from(overview_plan(range), outs, instant(Query::ItemProduced, range), |v: Seq<SeriesView>| labeled_from(v, "item"@, readings_view(rep.top_produced@))),
        read_from(overview_plan(range), outs, instant(Query::ItemConsumed, range), |v: Seq<SeriesView>| labeled_from(v, "item"@, readings_view(rep.top_consumed@))),
        read_from(overview_plan(range), outs, instant(Query::CurrentResearch, range), |v: Seq<SeriesView>| text_view(rep.current_research) == research_name(v)),
        read_from(overview_plan(range), outs, instant(Query::ResearchProgressPct, range), |v: Seq<SeriesView>| rep.research_progress_pct == scalar_of(v)),
        read_from(overview_plan(range), outs, instant(Query::MachineCounts, range), |v: Seq<SeriesView>| labeled_from(v, "machine"@, readings_view(rep.machine_counts@))),
        read_from(overview_plan(range), outs, instant(Query::RobotCounts, range), |v: Seq<SeriesView>| labeled_from(v, "robot"@, readings_view(rep.robot_counts@))),
        read_from(overview_plan(range), outs, instant(Query::TrainCounts, range), |v: Seq<SeriesView>| labeled_from(v, "state"@, readings_view(rep.train_counts@))),
        read_from(overview_plan(range), outs, instant(Query::PlatformCount, range), |v: Seq<SeriesView>| rep.platform_count == scalar_of(v)),
{
    assert(overview_plan(range)[0] == instant(Query::EvolutionFactor, range));
    assert(overview_plan(range)[1] == instant(Query::PollutionOverall, range));
    assert(overview_plan(range)[2] == instant(Query::PowerProduction, range));
    assert(overview_plan(range)[3] == instant(Query::PowerConsumption, range));
    assert(overview_plan(range)[4] == instant(Query::AccumulatorCharge, range));
    assert(overview_plan(range)[5] == instant(Query::Satisfaction, range));
    assert(overview_plan(range)[6] == instant(Query::ItemProduced, range));
    assert(overview_plan(range)[7] == instant(Query::ItemConsumed, range));
    assert(overview_plan(range)[8] == instant(Query::CurrentResearch, range));
    assert(overview_plan(range)[9] == instant(Query::ResearchProgressPct, range));
    assert(overview_plan(range)[10] == instant(Query::MachineCounts, range));
    assert(overview_plan(range)[11] == instant(Query::RobotCounts, range));
    assert(overview_plan(range)[12] == instant(Query::TrainCounts, range));
    assert(overview_plan(range)[13] == instant(Query::PlatformCount, range));
}

/// Each production field comes from the query named for it: produced
/// items from the produced query, consumed items from the consumed query,
/// the charts from the rate queries over the range.
pub proof fn lemma_production_reads_named_queries(range: TimeRange, outs: Seq<FetchOutcome>, rep: ProductionReport)
    requires
        production_report_is(rep, range, outs),
    ensures
        rep.range@ == range_text(range),
        read_from(production_plan(range), outs, instant(Query::ItemProduced, range), |v: Seq<SeriesView>| labeled_from(v, "item"@, readings_view(rep.top_produced@))),
        read_from(production_plan(range), outs, instant(Query::ItemConsumed, range), |v: Seq<SeriesView>| labeled_from(v, "item"@, readings_view(rep.top_consumed@))),
        read_from(production_plan(range), outs, ranged(Query::ItemProducedRate, range), |v: Seq<SeriesView>| rep.produced_series@.map_values(|s: Series| s@) == named_series(v, "item"@)),
        read_from(production_plan(range), outs, ranged(Query::ItemConsumedRate, range), |v: Seq<SeriesView>| rep.consumed_series@.map_values(|s: Series| s@) == named_series(v, "item"@)),
        read_from(production_plan(range), outs, instant(Query::ResearchPackagesBuilt, range), |v: Seq<SeriesView>| rep.research_packages_per_minute == scalar_of(v)),
{
    assert(production_plan(range)[0] == instant(Query::ItemProduced, range));
    assert(production_plan(range)[1] == instant(Query::ItemConsumed, range));
    assert(production_plan(range)[2] == ranged(Query::ItemProducedRate, range));
    assert(production_plan(range)[3] == ranged(Query::ItemConsumedRate, range));
    assert(production_plan(range)[4] == instant(Query::ResearchPackagesBuilt, range));
}

/// Each power field comes from the query named for it: production and
/// consumption from their own queries, now and over the range.
pub proof fn lemma_power_reads_named_queries(range: TimeRange, outs: Seq<FetchOutcome>, rep: PowerReport)
    requires
        power_report_is(rep, range, outs),
    ensures
        rep.range@ == range_text(range),
        read_from(power_plan(range), outs, instant(Query::PowerProduction, range), |v: Seq<SeriesView>| rep.production_mw == scalar_of(v)),
        read_from(power_plan(range), outs, instant(Query::PowerConsumption, range), |v: Seq<SeriesView>| rep.consumption_mw == scalar_of(v)),
        read_from(power_plan(range), outs, instant(Query::PowerProductionBySource, range), |v: Seq<SeriesView>| labeled_from(v, "source"@, readings_view(rep.production_by_source@))),
        read_from(power_plan(range), outs, ranged(Query::PowerProduction, range), |v: Seq<SeriesView>| rep.production_series@.map_values(|s: Series| s@) == named_series(v, "source"@)),
        read_from(power_plan(range), outs, ranged(Query::PowerConsumption, range), |v: Seq<SeriesView>| rep.consumption_series@.map_values(|s: Series| s@) == named_series(v, "source"@)),
        read_from(power_plan(range), outs, instant(Query::AccumulatorCharge, range), |v: Seq<SeriesView>| rep.accumulator_charge_fraction == scalar_of(v)),
        read_from(power_plan(range), outs, instant(Query::Satisfaction, range), |v: Seq<SeriesView>| rep.satisfaction_fraction == scalar_of(v)),
{
    assert(power_plan(range)[0] == instant(Query::PowerProduction, range));
    assert(power_plan(range)[1] == instant(Query::PowerConsumption, range));
    assert(power_plan(range)[2] == instant(Query::PowerProductionBySource, range));
    assert(power_plan(range)[3] == ranged(Query::PowerProduction, range));
    assert(power_plan(range)[4] == ranged(Query::PowerConsumption, range));
    assert(power_plan(range)[5] == instant(Query::AccumulatorCharge, range));
    assert(power_plan(range)[6] == instant(Query::Satisfaction, range));
}

/// The machine census comes from the machine-count query.
pub proof fn lemma_factory_reads_named_queries(range: TimeRange, outs: Seq<FetchOutcome>, rep: FactoryReport)
    requires
        factory_report_is(rep, outs),
    ensures
        read_from(factory_plan(range), outs, instant(Query::MachineCounts, range), |v: Seq<SeriesView>| exists|rows: Seq<(Seq<char>, u64)>| labeled_from(v, "machine"@, rows) && rep.machines@.map_values(|m: MachineStatus| m@) == machine_rows(rows)),
{
    assert(factory_plan(range)[0] == instant(Query::MachineCounts, range));
}

/// Each logistics field comes from the query named for it: robots from
/// the robot counts, the network count from the network query, the stored
/// items from the chest contents.
pub proof fn lemma_logistics_reads_named_queries(range: TimeRange, outs: Seq<FetchOutcome>, rep: LogisticsReport)
    requires
        logistics_report_is(rep, outs),
    ensures
        read_from(logistics_plan(range), outs, instant(Query::RobotCounts, range), |v: Seq<SeriesView>| labeled_from(v, "robot"@, readings_view(rep.robots@))),
        read_from(logistics_plan(range), outs, instant(Query::NetworkIdCount, range), |v: Seq<SeriesView>| rep.networks == scalar_of(v)),
        read_from(logistics_plan(range), outs, instant(Query::ChestContents, range), |v: Seq<SeriesView>| exists|rows: Seq<(Seq<char>, u64)>| labeled_from(v, "item"@, rows) && top_ten_by_value(rows, readings_view(rep.top_stored_items@))),
{
    assert(logistics_plan(range)[0] == instant(Query::RobotCounts, range));
    assert(logistics_plan(range)[1] == instant(Query::NetworkIdCount, range));
    assert(logistics_plan(range)[2] == instant(Query::ChestContents, range));
}

/// Each trains field comes from the query named for it.
pub proof fn lemma_trains_reads_named_queries(range: TimeRange, outs: Seq<FetchOutcome>, rep: TrainsReport)
    requires
        trains_report_is(rep, outs),
    ensures
        read_from(trains_plan(range), outs, instant(Query::TrainCounts, range), |v: Seq<SeriesView>| labeled_from(v, "state"@, readings_view(rep.trains_by_state@))),
        read_from(trains_plan(range), outs, instant(Query::TrainStations, range), |v: Seq<SeriesView>| rep.station_count == scalar_of(v)),
        read_from(trains_plan(range), outs, instant(Query::TrainStationWaiting, range), |v: Seq<SeriesView>| labeled_from(v, "station"@, readings_view(rep.stations_waiting@))),
{
    assert(trains_plan(range)[0] == instant(Query::TrainCounts, range));
    assert(trains_plan(range)[1] == instant(Query::TrainStations, range));
    assert(trains_plan(range)[2] == instant(Query::TrainStationWaiting, range));
}

/// Each research field comes from the query named for it: progress,
/// completed count and queue size from their own queries, the research in
/// progress from the research-in-progress series.
pub proof fn lemma_research_reads_named_queries(range: TimeRange, outs: Seq<FetchOutcome>, rep: ResearchReport)
    requires
        research_report_is(rep, outs),
    ensures
        read_from(research_plan(range), outs, instant(Query::ResearchProgressPct, range), |v: Seq<SeriesView>| rep.progress_pct == scalar_of(v)),
        read_from(research_plan(range), outs, instant(Query::ResearchCompletedCount, range), |v: Seq<SeriesView>| rep.completed_count == scalar_of(v)),
        read_from(research_plan(range), outs, instant(Query::ResearchQueueSize, range), |v: Seq<SeriesView>| rep.queue_size == scalar_of(v)),
        read_from(research_plan(range), outs, instant(Query::CurrentResearch, range), |v: Seq<SeriesView>| text_view(rep.current_research) == research_name(v)),
{
    assert(research_plan(range)[0] == instant(Query::ResearchProgressPct, range));
    assert(research_plan(range)[1] == instant(Query::ResearchCompletedCount, range));
    assert(research_plan(range)[2] == instant(Query::ResearchQueueSize, range));
    assert(research_plan(range)[3] == instant(Query::CurrentResearch, range));
}

/// The platform count comes from the platform-count query, and the rows
/// combine the readings of the speed query with those of the fuel query.
pub proof fn lemma_platforms_reads_named_queries(range: TimeRange, outs: Seq<FetchOutcome>, rep: PlatformReport)
    requires
        platforms_report_is(rep, outs),
    ensures
        read_from(platforms_plan(range), outs, instant(Query::PlatformCount, range), |v: Seq<SeriesView>| rep.count == scalar_of(v)),
        exists|ks: int, kf: int|
            #![trigger platforms_plan(range)[ks], platforms_plan(range)[kf]]
            0 <= ks < 3 && 0 <= kf < 3 && platforms_plan(range)[ks] == instant(Query::PlatformSpeed, range)
                && platforms_plan(range)[kf] == instant(Query::PlatformFuel, range)
                && exists|speeds: Seq<(Seq<char>, u64)>, fuels: Seq<(Seq<char>, u64)>|
                labeled_from(outcome_series(outs[ks]), "platform"@, speeds) && labeled_from(
                    outcome_series(outs[kf]),
                    "platform"@,
                    fuels,
                ) && platform_rows_from(speeds, fuels, rep.platforms@.map_values(|p: PlatformStatus| p@)),
{
    assert(platforms_plan(range)[0] == instant(Query::PlatformCount, range));
    assert(platforms_plan(range)[1] == instant(Query::PlatformSpeed, range));
    assert(platforms_plan(range)[2] == instant(Query::PlatformFuel, range));
}

/// The health check reads the Factorio job's own `up`: the job counts as
/// present only when Prometheus answered and that query reads above zero;
/// the tick count comes from the game-tick query.
pub proof fn lemma_health_reads_named_queries(reachable: bool, outs: Seq<FetchOutcome>, rep: HealthReport)
    requires
        health_report_is(rep, reachable, outs),
    ensures
        rep.prometheus_reachable == reachable,
        !reachable ==> !rep.factorio_metrics_job_present && rep.game_ticks_played is None,
        reachable ==> read_from(health_plan(reachable), outs, instant(Query::FactorioTargetUp, TimeRange::OneHour), |v: Seq<SeriesView>| rep.factorio_metrics_job_present == reads_above_zero(scalar_of(v))),
        reachable ==> read_from(health_plan(reachable), outs, instant(Query::GameTicksPlayed, TimeRange::OneHour), |v: Seq<SeriesView>| rep.game_ticks_played == scalar_of(v)),
{
    if reachable {
        assert(health_plan(reachable)[0] == instant(Query::FactorioTargetUp, TimeRange::OneHour));
        assert(health_plan(reachable)[1] == instant(Query::GameTicksPlayed, TimeRange::OneHour));
    }
}

} // verus!
