use circuitdeck_backend::builders::{
    build_factory, build_health, build_logistics, build_overview, build_platforms, build_power,
    build_production, build_research, build_trains, factory_fetches, fetch_outcome, fetch_request,
    health_fetches, logistics_fetches, overview_fetches, platforms_fetches, power_fetches,
    production_fetches, research_fetches, trains_fetches, Fetch, FetchKind, FetchOutcome,
};
use circuitdeck_backend::client::{probe_outcome, probe_request, PromEvent, PromRequest};
use circuitdeck_backend::error::ApiError;
use circuitdeck_backend::json::{Json, JsonText};
use circuitdeck_backend::query::Query;
use circuitdeck_backend::range::TimeRange;
use circuitdeck_backend::response::{PromQueryData, PromResponse};
use circuitdeck_backend::routes::RangeParams;

const BASE: &str = "http://prom:9090";
const NOW: i64 = 1700000060;

fn st(s: &str) -> Json {
    Json::Str(JsonText { text: s.to_string(), number: s.parse::<f64>().ok().map(f64::to_bits) })
}

fn obj(entries: Vec<(&str, Json)>) -> Json {
    Json::Object(entries.into_iter().map(|(k, v)| (k.to_string(), v)).collect())
}

fn item(labels: Vec<(&str, &str)>, value: &str) -> Json {
    obj(vec![
        ("metric", obj(labels.into_iter().map(|(k, v)| (k, st(v))).collect())),
        ("value", Json::Array(vec![Json::Number(Some(1700000000.0f64.to_bits())), st(value)])),
    ])
}

fn answer(result: Vec<Json>) -> PromEvent {
    PromEvent::Answered {
        status: 200,
        body: Ok(PromResponse {
            status: "success".to_string(),
            data: Some(PromQueryData { result_type: "vector".to_string(), result }),
        }),
    }
}

fn run(fetches: Vec<Fetch>, server: &dyn Fn(&PromRequest) -> PromEvent) -> Vec<FetchOutcome> {
    fetches
        .into_iter()
        .map(|f| {
            let req = fetch_request(BASE, f, NOW);
            let ev = server(&req);
            fetch_outcome(f, &req, ev)
        })
        .collect()
}

fn health_with(server: &dyn Fn(&PromRequest) -> PromEvent) -> circuitdeck_backend::models::HealthReport {
    let probe = probe_request(BASE);
    let reachable = probe_outcome(&probe, server(&probe)).is_ok();
    build_health(reachable, run(health_fetches(reachable), server))
}

fn refused(_: &PromRequest) -> PromEvent {
    PromEvent::Failed { timed_out: false, connect: true, text: "connection refused".to_string() }
}

fn empty(_: &PromRequest) -> PromEvent {
    answer(vec![])
}

fn value(b: Option<u64>) -> Option<f64> {
    b.map(f64::from_bits)
}

#[test]
fn invalid_range_param_returns_400() {
    let err = match (RangeParams { range: Some("3w".to_string()) }).parse_range() {
        Err(e) => e,
        Ok(_) => panic!("expected an error"),
    };
    let (status, body) = err.error_response();
    assert_eq!(status, 400);
    assert_eq!(body.error.code, "invalid_time_range");
}

#[test]
fn health_reports_reachable_prometheus() {
    let server = |_: &PromRequest| answer(vec![item(vec![("__name__", "up"), ("job", "factorio-metrics")], "1")]);
    let h = health_with(&server);
    assert!(h.prometheus_reachable);
    assert!(h.factorio_metrics_job_present);
}

#[test]
fn health_reports_unreachable_prometheus() {
    let h = health_with(&refused);
    assert!(!h.prometheus_reachable);
    assert!(!h.factorio_metrics_job_present);
    assert_eq!(h.game_ticks_played, None);
}

#[test]
fn health_job_down_or_failing_counts_as_absent() {
    let server = |req: &PromRequest| {
        if req.promql == "1" {
            answer(vec![])
        } else if req.promql.starts_with("up") {
            answer(vec![item(vec![], "0")])
        } else {
            PromEvent::Answered { status: 500, body: Err("boom".to_string()) }
        }
    };
    let h = health_with(&server);
    assert!(h.prometheus_reachable);
    assert!(!h.factorio_metrics_job_present);
    assert_eq!(h.game_ticks_played, None);
}

#[test]
fn overview_maps_prometheus_payload() {
    let server = |req: &PromRequest| {
        let query = req.promql.as_str();
        let result = if query.contains("item_produced_total") {
            vec![item(vec![("item", "iron-plate")], "42.0"), item(vec![("item", "copper-plate")], "9.5")]
        } else if query.contains("evolution_factor") {
            vec![item(vec![], "0.87")]
        } else if query.contains("accumulator_charge") || query.contains("satisfaction") {
            vec![item(vec![], "0.95")]
        } else if query.contains("power") {
            vec![item(vec![], "50.25")]
        } else {
            vec![]
        };
        answer(result)
    };
    let health = health_with(&server);
    let range = TimeRange::OneHour;
    let outcomes = run(overview_fetches(range, &health), &server);
    let o = build_overview(range, health, outcomes).ok().unwrap();
    assert!(o.health.prometheus_reachable);
    assert_eq!(value(o.evolution_factor), Some(0.87));
    assert_eq!(value(o.power_production_mw), Some(50.25));
    assert_eq!(value(o.accumulator_charge_fraction).map(|v| v * 100.0), Some(95.0));
    assert_eq!(value(o.satisfaction_fraction).map(|v| v * 100.0), Some(95.0));
    assert_eq!(o.top_produced.len(), 2);
    assert_eq!(o.top_produced[0].label, "copper-plate");
    assert_eq!(f64::from_bits(o.top_produced[0].value), 9.5);
    assert_eq!(o.top_produced[1].label, "iron-plate");
}

#[test]
fn prometheus_down_yields_degraded_overview() {
    let health = health_with(&refused);
    let fetches = overview_fetches(TimeRange::OneHour, &health);
    assert!(fetches.is_empty());
    let o = build_overview(TimeRange::OneHour, health, run(fetches, &refused)).ok().unwrap();
    assert!(!o.health.prometheus_reachable);
    assert_eq!(o.evolution_factor, None);
    assert_eq!(o.top_produced.len(), 0);
}

#[test]
fn production_maps_series() {
    let server = |req: &PromRequest| {
        if req.url.ends_with("query_range") {
            PromEvent::Answered {
                status: 200,
                body: Ok(PromResponse {
                    status: "success".to_string(),
                    data: Some(PromQueryData {
                        result_type: "matrix".to_string(),
                        result: vec![obj(vec![
                            ("metric", obj(vec![("item", st("iron-plate"))])),
                            (
                                "values",
                                Json::Array(vec![
                                    Json::Array(vec![st("1700000000"), st("10")]),
                                    Json::Array(vec![st("1700000030"), st("11")]),
                                    Json::Array(vec![st("1700000060"), st("12")]),
                                ]),
                            ),
                        ])],
                    }),
                }),
            }
        } else if req.promql.contains("item_produced_total") {
            answer(vec![item(vec![("item", "iron-plate")], "12.0")])
        } else {
            answer(vec![])
        }
    };
    let range = TimeRange::OneHour;
    let p = build_production(range, run(production_fetches(range), &server)).ok().unwrap();
    assert_eq!(p.range, "1h");
    assert_eq!(p.top_produced[0].label, "iron-plate");
    assert_eq!(p.produced_series.len(), 1);
    assert_eq!(p.produced_series[0].name, "iron-plate");
    assert_eq!(p.produced_series[0].points.len(), 3);
}

#[test]
fn platforms_maps_series_to_rows() {
    let server = |req: &PromRequest| {
        let query = req.promql.as_str();
        let result = if query.starts_with("count(") {
            vec![item(vec![], "2")]
        } else if query.contains("platform_speed") {
            vec![item(vec![("platform", "Muscovy")], "210.5")]
        } else if query.contains("platform_fuel") {
            vec![item(vec![("platform", "Muscovy")], "0.8")]
        } else {
            vec![]
        };
        answer(result)
    };
    let range = TimeRange::OneHour;
    let p = build_platforms(range, run(platforms_fetches(range), &server)).ok().unwrap();
    assert_eq!(value(p.count), Some(2.0));
    assert_eq!(p.platforms.len(), 1);
    assert_eq!(p.platforms[0].platform, "Muscovy");
    assert_eq!(value(p.platforms[0].speed_kmph), Some(210.5));
    assert_eq!(value(p.platforms[0].fuel_fraction).map(|v| v * 100.0), Some(80.0));
}

#[test]
fn prometheus_http_error_maps_to_502() {
    let server = |_: &PromRequest| PromEvent::Answered { status: 503, body: Err("down".to_string()) };
    let range = TimeRange::OneHour;
    let err = match build_factory(range, run(factory_fetches(range), &server)) {
        Err(e) => e,
        Ok(_) => panic!("expected an error"),
    };
    assert!(matches!(err, ApiError::PrometheusStatus { status: 503, .. }));
    assert_eq!(err.error_response().0, 502);
}

#[test]
fn all_endpoints_return_2xx_on_success() {
    let health = health_with(&empty);
    assert!(health.prometheus_reachable);
    for range in TimeRange::all() {
        let h = health_with(&empty);
        assert!(build_overview(range, h, run(overview_fetches(range, &health), &empty)).is_ok());
        assert!(build_production(range, run(production_fetches(range), &empty)).is_ok());
        assert!(build_power(range, run(power_fetches(range), &empty)).is_ok());
        assert!(build_factory(range, run(factory_fetches(range), &empty)).is_ok());
        assert!(build_logistics(range, run(logistics_fetches(range), &empty)).is_ok());
        assert!(build_trains(range, run(trains_fetches(range), &empty)).is_ok());
        assert!(build_research(range, run(research_fetches(range), &empty)).is_ok());
        assert!(build_platforms(range, run(platforms_fetches(range), &empty)).is_ok());
    }
}

#[test]
fn first_failure_in_order_wins() {
    let server = |req: &PromRequest| {
        if req.promql.contains("chest_contents") && !req.promql.starts_with("count(") {
            PromEvent::Answered { status: 500, body: Err("x".to_string()) }
        } else if req.promql.contains("robot") {
            PromEvent::Failed { timed_out: true, connect: false, text: "t".to_string() }
        } else {
            answer(vec![])
        }
    };
    let range = TimeRange::SixHours;
    match build_logistics(range, run(logistics_fetches(range), &server)) {
        Err(ApiError::PrometheusStatus { status: 500, .. }) => {}
        _ => panic!("the chest contents failure comes first"),
    }
}

#[test]
fn range_fetches_cover_the_window() {
    let f = Fetch { query: Query::ItemProducedRate, kind: FetchKind::Range, range: TimeRange::SixHours };
    let req = fetch_request(BASE, f, NOW);
    assert_eq!(req.url, "http://prom:9090/api/v1/query_range");
    let params: Vec<(&str, &str)> = req.params.iter().map(|(k, v)| (k.as_str(), v.as_str())).collect();
    assert_eq!(
        params,
        vec![
            ("query", "sum by (item) (rate(graftorio_factorio_item_produced_total[6h]))"),
            ("start", "1699978460"),
            ("end", "1700000060"),
            ("step", "120s"),
        ]
    );
}

#[test]
fn logistics_keeps_ten_largest_stores() {
    let server = |req: &PromRequest| {
        if req.promql == "graftorio_factorio_chest_contents" {
            answer((0..12).map(|i| item(vec![("item", &format!("item{i:02}"))], &format!("{i}"))).collect())
        } else if req.promql.starts_with("count(") {
            answer(vec![item(vec![], "3")])
        } else {
            answer(vec![item(vec![("robot", "construction")], "5")])
        }
    };
    let range = TimeRange::OneHour;
    let l = build_logistics(range, run(logistics_fetches(range), &server)).ok().unwrap();
    assert_eq!(l.top_stored_items.len(), 10);
    assert_eq!(l.top_stored_items[0].label, "item11");
    assert_eq!(l.top_stored_items[9].label, "item02");
    assert_eq!(value(l.networks), Some(3.0));
    assert_eq!(l.robots[0].label, "construction");
}

#[test]
fn factory_trains_and_research_reports() {
    let server = |req: &PromRequest| {
        let q = req.promql.as_str();
        if q == "graftorio_factorio_machine_count" {
            answer(vec![item(vec![("machine", "assembler")], "4"), item(vec![("machine", "drill")], "9")])
        } else if q == "graftorio_factorio_train_count" {
            answer(vec![item(vec![("state", "moving")], "2")])
        } else if q == "graftorio_factorio_train_station_count" {
            answer(vec![item(vec![], "6")])
        } else if q == "graftorio_factorio_research_in_progress" {
            answer(vec![item(vec![("tech", "steel")], "0.4"), item(vec![("tech", "oil")], "0.1")])
        } else if q == "graftorio_factorio_research_queue_size" {
            answer(vec![item(vec![], "3")])
        } else {
            answer(vec![])
        }
    };
    let range = TimeRange::OneHour;
    let f = build_factory(range, run(factory_fetches(range), &server)).ok().unwrap();
    assert_eq!(f.machines.len(), 2);
    assert_eq!(f.machines[1].machine, "drill");
    assert_eq!(value(f.machines[1].active), Some(9.0));
    assert_eq!(f.machines[1].total, None);
    let t = build_trains(range, run(trains_fetches(range), &server)).ok().unwrap();
    assert_eq!(t.trains_by_state[0].label, "moving");
    assert_eq!(value(t.station_count), Some(6.0));
    assert!(t.stations_waiting.is_empty());
    let r = build_research(range, run(research_fetches(range), &server)).ok().unwrap();
    assert_eq!(r.current_research.as_deref(), Some("oil"));
    assert_eq!(value(r.queue_size), Some(3.0));
    assert_eq!(r.progress_pct, None);
}
