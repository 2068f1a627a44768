use circuitdeck_backend::client::{
    check_status, client_base_url, instant_outcome, instant_request, probe_outcome, probe_request,
    range_outcome, range_request, PromEvent, RequestKind,
};
use circuitdeck_backend::error::ApiError;
use circuitdeck_backend::json::{Json, JsonText};
use circuitdeck_backend::response::{PromQueryData, PromResponse};

fn st(s: &str) -> Json {
    Json::Str(JsonText { text: s.to_string(), number: s.parse::<f64>().ok().map(f64::to_bits) })
}

fn num(x: f64) -> Json {
    Json::Number(Some(x.to_bits()))
}

fn obj(entries: Vec<(&str, Json)>) -> Json {
    Json::Object(entries.into_iter().map(|(k, v)| (k.to_string(), v)).collect())
}

fn success(result_type: &str, result: Vec<Json>) -> PromEvent {
    PromEvent::Answered {
        status: 200,
        body: Ok(PromResponse {
            status: "success".to_string(),
            data: Some(PromQueryData { result_type: result_type.to_string(), result }),
        }),
    }
}

fn pairs(p: &[(String, String)]) -> Vec<(&str, &str)> {
    p.iter().map(|(k, v)| (k.as_str(), v.as_str())).collect()
}

#[test]
fn ping_ok_on_success_envelope() {
    let req = probe_request("http://127.0.0.1:9090");
    assert_eq!(req.kind, RequestKind::Probe);
    assert_eq!(req.url, "http://127.0.0.1:9090/api/v1/query");
    assert_eq!(pairs(&req.params), vec![("query", "1")]);
    assert!(probe_outcome(&req, success("vector", vec![])).is_ok());
}

#[test]
fn query_parses_instant_vector() {
    let req = instant_request("http://p", "factorio_item_produced_total");
    let ev = success(
        "vector",
        vec![
            obj(vec![
                ("metric", obj(vec![("item", st("iron-plate")), ("job", st("factorio"))])),
                ("value", Json::Array(vec![num(1700000000.0), st("123.5")])),
            ]),
            obj(vec![
                ("metric", obj(vec![("item", st("copper-plate"))])),
                ("value", Json::Array(vec![num(1700000000.0), st("NaN")])),
            ]),
        ],
    );
    let result = instant_outcome(&req, ev).ok().unwrap();
    assert_eq!(result.len(), 2);
    assert_eq!(result[0].labels.get("item").as_deref(), Some("iron-plate"));
    assert_eq!(result[0].samples[0].value.map(f64::from_bits), Some(123.5));
    assert_eq!(result[1].samples[0].value, None);
}

#[test]
fn query_range_parses_matrix() {
    let req = range_request("http://p", "rate(x[5m])", 1700000000, 1700000030, 15);
    assert_eq!(req.url, "http://p/api/v1/query_range");
    assert_eq!(
        pairs(&req.params),
        vec![("query", "rate(x[5m])"), ("start", "1700000000"), ("end", "1700000030"), ("step", "15s")]
    );
    let ev = success(
        "matrix",
        vec![obj(vec![
            ("metric", obj(vec![("item", st("iron-plate"))])),
            (
                "values",
                Json::Array(vec![
                    Json::Array(vec![st("1700000000"), st("1")]),
                    Json::Array(vec![st("1700000015"), st("2")]),
                    Json::Array(vec![st("1700000030"), st("NaN")]),
                ]),
            ),
        ])],
    );
    let result = range_outcome(&req, ev).ok().unwrap();
    assert_eq!(result.len(), 1);
    assert_eq!(result[0].points.len(), 3);
    assert_eq!(result[0].points[0].value.map(f64::from_bits), Some(1.0));
    assert_eq!(result[0].points[2].value, None);
}

#[test]
fn non_success_envelope_is_error() {
    let req = instant_request("http://p", "bad{");
    let ev = PromEvent::Answered {
        status: 200,
        body: Ok(PromResponse { status: "error".to_string(), data: None }),
    };
    match instant_outcome(&req, ev) {
        Err(ApiError::PrometheusBadResponse(m)) => assert_eq!(m, "status=error"),
        _ => panic!("expected a bad response"),
    }
}

#[test]
fn http_error_status_maps_to_prometheus_status() {
    let req = instant_request("http://p", "up");
    let ev = PromEvent::Answered { status: 500, body: Err("expected value".to_string()) };
    match instant_outcome(&req, ev) {
        Err(ApiError::PrometheusStatus { status: 500, body }) => {
            assert_eq!(body, "request to http://p/api/v1/query failed")
        }
        _ => panic!("expected a status error"),
    }
}

#[test]
fn unreachable_maps_to_unreachable() {
    let req = instant_request("http://127.0.0.1:1", "up");
    let ev = PromEvent::Failed { timed_out: false, connect: true, text: "connection refused".to_string() };
    assert!(matches!(instant_outcome(&req, ev), Err(ApiError::PrometheusUnreachable(_))));
}

#[test]
fn unreadable_bodies_and_missing_data() {
    let req = range_request("http://p", "q", 0, 1, 1);
    let ev = PromEvent::Answered { status: 200, body: Err("eof".to_string()) };
    match range_outcome(&req, ev) {
        Err(ApiError::PrometheusBadResponse(m)) => assert_eq!(m, "range query `q`: eof"),
        _ => panic!("expected a bad response"),
    }
    let req = instant_request("http://p", "q");
    let ev = PromEvent::Answered { status: 200, body: Err("eof".to_string()) };
    match instant_outcome(&req, ev) {
        Err(ApiError::PrometheusBadResponse(m)) => assert_eq!(m, "query `q`: eof"),
        _ => panic!("expected a bad response"),
    }
    let ev = PromEvent::Answered {
        status: 204,
        body: Ok(PromResponse { status: "success".to_string(), data: None }),
    };
    match instant_outcome(&req, ev) {
        Err(ApiError::PrometheusBadResponse(m)) => assert_eq!(m, "missing data"),
        _ => panic!("expected a bad response"),
    }
}

#[test]
fn labels_keep_only_string_entries() {
    let req = instant_request("http://p", "q");
    let ev = success(
        "vector",
        vec![
            obj(vec![
                ("metric", obj(vec![("a", st("x")), ("b", num(1.0)), ("c", Json::Null)])),
                ("value", Json::Array(vec![st("1"), st("2")])),
            ]),
            obj(vec![("metric", st("not an object"))]),
        ],
    );
    let result = instant_outcome(&req, ev).ok().unwrap();
    assert_eq!(result[0].labels.pairs, vec![("a".to_string(), "x".to_string())]);
    assert!(result[1].labels.pairs.is_empty());
    assert!(result[1].samples.is_empty());
}

#[test]
fn status_checks_and_base_url() {
    assert!(check_status(200, "u").is_ok());
    assert!(check_status(299, "u").is_ok());
    assert!(check_status(199, "u").is_err());
    assert!(check_status(300, "u").is_err());
    assert_eq!(client_base_url("http://p:9090///"), "http://p:9090");
    assert_eq!(client_base_url("http://p:9090"), "http://p:9090");
}

#[test]
fn probe_ignores_body_but_not_status() {
    let req = probe_request("http://p");
    let ev = PromEvent::Answered { status: 200, body: Err("not json".to_string()) };
    assert!(probe_outcome(&req, ev).is_ok());
    let ev = PromEvent::Answered { status: 503, body: Err("down".to_string()) };
    assert!(matches!(probe_outcome(&req, ev), Err(ApiError::PrometheusStatus { status: 503, .. })));
    let ev = PromEvent::Failed { timed_out: true, connect: false, text: "x".to_string() };
    assert!(matches!(probe_outcome(&req, ev), Err(ApiError::PrometheusUnreachable(m)) if m == "request timed out"));
}

#[test]
fn labels_name_each_label_once() {
    let item = obj(vec![
        ("metric", obj(vec![("item", st("iron-plate")), ("job", num(1.0)), ("item", st("copper-plate"))])),
        ("value", Json::Array(vec![st("1700000000"), st("2")])),
    ]);
    let labels = circuitdeck_backend::client::labels_of(&item);
    assert_eq!(pairs(&labels.pairs), vec![("item", "iron-plate")]);
}

#[test]
fn instant_samples_carry_no_labels_of_their_own() {
    let req = instant_request("http://p:9090", "up");
    let item = obj(vec![
        ("metric", obj(vec![("job", st("factorio"))])),
        ("value", Json::Array(vec![st("1700000000"), st("3")])),
    ]);
    let result = instant_outcome(&req, success("vector", vec![item])).unwrap();
    assert_eq!(result.len(), 1);
    assert_eq!(result[0].samples.len(), 1);
    assert!(result[0].samples[0].metric.is_empty());
    assert_eq!(result[0].labels.get("job"), Some("factorio".to_string()));
}
