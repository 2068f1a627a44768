use circuitdeck_backend::error::{transport_error, ApiError};

#[test]
fn invalid_range_maps_to_400() {
    let (status, body) = ApiError::InvalidTimeRange("3w".into()).error_response();
    assert_eq!(status, 400);
    assert_eq!(body.error.code, "invalid_time_range");
    assert_eq!(body.error.message, "invalid time range: 3w");
}

#[test]
fn prometheus_failures_map_to_502() {
    let (status, body) = ApiError::PrometheusUnreachable("conn refused".into()).error_response();
    assert_eq!(status, 502);
    assert_eq!(body.error.code, "prometheus_error");
    assert_eq!(body.error.message, "telemetry backend is unreachable");
}

#[test]
fn every_error_kind_has_its_reply() {
    let cases = [
        (ApiError::PrometheusStatus { status: 503, body: "x".into() }, 502, "prometheus_error", "telemetry backend returned an error"),
        (ApiError::PrometheusBadResponse("y".into()), 502, "prometheus_error", "telemetry backend returned an unexpected response"),
        (ApiError::Internal("z".into()), 500, "internal_error", "internal error"),
    ];
    for (e, status, code, message) in cases {
        let (s, b) = e.error_response();
        assert_eq!(s, status);
        assert_eq!(b.error.code, code);
        assert_eq!(b.error.message, message);
    }
}

#[test]
fn prometheus_failure_classification() {
    assert!(ApiError::PrometheusUnreachable("a".into()).is_prometheus_failure());
    assert!(ApiError::PrometheusStatus { status: 500, body: "b".into() }.is_prometheus_failure());
    assert!(ApiError::PrometheusBadResponse("c".into()).is_prometheus_failure());
    assert!(!ApiError::InvalidTimeRange("d".into()).is_prometheus_failure());
    assert!(!ApiError::Internal("e".into()).is_prometheus_failure());
}

#[test]
fn messages_describe_the_error() {
    assert_eq!(ApiError::PrometheusUnreachable("x".into()).message(), "prometheus is unreachable: x");
    assert_eq!(
        ApiError::PrometheusStatus { status: 404, body: "request to u failed".into() }.message(),
        "prometheus returned status 404: request to u failed"
    );
    assert_eq!(ApiError::PrometheusBadResponse("b".into()).message(), "unexpected prometheus response: b");
    assert_eq!(ApiError::InvalidTimeRange("3w".into()).message(), "invalid time range: 3w");
    assert_eq!(ApiError::Internal("i".into()).message(), "internal error: i");
}

#[test]
fn transport_failures_are_classified() {
    assert!(matches!(transport_error(true, true, "t".into()), ApiError::PrometheusUnreachable(m) if m == "request timed out"));
    assert!(matches!(transport_error(false, true, "refused".into()), ApiError::PrometheusUnreachable(m) if m == "refused"));
    assert!(matches!(transport_error(false, false, "decode".into()), ApiError::PrometheusBadResponse(m) if m == "decode"));
}
