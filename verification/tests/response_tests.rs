use circuitdeck_backend::json::{Json, JsonText};
use circuitdeck_backend::response::{
    parse_instant_pair, parse_range_pair, parse_ts, parse_value_str, PromQueryData, Timestamp,
};

fn text(s: &str) -> JsonText {
    JsonText { text: s.to_string(), number: s.parse::<f64>().ok().map(f64::to_bits) }
}

fn st(s: &str) -> Json {
    Json::Str(text(s))
}

fn num(x: f64) -> Json {
    Json::Number(Some(x.to_bits()))
}

fn seconds(t: Timestamp) -> f64 {
    match t {
        Timestamp::Integer(i) => i as f64,
        Timestamp::Float(b) => f64::from_bits(b),
    }
}

#[test]
fn parses_instant_pair() {
    let pair = Json::Array(vec![st("1700000000"), st("42.5")]);
    let s = parse_instant_pair(&pair).unwrap();
    assert_eq!(seconds(s.timestamp), 1700000000.0);
    assert_eq!(s.value.map(f64::from_bits), Some(42.5));
}

#[test]
fn stale_marker_yields_none_value() {
    let pair = Json::Array(vec![st("1700000000"), st("NaN")]);
    let s = parse_instant_pair(&pair).unwrap();
    assert_eq!(s.value, None);
}

#[test]
fn parses_range_pair() {
    let pair = Json::Array(vec![st("1700000015"), st("7")]);
    let s = parse_range_pair(&pair).unwrap();
    assert_eq!(s.value.map(f64::from_bits), Some(7.0));
}

#[test]
fn rejects_short_pairs() {
    let pair = Json::Array(vec![st("1700000000")]);
    assert!(parse_instant_pair(&pair).is_none());
}

#[test]
fn numeric_timestamps_and_long_range_pairs() {
    let pair = Json::Array(vec![num(1700000000.5), st("1"), st("extra")]);
    assert!(parse_instant_pair(&pair).is_none());
    let s = parse_range_pair(&pair).unwrap();
    assert_eq!(s.timestamp, Timestamp::Float(1700000000.5f64.to_bits()));
    assert!(s.metric.is_empty());
}

#[test]
fn value_must_be_a_string() {
    let pair = Json::Array(vec![st("1700000000"), num(3.0)]);
    assert!(parse_instant_pair(&pair).is_none());
    assert!(parse_instant_pair(&Json::Null).is_none());
    assert!(parse_instant_pair(&st("1")).is_none());
}

#[test]
fn markers_and_unparsable_values() {
    assert_eq!(parse_value_str(&text("+Inf")), None);
    assert_eq!(parse_value_str(&text("-Inf")), None);
    assert_eq!(parse_value_str(&text("NaN")), None);
    assert_eq!(parse_value_str(&text("abc")), None);
    assert_eq!(parse_value_str(&text("10.5")).map(f64::from_bits), Some(10.5));
    assert_eq!(parse_value_str(&text("inf")).map(f64::from_bits), Some(f64::INFINITY));
}

#[test]
fn timestamps_with_and_without_fraction() {
    assert_eq!(parse_ts(&text("1700000000")), Some(Timestamp::Integer(1700000000)));
    assert_eq!(parse_ts(&text("1700000000.25")), Some(Timestamp::Float(1700000000.25f64.to_bits())));
    assert_eq!(parse_ts(&text("1e9")), None);
    assert_eq!(parse_ts(&text("-5")), Some(Timestamp::Integer(-5)));
    assert_eq!(parse_ts(&text("x.y")), None);
}

#[test]
fn default_query_data_is_an_empty_vector() {
    let d = PromQueryData::default();
    assert_eq!(d.result_type, "vector");
    assert!(d.result.is_empty());
}
