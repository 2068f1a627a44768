use circuitdeck_backend::client::{Labels, RangePoint, RangeSeries, SampleSeries};
use circuitdeck_backend::mapping::{
    current_research, labeled, platform_rows, scalar, to_series, top_ten,
};
use circuitdeck_backend::models::Reading;
use circuitdeck_backend::response::{Sample, Timestamp};

fn labels(pairs: &[(&str, &str)]) -> Labels {
    Labels { pairs: pairs.iter().map(|(k, v)| (k.to_string(), v.to_string())).collect() }
}

fn sample(t: f64, v: Option<f64>) -> Sample {
    Sample { metric: Vec::new(), timestamp: Timestamp::Float(t.to_bits()), value: v.map(f64::to_bits) }
}

fn series(pairs: &[(&str, &str)], v: Option<f64>) -> SampleSeries {
    SampleSeries { labels: labels(pairs), samples: vec![sample(100.0, v)] }
}

fn reading(label: &str, v: f64) -> Reading {
    Reading { label: label.to_string(), value: v.to_bits() }
}

fn shown(r: &[Reading]) -> Vec<(String, f64)> {
    r.iter().map(|x| (x.label.clone(), f64::from_bits(x.value))).collect()
}

#[test]
fn scalar_extracts_first_sample() {
    let result = vec![SampleSeries {
        labels: labels(&[("job", "factorio")]),
        samples: vec![sample(100.0, Some(42.0))],
    }];
    assert_eq!(scalar(&result).map(f64::from_bits), Some(42.0));
}

#[test]
fn scalar_empty_result_is_none() {
    let empty: Vec<SampleSeries> = Vec::new();
    assert_eq!(scalar(&empty), None);
}

#[test]
fn labeled_uses_label_fallback() {
    let result = vec![SampleSeries { labels: labels(&[]), samples: vec![sample(100.0, Some(1.0))] }];
    let rows = labeled(&result, "item");
    assert_eq!(rows.len(), 1);
    assert_eq!(rows[0].label, "unknown");
}

#[test]
fn to_series_maps_points() {
    let result = vec![RangeSeries {
        labels: labels(&[("item", "iron-plate")]),
        points: vec![
            RangePoint { timestamp: Timestamp::Float(1.0f64.to_bits()), value: Some(5.0f64.to_bits()) },
            RangePoint { timestamp: Timestamp::Float(2.0f64.to_bits()), value: None },
        ],
    }];
    let series = to_series(&result, "item");
    assert_eq!(series.len(), 1);
    assert_eq!(series[0].name, "iron-plate");
    assert_eq!(series[0].points.len(), 2);
    assert_eq!(series[0].points[1].v, None);
}

#[test]
fn to_series_falls_back_to_total() {
    let result = vec![RangeSeries { labels: labels(&[]), points: vec![] }];
    assert_eq!(to_series(&result, "source")[0].name, "total");
}

#[test]
fn labeled_sorts_stably_and_skips_valueless_series() {
    let result = vec![
        series(&[("item", "iron-plate")], Some(1.0)),
        series(&[("item", "copper-plate")], Some(2.0)),
        series(&[("item", "gear")], None),
        SampleSeries { labels: labels(&[("item", "empty")]), samples: vec![] },
        series(&[("item", "copper-plate")], Some(3.0)),
        series(&[("other", "x")], Some(4.0)),
    ];
    assert_eq!(
        shown(&labeled(&result, "item")),
        vec![
            ("copper-plate".to_string(), 2.0),
            ("copper-plate".to_string(), 3.0),
            ("iron-plate".to_string(), 1.0),
            ("unknown".to_string(), 4.0),
        ]
    );
}

#[test]
fn labeled_repeats_the_value_for_braces() {
    let result = vec![series(&[("item", "a{}b")], Some(1.0))];
    assert_eq!(labeled(&result, "item")[0].label, "a{}b".replace("{}", "a{}b"));
    assert_eq!(labeled(&result, "item")[0].label, "aa{}bb");
}

#[test]
fn current_research_is_the_least_progress() {
    let result = vec![
        series(&[("tech", "automation")], Some(0.9)),
        series(&[("tech", "logistics")], None),
        series(&[("tech", "steel")], Some(0.2)),
        series(&[("tech", "optics")], Some(0.2)),
        series(&[("tech", "oil")], Some(0.5)),
    ];
    assert_eq!(current_research(&result), Some("steel".to_string()));
    let result = vec![series(&[("name", "x")], Some(0.1))];
    assert_eq!(current_research(&result), None);
    assert_eq!(current_research(&vec![series(&[("tech", "t")], None)]), None);
}

#[test]
fn top_ten_sorts_by_value_descending() {
    let mut rows = Vec::new();
    for i in 0..12 {
        rows.push(reading(&format!("item{i:02}"), (i % 5) as f64));
    }
    let top = shown(&top_ten(rows));
    assert_eq!(top.len(), 10);
    let values: Vec<f64> = top.iter().map(|x| x.1).collect();
    assert_eq!(values, vec![4.0, 4.0, 3.0, 3.0, 2.0, 2.0, 1.0, 1.0, 1.0, 0.0]);
    assert_eq!(top[0].0, "item04");
    assert_eq!(top[1].0, "item09");
    assert_eq!(top[9].0, "item00");
}

#[test]
fn zeros_of_either_sign_tie() {
    let top = shown(&top_ten(vec![reading("a", -0.0), reading("b", 0.0), reading("c", -1.0)]));
    assert_eq!(top.iter().map(|x| x.0.as_str()).collect::<Vec<_>>(), vec!["a", "b", "c"]);
}

#[test]
fn platform_rows_merge_by_name() {
    let speeds = vec![reading("Muscovy", 210.5), reading("Alpha", 100.0)];
    let fuels = vec![reading("Zed", 0.5), reading("Muscovy", 0.8), reading("Zed", 0.1)];
    let rows = platform_rows(&speeds, &fuels);
    let shown: Vec<(String, Option<f64>, Option<f64>)> = rows
        .iter()
        .map(|p| (p.platform.clone(), p.speed_kmph.map(f64::from_bits), p.fuel_fraction.map(f64::from_bits)))
        .collect();
    assert_eq!(
        shown,
        vec![
            ("Alpha".to_string(), Some(100.0), None),
            ("Muscovy".to_string(), Some(210.5), Some(0.8)),
            ("Zed".to_string(), None, Some(0.5)),
        ]
    );
}
