//! Prometheus HTTP API v1 replies and the sample pairs they carry.

use vstd::prelude::*;
use crate::json::{Json, JsonText};
use crate::text::{has_char, parse_i64, same_text, i64_from_text};

verus! {

/// Envelope of every Prometheus HTTP API v1 reply.
pub struct PromResponse<T> {
    pub status: String,
    pub data: Option<T>,
}

/// `data` payload of `/api/v1/query` and `/api/v1/query_range`.
pub struct PromQueryData {
    pub result_type: String,
    pub result: Vec<Json>,
}

impl Default for PromQueryData {
    /// An empty instant vector.
    fn default() -> (d: Self)
        ensures
            d.result_type@ == "vector"@,
            d.result@.len() == 0,
    {
        PromQueryData { result_type: "vector".to_owned(), result: Vec::new() }
    }
}

/// A sample time in Unix seconds: an integer when the reply wrote one,
/// otherwise the bit pattern of the `f64` it wrote.
#[derive(Debug, Clone, Copy, PartialEq, Eq, Structural)]
pub enum Timestamp {
    Integer(i64),
    Float(u64),
}

/// A single sample with its metric labels.
pub struct Sample {
    /// Label set of the series; pairs parsed here carry none.
    pub metric: Vec<(String, String)>,
    /// Unix time of the sample.
    pub timestamp: Timestamp,
    /// Bit pattern of the sample value; `None` for NaN and infinities.
    pub value: Option<u64>,
}

/// `parse_ts`: text with a `.` is read as a float, other text as an integer.
pub open spec fn timestamp_of_text(t: JsonText) -> Option<Timestamp> {
    if t.text@.contains('.') {
        match t.number {
            Some(b) => Some(Timestamp::Float(b)),
            None => None,
        }
    } else {
        match i64_from_text(t.text@) {
            Some(v) => Some(Timestamp::Integer(v)),
            None => None,
        }
    }
}

/// The texts Prometheus writes for values that carry no number.
pub open spec fn is_stale_marker(s: Seq<char>) -> bool {
    s == "NaN"@ || s == "+Inf"@ || s == "-Inf"@
}

/// The value a value text stands for: nothing for markers, otherwise its
/// number reading.
pub open spec fn value_of_text(t: JsonText) -> Option<u64> {
    if is_stale_marker(t.text@) {
        None
    } else {
        t.number
    }
}

/// The time a JSON timestamp stands for: a string is read as text, a
/// number as its `f64` reading.
pub open spec fn timestamp_of_json(j: Json) -> Option<Timestamp> {
    match j {
        Json::Str(t) => timestamp_of_text(t),
        Json::Number(n) => match n {
            Some(b) => Some(Timestamp::Float(b)),
            None => None,
        },
        _ => None,
    }
}

/// The (time, value) that a `[ts, "value"]` pair stands for; `exact`
/// demands exactly two elements, otherwise two or more.
pub open spec fn pair_reading(j: Json, exact: bool) -> Option<(Timestamp, Option<u64>)> {
    match j {
        Json::Array(v) => if (exact && v@.len() != 2) || (!exact && v@.len() < 2) {
            None
        } else {
            match timestamp_of_json(v@[0]) {
                Some(ts) => match v@[1] {
                    Json::Str(t) => Some((ts, value_of_text(t))),
                    _ => None,
                },
                None => None,
            }
        },
        _ => None,
    }
}

/// The sample parsed from a pair matches the reading of the pair.
pub open spec fn sample_matches(r: Option<Sample>, reading: Option<(Timestamp, Option<u64>)>) -> bool {
    match r {
        Some(s) => reading == Some((s.timestamp, s.value)) && s.metric@.len() == 0,
        None => reading is None,
    }
}

/// Reads a timestamp string: with a `.` it is a float, otherwise an integer.
pub fn parse_ts(s: &JsonText) -> (r: Option<Timestamp>)
    ensures
        r == timestamp_of_text(*s),
{
    if has_char(s.text.as_str(), '.') {
        match s.number {
            Some(b) => Some(Timestamp::Float(b)),
            None => None,
        }
    } else {
        match parse_i64(s.text.as_str()) {
            Some(v) => Some(Timestamp::Integer(v)),
            None => None,
        }
    }
}

/// Reads a value string ("10.5", "+Inf", "NaN", stale markers).
pub fn parse_value_str(s: &JsonText) -> (r: Option<u64>)
    ensures
        r == value_of_text(*s),
{
    let t = s.text.as_str();
    if same_text(t, "NaN") || same_text(t, "+Inf") || same_text(t, "-Inf") {
        None
    } else {
        s.number
    }
}

fn parse_pair(pair: &Json, exact: bool) -> (r: Option<Sample>)
    ensures
        sample_matches(r, pair_reading(*pair, exact)),
{
    match pair {
        Json::Array(arr) => {
            if (exact && arr.len() != 2) || (!exact && arr.len() < 2) {
                return None;
            }
            let timestamp = match &arr[0] {
                Json::Str(t) => match parse_ts(t) {
                    Some(ts) => ts,
                    None => return None,
                },
                Json::Number(n) => match n {
                    Some(b) => Timestamp::Float(*b),
                    None => return None,
                },
                _ => return None,
            };
            match &arr[1] {
                Json::Str(t) => {
                    let value = parse_value_str(t);
                    Some(Sample { metric: Vec::new(), timestamp, value })
                },
                _ => None,
            }
        },
        _ => None,
    }
}

/// Parses a single instant-vector pair `[ts, "value"]`.
pub fn parse_instant_pair(pair: &Json) -> (r: Option<Sample>)
    ensures
        sample_matches(r, pair_reading(*pair, true)),
{
    parse_pair(pair, true)
}

/// Parses a range-vector entry `[ts, "value", ...]`.
pub fn parse_range_pair(pair: &Json) -> (r: Option<Sample>)
    ensures
        sample_matches(r, pair_reading(*pair, false)),
{
    parse_pair(pair, false)
}

} // verus!
