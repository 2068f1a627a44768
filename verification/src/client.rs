//! The exchanges with the Prometheus HTTP API v1: which requests to send,
//! and what each reply (or failure) means.

use vstd::prelude::*;
use crate::error::{ApiError, ErrorView, transport_error, transport_error_view};
use crate::json::{Json, json_get};
use crate::response::{
    PromQueryData, PromResponse, Sample, Timestamp, pair_reading, parse_instant_pair,
    parse_range_pair,
};
use crate::text::{
    decimal_text, i64_text, join2, join3, owned, same_text, signed_decimal_text, strip_trailing,
    trim_end_char, u64_text,
};

verus! {

/// A label set, as the name/value pairs of a series' `metric` object.
pub struct Labels {
    pub pairs: Vec<(String, String)>,
}

/// Name/value pairs as plain text.
pub open spec fn pairs_view(pairs: Seq<(String, String)>) -> Seq<(Seq<char>, Seq<char>)> {
    pairs.map_values(|p: (String, String)| (p.0@, p.1@))
}

/// The value of the first pair named `name`.
pub open spec fn lookup(pairs: Seq<(Seq<char>, Seq<char>)>, name: Seq<char>) -> Option<Seq<char>>
    decreases pairs.len(),
{
    if pairs.len() == 0 {
        None
    } else if pairs[0].0 == name {
        Some(pairs[0].1)
    } else {
        lookup(pairs.drop_first(), name)
    }
}

/// The value of label `name`, or `fallback` when there is none.
pub open spec fn lookup_or(pairs: Seq<(Seq<char>, Seq<char>)>, name: Seq<char>, fallback: Seq<char>) -> Seq<char> {
    match lookup(pairs, name) {
        Some(v) => v,
        None => fallback,
    }
}

impl View for Labels {
    type V = Seq<(Seq<char>, Seq<char>)>;

    open spec fn view(&self) -> Seq<(Seq<char>, Seq<char>)> {
        pairs_view(self.pairs@)
    }
}

impl Labels {
    /// The value of label `name`.
    pub fn get(&self, name: &str) -> (r: Option<String>)
        ensures
            match r {
                Some(v) => lookup(self@, name@) == Some(v@),
                None => lookup(self@, name@) is None,
            },
    {
        let n = self.pairs.len();
        let mut i: usize = 0;
        proof {
            assert(self@.skip(0) =~= self@);
        }
        while i < n
            invariant
                n == self.pairs@.len(),
                i <= n,
                self@.len() == n,
                lookup(self@, name@) == lookup(self@.skip(i as int), name@),
            decreases n - i,
        {
            let ghost t = self@.skip(i as int);
            assert(t[0] == (self.pairs@[i as int].0@, self.pairs@[i as int].1@));
            if same_text(self.pairs[i].0.as_str(), name) {
                return Some(self.pairs[i].1.clone());
            }
            assert(t.drop_first() =~= self@.skip(i + 1));
            i = i + 1;
        }
        None
    }

    /// The value of label `name`, or `fallback`.
    pub fn get_or(&self, name: &str, fallback: &str) -> (r: String)
        ensures
            r@ == lookup_or(self@, name@, fallback@),
    {
        match self.get(name) {
            Some(v) => v,
            None => owned(fallback),
        }
    }
}

/// A series with its label set and parsed samples.
pub struct SampleSeries {
    pub labels: Labels,
    pub samples: Vec<Sample>,
}

/// Result of an instant query: one entry per time series.
pub type InstantResult = Vec<SampleSeries>;

/// One point of a range query series.
pub struct RangePoint {
    pub timestamp: Timestamp,
    pub value: Option<u64>,
}

/// A series with ordered range samples.
pub struct RangeSeries {
    pub labels: Labels,
    pub points: Vec<RangePoint>,
}

/// Result of a range query.
pub type RangeResult = Vec<RangeSeries>;

/// A series as plain values: its labels and its (time, value) points.
pub type SeriesView = (Seq<(Seq<char>, Seq<char>)>, Seq<(Timestamp, Option<u64>)>);

impl View for SampleSeries {
    type V = SeriesView;

    open spec fn view(&self) -> SeriesView {
        (self.labels@, self.samples@.map_values(|s: Sample| (s.timestamp, s.value)))
    }
}

impl View for RangeSeries {
    type V = SeriesView;

    open spec fn view(&self) -> SeriesView {
        (self.labels@, self.points@.map_values(|p: RangePoint| (p.timestamp, p.value)))
    }
}

pub open spec fn instant_view(r: Seq<SampleSeries>) -> Seq<SeriesView> {
    r.map_values(|s: SampleSeries| s@)
}

pub open spec fn range_view(r: Seq<RangeSeries>) -> Seq<SeriesView> {
    r.map_values(|s: RangeSeries| s@)
}

/// No two pairs share a name.
pub open spec fn keys_unique(pairs: Seq<(Seq<char>, Seq<char>)>) -> bool {
    forall|i: int, j: int| 0 <= i < j < pairs.len() ==> #[trigger] pairs[i].0 != #[trigger] pairs[j].0
}

/// The string-valued entries of an object, in order, each name once (the
/// first entry with that name is kept).
pub open spec fn string_entries(e: Seq<(String, Json)>) -> Seq<(Seq<char>, Seq<char>)>
    decreases e.len(),
{
    if e.len() == 0 {
        Seq::empty()
    } else {
        let init = string_entries(e.drop_last());
        match e.last().1 {
            Json::Str(t) => if lookup(init, e.last().0@) is Some {
                init
            } else {
                init.push((e.last().0@, t.text@))
            },
            _ => init,
        }
    }
}

/// A name that `lookup` does not find is the name of no pair.
proof fn lemma_lookup_none(pairs: Seq<(Seq<char>, Seq<char>)>, name: Seq<char>)
    requires
        lookup(pairs, name) is None,
    ensures
        forall|i: int| 0 <= i < pairs.len() ==> #[trigger] pairs[i].0 != name,
    decreases pairs.len(),
{
    if pairs.len() > 0 {
        lemma_lookup_none(pairs.drop_first(), name);
        assert forall|i: int| 0 < i < pairs.len() implies #[trigger] pairs[i].0 != name by {
            assert(pairs[i] == pairs.drop_first()[i - 1]);
        }
    }
}

/// Adding a pair whose name is not yet present keeps the names unique.
proof fn lemma_push_new_key(pairs: Seq<(Seq<char>, Seq<char>)>, p: (Seq<char>, Seq<char>))
    requires
        keys_unique(pairs),
        lookup(pairs, p.0) is None,
    ensures
        keys_unique(pairs.push(p)),
{
    lemma_lookup_none(pairs, p.0);
    let q = pairs.push(p);
    assert forall|i: int, j: int| 0 <= i < j < q.len() implies #[trigger] q[i].0 != #[trigger] q[j].0 by {
        if j == pairs.len() {
            assert(q[i] == pairs[i]);
        } else {
            assert(q[i] == pairs[i] && q[j] == pairs[j]);
        }
    }
}

/// The labels of an object name each label once.
pub proof fn lemma_string_entries_unique(e: Seq<(String, Json)>)
    ensures
        keys_unique(string_entries(e)),
    decreases e.len(),
{
    if e.len() > 0 {
        lemma_string_entries_unique(e.drop_last());
        let init = string_entries(e.drop_last());
        match e.last().1 {
            Json::Str(t) => if lookup(init, e.last().0@) is None {
                lemma_push_new_key(init, (e.last().0@, t.text@));
            },
            _ => {},
        }
    }
}

/// The labels of a result item: the string entries of its `metric` object.
pub open spec fn metric_labels(item: Json) -> Seq<(Seq<char>, Seq<char>)> {
    match json_get(item, "metric"@) {
        Some(Json::Object(e)) => string_entries(e@),
        _ => Seq::empty(),
    }
}

/// A result item's labels name each label once.
pub proof fn lemma_metric_labels_unique(item: Json)
    ensures
        keys_unique(metric_labels(item)),
{
    match json_get(item, "metric"@) {
        Some(Json::Object(e)) => lemma_string_entries_unique(e@),
        _ => {},
    }
}

/// The readings of the range pairs that parse, in order.
pub open spec fn range_readings(vs: Seq<Json>) -> Seq<(Timestamp, Option<u64>)>
    decreases vs.len(),
{
    if vs.len() == 0 {
        Seq::empty()
    } else {
        let init = range_readings(vs.drop_last());
        match pair_reading(vs.last(), false) {
            Some(p) => init.push(p),
            None => init,
        }
    }
}

/// An instant-vector item: its labels and its `value` pair, if that parses.
pub open spec fn instant_item(item: Json) -> SeriesView {
    (
        metric_labels(item),
        match json_get(item, "value"@) {
            Some(v) => match pair_reading(v, true) {
                Some(p) => seq![p],
                None => Seq::empty(),
            },
            None => Seq::empty(),
        },
    )
}

/// A range-vector item: its labels and those of its `values` pairs that parse.
pub open spec fn range_item(item: Json) -> SeriesView {
    (
        metric_labels(item),
        match json_get(item, "values"@) {
            Some(Json::Array(vs)) => range_readings(vs@),
            _ => Seq::empty(),
        },
    )
}

/// What a Prometheus request is for.
#[derive(Debug, Clone, Copy, PartialEq, Eq, Structural)]
pub enum RequestKind {
    /// `GET /api/v1/query`, bounded by the query timeout.
    Instant,
    /// `GET /api/v1/query_range`, bounded by the query timeout.
    Range,
    /// A liveness probe, bounded by the ping timeout.
    Probe,
}

/// A GET request to Prometheus: its URL and query-string parameters.
pub struct PromRequest {
    pub kind: RequestKind,
    pub url: String,
    pub params: Vec<(String, String)>,
    pub promql: String,
}

/// What came of sending a request.
pub enum PromEvent {
    /// No reply: the HTTP client's error, whether it was a timeout or a
    /// failed connection, and its description.
    Failed { timed_out: bool, connect: bool, text: String },
    /// A reply with its status, and its body read as a Prometheus envelope
    /// (or the description of why it could not be).
    Answered { status: u16, body: Result<PromResponse<PromQueryData>, String> },
}

/// The base URL a client queries: the configured one without trailing `/`.
pub fn client_base_url(base_url: &str) -> (r: String)
    ensures
        r@ == strip_trailing(base_url@, '/'),
{
    trim_end_char(base_url, '/')
}

/// `GET {base}/api/v1/query?query={promql}`.
pub fn instant_request(base_url: &str, promql: &str) -> (r: PromRequest)
    ensures
        r.kind == RequestKind::Instant,
        r.url@ == base_url@ + "/api/v1/query"@,
        pairs_view(r.params@) == seq![("query"@, promql@)],
        r.promql@ == promql@,
{
    let mut params: Vec<(String, String)> = Vec::new();
    params.push((owned("query"), owned(promql)));
    assert(pairs_view(params@) =~= seq![("query"@, promql@)]);
    PromRequest {
        kind: RequestKind::Instant,
        url: join2(base_url, "/api/v1/query"),
        params,
        promql: owned(promql),
    }
}

/// `GET {base}/api/v1/query_range?query=..&start=..&end=..&step={step}s`.
pub fn range_request(base_url: &str, promql: &str, start: i64, end: i64, step_secs: u32) -> (r:
    PromRequest)
    ensures
        r.kind == RequestKind::Range,
        r.url@ == base_url@ + "/api/v1/query_range"@,
        pairs_view(r.params@) == seq![
            ("query"@, promql@),
            ("start"@, signed_decimal_text(start as int)),
            ("end"@, signed_decimal_text(end as int)),
            ("step"@, decimal_text(step_secs as nat) + "s"@),
        ],
        r.promql@ == promql@,
{
    let mut params: Vec<(String, String)> = Vec::new();
    params.push((owned("query"), owned(promql)));
    params.push((owned("start"), i64_text(start)));
    params.push((owned("end"), i64_text(end)));
    let step = u64_text(step_secs as u64);
    params.push((owned("step"), join2(step.as_str(), "s")));
    assert(pairs_view(params@) =~= seq![
        ("query"@, promql@),
        ("start"@, signed_decimal_text(start as int)),
        ("end"@, signed_decimal_text(end as int)),
        ("step"@, decimal_text(step_secs as nat) + "s"@),
    ]);
    PromRequest {
        kind: RequestKind::Range,
        url: join2(base_url, "/api/v1/query_range"),
        params,
        promql: owned(promql),
    }
}

/// The liveness probe: `GET {base}/api/v1/query?query=1`.
pub fn probe_request(base_url: &str) -> (r: PromRequest)
    ensures
        r.kind == RequestKind::Probe,
        r.url@ == base_url@ + "/api/v1/query"@,
        pairs_view(r.params@) == seq![("query"@, "1"@)],
        r.promql@ == "1"@,
{
    let mut params: Vec<(String, String)> = Vec::new();
    params.push((owned("query"), owned("1")));
    assert(pairs_view(params@) =~= seq![("query"@, "1"@)]);
    PromRequest {
        kind: RequestKind::Probe,
        url: join2(base_url, "/api/v1/query"),
        params,
        promql: owned("1"),
    }
}

/// A 2xx status passes; any other is a Prometheus status error.
pub fn check_status(status: u16, url: &str) -> (r: Result<(), ApiError>)
    ensures
        200 <= status <= 299 ==> r is Ok,
        !(200 <= status <= 299) ==> (r matches Err(e) && e@ == ErrorView::Status(
            status,
            "request to "@ + url@ + " failed"@,
        )),
{
    if 200 <= status && status <= 299 {
        Ok(())
    } else {
        Err(ApiError::PrometheusStatus { status, body: join3("request to ", url, " failed") })
    }
}

/// The result items of a successful envelope: the status must read
/// `success` and the data must be present.
pub fn finish(body: PromResponse<PromQueryData>) -> (r: Result<Vec<Json>, ApiError>)
    ensures
        body.status@ != "success"@ ==> (r matches Err(e) && e@ == ErrorView::BadResponse(
            "status="@ + body.status@,
        )),
        body.status@ == "success"@ && body.data is None ==> (r matches Err(e) && e@
            == ErrorView::BadResponse("missing data"@)),
        body.status@ == "success"@ && body.data is Some ==> r == Ok::<Vec<Json>, ApiError>(
            body.data.unwrap().result,
        ),
{
    if !same_text(body.status.as_str(), "success") {
        return Err(ApiError::PrometheusBadResponse(join2("status=", body.status.as_str())));
    }
    match body.data {
        Some(data) => Ok(data.result),
        None => Err(ApiError::PrometheusBadResponse(owned("missing data"))),
    }
}

/// The labels of a result item.
pub fn labels_of(item: &Json) -> (r: Labels)
    ensures
        r@ == metric_labels(*item),
        keys_unique(r@),
{
    let mut labels = Labels { pairs: Vec::new() };
    match item.get("metric") {
        Some(Json::Object(entries)) => {
            let n = entries.len();
            let mut i: usize = 0;
            while i < n
                invariant
                    n == entries@.len(),
                    i <= n,
                    labels@ == string_entries(entries@.take(i as int)),
                decreases n - i,
            {
                proof {
                    assert(entries@.take(i + 1).drop_last() =~= entries@.take(i as int));
                }
                let ghost before = labels.pairs@;
                match &entries[i].1 {
                    Json::Str(t) => {
                        if labels.get(entries[i].0.as_str()).is_none() {
                            labels.pairs.push((entries[i].0.clone(), t.text.clone()));
                            assert(pairs_view(labels.pairs@) =~= pairs_view(before).push(
                                (entries@[i as int].0@, t.text@),
                            ));
                        }
                    },
                    _ => {},
                }
                i = i + 1;
            }
            assert(entries@.take(n as int) =~= entries@);
        },
        _ => {
            assert(labels@ =~= Seq::<(Seq<char>, Seq<char>)>::empty());
        },
    }
    proof {
        lemma_metric_labels_unique(*item);
    }
    labels
}

/// The series of an instant-vector result.
pub fn instant_items(items: &Vec<Json>) -> (r: InstantResult)
    ensures
        instant_view(r@) == items@.map_values(|j: Json| instant_item(j)),
        forall|i: int, k: int|
            0 <= i < r@.len() && 0 <= k < r@[i].samples@.len() ==> (#[trigger] r@[i].samples@[k]).metric@.len()
                == 0,
        forall|i: int| 0 <= i < r@.len() ==> keys_unique(#[trigger] r@[i].labels@),
{
    let mut out: Vec<SampleSeries> = Vec::new();
    let n = items.len();
    let mut i: usize = 0;
    while i < n
        invariant
            n == items@.len(),
            i <= n,
            instant_view(out@) == items@.take(i as int).map_values(|j: Json| instant_item(j)),
            forall|a: int, k: int|
                0 <= a < out@.len() && 0 <= k < out@[a].samples@.len() ==> (#[trigger] out@[a].samples@[k]).metric@.len()
                    == 0,
        decreases n - i,
    {
        let item = &items[i];
        let labels = labels_of(item);
        let mut samples: Vec<Sample> = Vec::new();
        match item.get("value") {
            Some(v) => match parse_instant_pair(v) {
                Some(s) => samples.push(s),
                None => {},
            },
            None => {},
        }
        let ghost before = out@;
        let series = SampleSeries { labels, samples };
        assert(series@ =~= instant_item(*item));
        let ghost sv = series@;
        out.push(series);
        assert(instant_view(out@) =~= instant_view(before).push(sv));
        assert(items@.take(i + 1).map_values(|j: Json| instant_item(j)) =~= items@.take(
            i as int,
        ).map_values(|j: Json| instant_item(j)).push(instant_item(items@[i as int])));
        i = i + 1;
    }
    assert(items@.take(n as int) =~= items@);
    assert forall|i: int| 0 <= i < out@.len() implies keys_unique(#[trigger] out@[i].labels@) by {
        assert(instant_view(out@)[i] == instant_item(items@[i]));
        lemma_metric_labels_unique(items@[i]);
    }
    out
}

/// The series of a range-vector result.
pub fn range_items(items: &Vec<Json>) -> (r: RangeResult)
    ensures
        range_view(r@) == items@.map_values(|j: Json| range_item(j)),
        forall|i: int| 0 <= i < r@.len() ==> keys_unique(#[trigger] r@[i].labels@),
{
    let mut out: Vec<RangeSeries> = Vec::new();
    let n = items.len();
    let mut i: usize = 0;
    while i < n
        invariant
            n == items@.len(),
            i <= n,
            range_view(out@) == items@.take(i as int).map_values(|j: Json| range_item(j)),
        decreases n - i,
    {
        let item = &items[i];
        let labels = labels_of(item);
        let mut points: Vec<RangePoint> = Vec::new();
        match item.get("values") {
            Some(Json::Array(vs)) => {
                let m = vs.len();
                let mut k: usize = 0;
                while k < m
                    invariant
                        m == vs@.len(),
                        k <= m,
                        points@.map_values(|p: RangePoint| (p.timestamp, p.value)) == range_readings(
                            vs@.take(k as int),
                        ),
                    decreases m - k,
                {
                    proof {
                        assert(vs@.take(k + 1).drop_last() =~= vs@.take(k as int));
                    }
                    let ghost before = points@;
                    match parse_range_pair(&vs[k]) {
                        Some(s) => {
                            points.push(RangePoint { timestamp: s.timestamp, value: s.value });
                            assert(points@.map_values(|p: RangePoint| (p.timestamp, p.value))
                                =~= before.map_values(|p: RangePoint| (p.timestamp, p.value)).push(
                                (s.timestamp, s.value),
                            ));
                        },
                        None => {},
                    }
                    k = k + 1;
                }
                assert(vs@.take(m as int) =~= vs@);
            },
            _ => {},
        }
        let ghost before = out@;
        let series = RangeSeries { labels, points };
        assert(series@ =~= range_item(*item));
        let ghost sv = series@;
        out.push(series);
        assert(range_view(out@) =~= range_view(before).push(sv));
        assert(items@.take(i + 1).map_values(|j: Json| range_item(j)) =~= items@.take(
            i as int,
        ).map_values(|j: Json| range_item(j)).push(range_item(items@[i as int])));
        i = i + 1;
    }
    assert(items@.take(n as int) =~= items@);
    assert forall|i: int| 0 <= i < out@.len() implies keys_unique(#[trigger] out@[i].labels@) by {
        assert(range_view(out@)[i] == range_item(items@[i]));
        lemma_metric_labels_unique(items@[i]);
    }
    out
}

/// The error a reply whose body could not be read stands for.
pub open spec fn unreadable_body(kind: RequestKind, promql: Seq<char>, why: Seq<char>) -> ErrorView {
    match kind {
        RequestKind::Range => ErrorView::BadResponse("range query `"@ + promql + "`: "@ + why),
        _ => ErrorView::BadResponse("query `"@ + promql + "`: "@ + why),
    }
}

/// What went wrong with an exchange before its result items, if anything:
/// no reply, a non-2xx status, an unreadable body, or an envelope that is
/// not a success with data.
pub open spec fn exchange_error(req: PromRequest, ev: PromEvent) -> Option<ErrorView> {
    match ev {
        PromEvent::Failed { timed_out, connect, text } => Some(
            transport_error_view(timed_out, connect, text@),
        ),
        PromEvent::Answered { status, body } => if !(200 <= status <= 299) {
            Some(ErrorView::Status(status, "request to "@ + req.url@ + " failed"@))
        } else {
            match body {
                Err(why) => Some(unreadable_body(req.kind, req.promql@, why@)),
                Ok(b) => if b.status@ != "success"@ {
                    Some(ErrorView::BadResponse("status="@ + b.status@))
                } else if b.data is None {
                    Some(ErrorView::BadResponse("missing data"@))
                } else {
                    None
                },
            }
        },
    }
}

/// The result items of an exchange that went through.
pub open spec fn exchange_items(ev: PromEvent) -> Seq<Json> {
    match ev {
        PromEvent::Answered { body: Ok(b), .. } => b.data.unwrap().result@,
        _ => Seq::empty(),
    }
}

fn exchange(req: &PromRequest, ev: PromEvent) -> (r: Result<Vec<Json>, ApiError>)
    ensures
        match exchange_error(*req, ev) {
            Some(e) => r matches Err(x) && x@ == e,
            None => r matches Ok(items) && items@ == exchange_items(ev),
        },
{
    match ev {
        PromEvent::Failed { timed_out, connect, text } => Err(
            transport_error(timed_out, connect, text),
        ),
        PromEvent::Answered { status, body } => {
            match check_status(status, req.url.as_str()) {
                Err(e) => return Err(e),
                Ok(()) => {},
            }
            match body {
                Err(why) => {
                    let m = match req.kind {
                        RequestKind::Range => join3("range query `", req.promql.as_str(), "`: "),
                        _ => join3("query `", req.promql.as_str(), "`: "),
                    };
                    Err(ApiError::PrometheusBadResponse(join2(m.as_str(), why.as_str())))
                },
                Ok(b) => finish(b),
            }
        },
    }
}

/// No sample of the series carries a label set of its own: the labels of
/// a series are those of the series.
pub open spec fn samples_unlabeled(r: Seq<SampleSeries>) -> bool {
    forall|i: int, k: int|
        0 <= i < r.len() && 0 <= k < r[i].samples@.len() ==> (#[trigger] r[i].samples@[k]).metric@.len()
            == 0
}

/// `r` is what an instant query's exchange yields: the error it ended in,
/// or the series of its result items, whose samples carry no labels.
pub open spec fn instant_outcome_is(req: PromRequest, ev: PromEvent, r: Result<InstantResult, ApiError>) -> bool {
    match exchange_error(req, ev) {
        Some(e) => r matches Err(x) && x@ == e,
        None => r matches Ok(s) && instant_view(s@) == exchange_items(ev).map_values(
            |j: Json| instant_item(j),
        ) && samples_unlabeled(s@),
    }
}

/// `r` is what a range query's exchange yields: the error it ended in, or
/// the series of its result items.
pub open spec fn range_outcome_is(req: PromRequest, ev: PromEvent, r: Result<RangeResult, ApiError>) -> bool {
    match exchange_error(req, ev) {
        Some(e) => r matches Err(x) && x@ == e,
        None => r matches Ok(s) && range_view(s@) == exchange_items(ev).map_values(
            |j: Json| range_item(j),
        ),
    }
}

/// The series an instant query's exchange yields, or the error it ended in.
pub fn instant_outcome(req: &PromRequest, ev: PromEvent) -> (r: Result<InstantResult, ApiError>)
    ensures
        instant_outcome_is(*req, ev, r),
{
    match exchange(req, ev) {
        Err(e) => Err(e),
        Ok(items) => Ok(instant_items(&items)),
    }
}

/// The series a range query's exchange yields, or the error it ended in.
pub fn range_outcome(req: &PromRequest, ev: PromEvent) -> (r: Result<RangeResult, ApiError>)
    ensures
        range_outcome_is(*req, ev, r),
{
    match exchange(req, ev) {
        Err(e) => Err(e),
        Ok(items) => Ok(range_items(&items)),
    }
}

/// Whether a liveness probe went through: a reply with a 2xx status,
/// whatever its body.
pub fn probe_outcome(req: &PromRequest, ev: PromEvent) -> (r: Result<(), ApiError>)
    ensures
        match ev {
            PromEvent::Failed { timed_out, connect, text } => r matches Err(x) && x@
                == transport_error_view(timed_out, connect, text@),
            PromEvent::Answered { status, .. } => if 200 <= status <= 299 {
                r is Ok
            } else {
                r matches Err(x) && x@ == ErrorView::Status(
                    status,
                    "request to "@ + req.url@ + " failed"@,
                )
            },
        },
{
    match ev {
        PromEvent::Failed { timed_out, connect, text } => Err(
            transport_error(timed_out, connect, text),
        ),
        PromEvent::Answered { status, .. } => check_status(status, req.url.as_str()),
    }
}

} // verus!
