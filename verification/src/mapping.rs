//! Mapping from Prometheus query results into the dashboard reports.

use vstd::prelude::*;
use crate::client::{
    InstantResult, RangeResult, SeriesView, instant_view, lookup, lookup_or, range_view,
};
use crate::models::{PlatformStatus, Reading, Series, SeriesPoint, readings_view};
use crate::number::{Comparison, compare_values, is_nan, value_cmp};
use crate::response::Timestamp;
use crate::sort::{
    is_permutation_of, is_stable_sort_of, lemma_permutation_map, lemma_stable_sort_map,
    lemma_stable_sort_unique, sort_applies, stable_sort_by,
};
use crate::text::{
    lemma_text_lt_strict_weak_order, replace_braces, replace_braces_with, same_text, text_less,
    text_lt,
};
use crate::number::lemma_greater_is_strict_weak_order;

verus! {

// ------------------------------------------------------------ scalars

/// The value of the first sample of a series.
pub open spec fn first_value(s: SeriesView) -> Option<u64> {
    if s.1.len() > 0 {
        s.1[0].1
    } else {
        None
    }
}

/// The value of the first sample of the first series.
pub open spec fn scalar_of(v: Seq<SeriesView>) -> Option<u64> {
    if v.len() > 0 {
        first_value(v[0])
    } else {
        None
    }
}

/// Extracts a scalar from a single-series instant result.
pub fn scalar(result: &InstantResult) -> (r: Option<u64>)
    ensures
        r == scalar_of(instant_view(result@)),
{
    if result.len() > 0 && result[0].samples.len() > 0 {
        assert(instant_view(result@)[0].1[0] == (
            result@[0].samples@[0].timestamp,
            result@[0].samples@[0].value,
        ));
        result[0].samples[0].value
    } else {
        None
    }
}

// ------------------------------------------------------------ readings

fn label_before(a: &Reading, b: &Reading) -> (r: bool)
    ensures
        r == text_lt(a.label@, b.label@),
{
    text_less(a.label.as_str(), b.label.as_str())
}

fn value_before(a: &Reading, b: &Reading) -> (r: bool)
    ensures
        r == (value_cmp(a.value, b.value) == Comparison::Greater),
{
    compare_values(a.value, b.value) == Comparison::Greater
}

fn text_before(a: &String, b: &String) -> (r: bool)
    ensures
        r == text_lt(a@, b@),
{
    text_less(a.as_str(), b.as_str())
}

/// Label of the reading for a series: the value of label `label` (or
/// `unknown`), with each `{}` in it replaced by that same value.
pub open spec fn reading_label(labels: Seq<(Seq<char>, Seq<char>)>, label: Seq<char>) -> Seq<char> {
    let lv = lookup_or(labels, label, "unknown"@);
    replace_braces(lv, lv)
}

/// One reading per series that has a first value, in result order.
pub open spec fn label_rows(v: Seq<SeriesView>, label: Seq<char>) -> Seq<(Seq<char>, u64)>
    decreases v.len(),
{
    if v.len() == 0 {
        Seq::empty()
    } else {
        let init = label_rows(v.drop_last(), label);
        match first_value(v.last()) {
            Some(x) => init.push((reading_label(v.last().0, label), x)),
            None => init,
        }
    }
}

/// Readings ordered by label, in code point order.
pub open spec fn by_label() -> spec_fn((Seq<char>, u64), (Seq<char>, u64)) -> bool {
    |a: (Seq<char>, u64), b: (Seq<char>, u64)| text_lt(a.0, b.0)
}

/// `out` is what `labeled` gives for `v`: the readings of the series,
/// stably sorted by label.
pub open spec fn labeled_from(v: Seq<SeriesView>, label: Seq<char>, out: Seq<(Seq<char>, u64)>) -> bool {
    is_stable_sort_of(label_rows(v, label), out, by_label())
}

/// Per-label readings of a multi-series instant result, sorted by label.
pub fn labeled(result: &InstantResult, label: &str) -> (r: Vec<Reading>)
    ensures
        labeled_from(instant_view(result@), label@, readings_view(r@)),
{
    let ghost iv = instant_view(result@);
    let n = result.len();
    let mut rows: Vec<Reading> = Vec::new();
    let mut i: usize = 0;
    while i < n
        invariant
            n == result@.len(),
            i <= n,
            iv == instant_view(result@),
            readings_view(rows@) == label_rows(iv.take(i as int), label@),
        decreases n - i,
    {
        proof {
            assert(iv.take(i + 1).drop_last() =~= iv.take(i as int));
            assert(iv.take(i + 1).last() == result@[i as int]@);
        }
        let s = &result[i];
        if s.samples.len() > 0 {
            match s.samples[0].value {
                Some(x) => {
                    let lv = s.labels.get_or(label, "unknown");
                    let name = replace_braces_with(lv.as_str(), lv.as_str());
                    let ghost before = rows@;
                    rows.push(Reading { label: name, value: x });
                    assert(readings_view(rows@) =~= readings_view(before).push(
                        (reading_label(s.labels@, label@), x),
                    ));
                },
                None => {},
            }
        }
        i = i + 1;
    }
    assert(iv.take(n as int) =~= iv);
    let ghost lt = |a: Reading, b: Reading| text_lt(a.label@, b.label@);
    let ghost dom = |a: Reading| true;
    let ghost input = rows@;
    let sorted = stable_sort_by(
        rows,
        label_before,
        Ghost(lt),
        Ghost(dom),
    );
    proof {
        lemma_text_lt_strict_weak_order();
        assert(sort_applies(input, dom, lt));
        let f = |x: Reading| x@;
        lemma_stable_sort_map(input, sorted@, lt, f, by_label());
        assert(readings_view(input) =~= input.map_values(f));
        assert(readings_view(sorted@) =~= sorted@.map_values(f));
    }
    sorted
}

/// The readings of a result have one label order: what `labeled` gives is
/// determined by the result and the label.
pub proof fn lemma_labeled_determined(
    v: Seq<SeriesView>,
    label: Seq<char>,
    a: Seq<(Seq<char>, u64)>,
    b: Seq<(Seq<char>, u64)>,
)
    requires
        labeled_from(v, label, a),
        labeled_from(v, label, b),
    ensures
        a == b,
{
    lemma_text_lt_strict_weak_order();
    let dom = |x: (Seq<char>, u64)| true;
    assert(sort_applies(label_rows(v, label), dom, by_label()));
    lemma_stable_sort_unique(label_rows(v, label), a, b, by_label(), dom);
}

// ------------------------------------------------------------ chart series

/// Chart series of a range result: each named by label `label` (or
/// `total`), with its points as they came.
pub open spec fn named_series(v: Seq<SeriesView>, label: Seq<char>) -> Seq<
    (Seq<char>, Seq<(Timestamp, Option<u64>)>),
> {
    v.map_values(|s: SeriesView| (lookup_or(s.0, label, "total"@), s.1))
}

/// Converts a range result into chart series.
pub fn to_series(result: &RangeResult, label: &str) -> (r: Vec<Series>)
    ensures
        r@.map_values(|s: Series| s@) == named_series(range_view(result@), label@),
{
    let n = result.len();
    let mut out: Vec<Series> = Vec::new();
    let mut i: usize = 0;
    while i < n
        invariant
            n == result@.len(),
            i <= n,
            out@.map_values(|s: Series| s@) == named_series(range_view(result@).take(i as int), label@),
        decreases n - i,
    {
        let s = &result[i];
        let name = s.labels.get_or(label, "total");
        let m = s.points.len();
        let mut points: Vec<SeriesPoint> = Vec::new();
        let mut k: usize = 0;
        while k < m
            invariant
                m == s.points@.len(),
                k <= m,
                points@.map_values(|p: SeriesPoint| (p.t, p.v)) == s.points@.take(
                    k as int,
                ).map_values(|p: crate::client::RangePoint| (p.timestamp, p.value)),
            decreases m - k,
        {
            let ghost before = points@;
            points.push(SeriesPoint { t: s.points[k].timestamp, v: s.points[k].value });
            assert(points@.map_values(|p: SeriesPoint| (p.t, p.v)) =~= before.map_values(
                |p: SeriesPoint| (p.t, p.v),
            ).push((s.points@[k as int].timestamp, s.points@[k as int].value)));
            assert(s.points@.take(k + 1).map_values(
                |p: crate::client::RangePoint| (p.timestamp, p.value),
            ) =~= s.points@.take(k as int).map_values(
                |p: crate::client::RangePoint| (p.timestamp, p.value),
            ).push((s.points@[k as int].timestamp, s.points@[k as int].value)));
            assert(points@.map_values(|p: SeriesPoint| (p.t, p.v)) =~= s.points@.take(
                k + 1,
            ).map_values(|p: crate::client::RangePoint| (p.timestamp, p.value)));
            k = k + 1;
        }
        assert(s.points@.take(m as int) =~= s.points@);
        let ghost before = out@;
        let series = Series { name, points };
        let ghost sv = series@;
        assert(sv == (lookup_or(s.labels@, label@, "total"@), s@.1));
        out.push(series);
        assert(out@.map_values(|s: Series| s@) =~= before.map_values(|s: Series| s@).push(sv));
        assert(named_series(range_view(result@).take(i + 1), label@) =~= named_series(
            range_view(result@).take(i as int),
            label@,
        ).push(sv));
        i = i + 1;
    }
    assert(range_view(result@).take(n as int) =~= range_view(result@));
    out
}

// ------------------------------------------------------------ current research

/// The series `Iterator::min_by` picks among those with a first value,
/// comparing first values with `partial_cmp` (unordered counts as equal):
/// a later series replaces the pick only when the pick is greater.
pub open spec fn least_series(v: Seq<SeriesView>) -> Option<SeriesView>
    decreases v.len(),
{
    if v.len() == 0 {
        None
    } else {
        let best = least_series(v.drop_last());
        let s = v.last();
        match first_value(s) {
            None => best,
            Some(x) => match best {
                None => Some(s),
                Some(b) => if value_cmp(first_value(b).unwrap(), x) == Comparison::Greater {
                    Some(s)
                } else {
                    Some(b)
                },
            },
        }
    }
}

/// The technology in progress: the `tech` label of the series with the
/// lowest research progress.
pub open spec fn research_name(v: Seq<SeriesView>) -> Option<Seq<char>> {
    match least_series(v) {
        Some(s) => lookup(s.0, "tech"@),
        None => None,
    }
}

/// The name of the research in progress, from the research-in-progress series.
pub fn current_research(result: &InstantResult) -> (r: Option<String>)
    ensures
        match r {
            Some(x) => research_name(instant_view(result@)) == Some(x@),
            None => research_name(instant_view(result@)) is None,
        },
{
    let ghost iv = instant_view(result@);
    let n = result.len();
    let mut best: Option<usize> = None;
    let mut best_value: u64 = 0;
    let mut i: usize = 0;
    while i < n
        invariant
            n == result@.len(),
            i <= n,
            iv == instant_view(result@),
            match best {
                None => least_series(iv.take(i as int)) is None,
                Some(b) => b < i && least_series(iv.take(i as int)) == Some(iv[b as int])
                    && first_value(iv[b as int]) == Some(best_value),
            },
        decreases n - i,
    {
        proof {
            assert(iv.take(i + 1).drop_last() =~= iv.take(i as int));
            assert(iv.take(i + 1).last() == iv[i as int]);
            assert(iv[i as int] == result@[i as int]@);
        }
        let s = &result[i];
        if s.samples.len() > 0 {
            match s.samples[0].value {
                Some(x) => {
                    match best {
                        None => {
                            best = Some(i);
                            best_value = x;
                        },
                        Some(_) => {
                            if compare_values(best_value, x) == Comparison::Greater {
                                best = Some(i);
                                best_value = x;
                            }
                        },
                    }
                },
                None => {},
            }
        }
        i = i + 1;
    }
    assert(iv.take(n as int) =~= iv);
    match best {
        Some(b) => result[b].labels.get("tech"),
        None => None,
    }
}

// ------------------------------------------------------------ logistics

/// Readings ordered by value, largest first (unordered counts as equal).
pub open spec fn by_value_desc() -> spec_fn((Seq<char>, u64), (Seq<char>, u64)) -> bool {
    |a: (Seq<char>, u64), b: (Seq<char>, u64)| value_cmp(a.1, b.1) == Comparison::Greater
}

/// `out` is the first ten of `rows` once stably sorted by value, largest
/// first. Where a value is NaN the order is not a strict weak order and
/// only the rearrangement is claimed.
pub open spec fn top_ten_by_value(rows: Seq<(Seq<char>, u64)>, out: Seq<(Seq<char>, u64)>) -> bool {
    exists|ordered: Seq<(Seq<char>, u64)>|
        {
            &&& is_permutation_of(rows, ordered)
            &&& (forall|i: int| 0 <= i < rows.len() ==> !is_nan(#[trigger] rows[i].1))
                ==> is_stable_sort_of(rows, ordered, by_value_desc())
            &&& out == (if ordered.len() > 10 {
                ordered.take(10)
            } else {
                ordered
            })
        }
}

/// The ten readings with the largest values, largest first.
pub fn top_ten(rows: Vec<Reading>) -> (r: Vec<Reading>)
    ensures
        top_ten_by_value(readings_view(rows@), readings_view(r@)),
{
    let ghost lt = |a: Reading, b: Reading| value_cmp(a.value, b.value) == Comparison::Greater;
    let ghost dom = |a: Reading| !is_nan(a.value);
    let ghost input = rows@;
    let mut sorted = stable_sort_by(
        rows,
        value_before,
        Ghost(lt),
        Ghost(dom),
    );
    let ghost ordered = sorted@;
    let ghost f = |x: Reading| x@;
    proof {
        lemma_permutation_map(input, ordered, f);
        assert(readings_view(input) =~= input.map_values(f));
        assert(readings_view(ordered) =~= ordered.map_values(f));
        if forall|i: int| 0 <= i < readings_view(input).len() ==> !is_nan(
            #[trigger] readings_view(input)[i].1,
        ) {
            lemma_greater_is_strict_weak_order();
            assert forall|i: int| 0 <= i < input.len() implies dom(#[trigger] input[i]) by {
                assert(readings_view(input)[i].1 == input[i].value);
            }
            assert(sort_applies(input, dom, lt));
            lemma_stable_sort_map(input, ordered, lt, f, by_value_desc());
        }
    }
    sorted.truncate(10);
    proof {
        let o = readings_view(ordered);
        assert(readings_view(sorted@) =~= (if o.len() > 10 {
            o.take(10)
        } else {
            o
        }));
    }
    sorted
}

/// When no value is NaN, the ten largest readings are determined: what
/// `top_ten` gives depends on its input alone.
pub proof fn lemma_top_ten_determined(
    rows: Seq<(Seq<char>, u64)>,
    a: Seq<(Seq<char>, u64)>,
    b: Seq<(Seq<char>, u64)>,
)
    requires
        forall|i: int| 0 <= i < rows.len() ==> !is_nan(#[trigger] rows[i].1),
        top_ten_by_value(rows, a),
        top_ten_by_value(rows, b),
    ensures
        a == b,
{
    let oa = choose|ordered: Seq<(Seq<char>, u64)>|
        {
            &&& is_permutation_of(rows, ordered)
            &&& (forall|i: int| 0 <= i < rows.len() ==> !is_nan(#[trigger] rows[i].1))
                ==> is_stable_sort_of(rows, ordered, by_value_desc())
            &&& a == (if ordered.len() > 10 {
                ordered.take(10)
            } else {
                ordered
            })
        };
    let ob = choose|ordered: Seq<(Seq<char>, u64)>|
        {
            &&& is_permutation_of(rows, ordered)
            &&& (forall|i: int| 0 <= i < rows.len() ==> !is_nan(#[trigger] rows[i].1))
                ==> is_stable_sort_of(rows, ordered, by_value_desc())
            &&& b == (if ordered.len() > 10 {
                ordered.take(10)
            } else {
                ordered
            })
        };
    lemma_greater_is_strict_weak_order();
    let dom = |x: (Seq<char>, u64)| !is_nan(x.1);
    assert(sort_applies(rows, dom, by_value_desc()));
    lemma_stable_sort_unique(rows, oa, ob, by_value_desc(), dom);
}

// ------------------------------------------------------------ platforms

/// Platform names: those with a speed reading, in order, then those with
/// only a fuel reading, in order of first appearance.
pub open spec fn platform_names(speeds: Seq<(Seq<char>, u64)>, fuels: Seq<(Seq<char>, u64)>) -> Seq<
    Seq<char>,
>
    decreases fuels.len(),
{
    if fuels.len() == 0 {
        speeds.map_values(|r: (Seq<char>, u64)| r.0)
    } else {
        let names = platform_names(speeds, fuels.drop_last());
        if names.contains(fuels.last().0) {
            names
        } else {
            names.push(fuels.last().0)
        }
    }
}

/// The value of the first reading labeled `name`.
pub open spec fn value_for(rows: Seq<(Seq<char>, u64)>, name: Seq<char>) -> Option<u64>
    decreases rows.len(),
{
    if rows.len() == 0 {
        None
    } else if rows[0].0 == name {
        Some(rows[0].1)
    } else {
        value_for(rows.drop_first(), name)
    }
}

/// Texts in code point order.
pub open spec fn text_order() -> spec_fn(Seq<char>, Seq<char>) -> bool {
    |a: Seq<char>, b: Seq<char>| text_lt(a, b)
}

/// `out` is one row per platform name, names sorted, each with the first
/// speed and first fuel reading of that name.
pub open spec fn platform_rows_from(
    speeds: Seq<(Seq<char>, u64)>,
    fuels: Seq<(Seq<char>, u64)>,
    out: Seq<(Seq<char>, Option<u64>, Option<u64>)>,
) -> bool {
    exists|names: Seq<Seq<char>>|
        is_stable_sort_of(platform_names(speeds, fuels), names, text_order()) && out
            == names.map_values(
            |n: Seq<char>| (n, value_for(speeds, n), value_for(fuels, n)),
        )
}

fn has_label(names: &Vec<String>, name: &str) -> (r: bool)
    ensures
        r == names@.map_values(|s: String| s@).contains(name@),
{
    let n = names.len();
    let mut i: usize = 0;
    while i < n
        invariant
            n == names@.len(),
            i <= n,
            forall|k: int| 0 <= k < i ==> names@[k]@ != name@,
        decreases n - i,
    {
        if same_text(names[i].as_str(), name) {
            assert(names@.map_values(|s: String| s@)[i as int] == name@);
            return true;
        }
        i = i + 1;
    }
    proof {
        let v = names@.map_values(|s: String| s@);
        if v.contains(name@) {
            let k = choose|k: int| 0 <= k < v.len() && v[k] == name@;
            assert(names@[k]@ == name@);
        }
    }
    false
}

fn find_value(rows: &Vec<Reading>, name: &str) -> (r: Option<u64>)
    ensures
        r == value_for(readings_view(rows@), name@),
{
    let ghost v = readings_view(rows@);
    let n = rows.len();
    let mut i: usize = 0;
    proof {
        assert(v.skip(0) =~= v);
    }
    while i < n
        invariant
            n == rows@.len(),
            i <= n,
            v == readings_view(rows@),
            value_for(v, name@) == value_for(v.skip(i as int), name@),
        decreases n - i,
    {
        assert(v.skip(i as int)[0] == rows@[i as int]@);
        if same_text(rows[i].label.as_str(), name) {
            return Some(rows[i].value);
        }
        assert(v.skip(i as int).drop_first() =~= v.skip(i + 1));
        i = i + 1;
    }
    None
}

/// One row per platform, combining speed and fuel readings by name.
pub fn platform_rows(speeds: &Vec<Reading>, fuels: &Vec<Reading>) -> (r: Vec<PlatformStatus>)
    ensures
        platform_rows_from(
            readings_view(speeds@),
            readings_view(fuels@),
            r@.map_values(|p: PlatformStatus| p@),
        ),
{
    let ghost sv = readings_view(speeds@);
    let ghost fv = readings_view(fuels@);
    let mut names: Vec<String> = Vec::new();
    let n = speeds.len();
    let mut i: usize = 0;
    while i < n
        invariant
            n == speeds@.len(),
            i <= n,
            sv == readings_view(speeds@),
            names@.map_values(|s: String| s@) == sv.take(i as int).map_values(
                |r: (Seq<char>, u64)| r.0,
            ),
        decreases n - i,
    {
        let ghost before = names@;
        names.push(speeds[i].label.clone());
        assert(sv[i as int].0 == speeds@[i as int].label@);
        assert(names@.map_values(|s: String| s@) =~= before.map_values(|s: String| s@).push(
            speeds@[i as int].label@,
        ));
        assert(sv.take(i + 1).map_values(|r: (Seq<char>, u64)| r.0) =~= sv.take(
            i as int,
        ).map_values(|r: (Seq<char>, u64)| r.0).push(sv[i as int].0));
        assert(names@.map_values(|s: String| s@) =~= sv.take(i + 1).map_values(
            |r: (Seq<char>, u64)| r.0,
        ));
        i = i + 1;
    }
    proof {
        assert(sv.take(n as int) =~= sv);
        assert(fv.take(0).len() == 0);
        assert(platform_names(sv, fv.take(0)) == sv.map_values(|r: (Seq<char>, u64)| r.0));
    }
    let m = fuels.len();
    let mut j: usize = 0;
    while j < m
        invariant
            m == fuels@.len(),
            j <= m,
            sv == readings_view(speeds@),
            fv == readings_view(fuels@),
            names@.map_values(|s: String| s@) == platform_names(sv, fv.take(j as int)),
        decreases m - j,
    {
        proof {
            assert(fv.take(j + 1).drop_last() =~= fv.take(j as int));
            assert(fv.take(j + 1).last() == fuels@[j as int]@);
        }
        if !has_label(&names, fuels[j].label.as_str()) {
            let ghost before = names@;
            names.push(fuels[j].label.clone());
            assert(names@.map_values(|s: String| s@) =~= before.map_values(|s: String| s@).push(
                fuels@[j as int].label@,
            ));
        }
        j = j + 1;
    }
    proof {
        assert(fv.take(m as int) =~= fv);
    }
    let ghost lt = |a: String, b: String| text_lt(a@, b@);
    let ghost dom = |a: String| true;
    let ghost input = names@;
    let sorted = stable_sort_by(
        names,
        text_before,
        Ghost(lt),
        Ghost(dom),
    );
    let ghost f = |s: String| s@;
    proof {
        lemma_text_lt_strict_weak_order();
        assert(sort_applies(input, dom, lt));
        lemma_stable_sort_map(input, sorted@, lt, f, text_order());
        assert(input.map_values(f) =~= input.map_values(|s: String| s@));
    }
    let ghost sorted_names = sorted@.map_values(f);
    let k = sorted.len();
    let mut rows: Vec<PlatformStatus> = Vec::new();
    let mut t: usize = 0;
    while t < k
        invariant
            k == sorted@.len(),
            t <= k,
            sv == readings_view(speeds@),
            fv == readings_view(fuels@),
            sorted_names == sorted@.map_values(f),
            f == (|s: String| s@),
            rows@.map_values(|p: PlatformStatus| p@) == sorted_names.take(t as int).map_values(
                |n: Seq<char>| (n, value_for(sv, n), value_for(fv, n)),
            ),
        decreases k - t,
    {
        let name = sorted[t].clone();
        let speed_kmph = find_value(speeds, name.as_str());
        let fuel_fraction = find_value(fuels, name.as_str());
        let ghost before = rows@;
        let row = PlatformStatus { platform: name, speed_kmph, fuel_fraction };
        let ghost rv = row@;
        assert(sorted_names[t as int] == sorted@[t as int]@);
        rows.push(row);
        assert(rows@.map_values(|p: PlatformStatus| p@) =~= before.map_values(
            |p: PlatformStatus| p@,
        ).push(rv));
        assert(rows@.map_values(|p: PlatformStatus| p@) =~= sorted_names.take(t + 1).map_values(
            |n: Seq<char>| (n, value_for(sv, n), value_for(fv, n)),
        ));
        t = t + 1;
    }
    assert(sorted_names.take(k as int) =~= sorted_names);
    rows
}

/// One row per platform name: what `platform_rows` gives is determined by
/// the speed and fuel readings.
pub proof fn lemma_platform_rows_determined(
    speeds: Seq<(Seq<char>, u64)>,
    fuels: Seq<(Seq<char>, u64)>,
    a: Seq<(Seq<char>, Option<u64>, Option<u64>)>,
    b: Seq<(Seq<char>, Option<u64>, Option<u64>)>,
)
    requires
        platform_rows_from(speeds, fuels, a),
        platform_rows_from(speeds, fuels, b),
    ensures
        a == b,
{
    let row = |n: Seq<char>| (n, value_for(speeds, n), value_for(fuels, n));
    let na = choose|names: Seq<Seq<char>>|
        is_stable_sort_of(platform_names(speeds, fuels), names, text_order()) && a
            == names.map_values(row);
    let nb = choose|names: Seq<Seq<char>>|
        is_stable_sort_of(platform_names(speeds, fuels), names, text_order()) && b
            == names.map_values(row);
    lemma_text_lt_strict_weak_order();
    let dom = |x: Seq<char>| true;
    assert(sort_applies(platform_names(speeds, fuels), dom, text_order()));
    lemma_stable_sort_unique(platform_names(speeds, fuels), na, nb, text_order(), dom);
}

} // verus!
