//! The protocol-level guarantees, each stated over the same spec functions
//! the operations' contracts use.

use vstd::prelude::*;

use crate::db;
use crate::db::{MetricRowV, SymptomRowV};
use crate::metrics::{spec_api_metric_to_domain, spec_merge_metric, UpdateMetricRequestV};
use crate::store::{
    met_has_id, met_index, met_unique, met_upsert, spec_row_since, sym_has_id, sym_index,
    sym_unique, sym_upsert,
};
use crate::symptoms::spec_api_symptom_to_domain;
use crate::all::{spec_push_metrics, spec_push_symptoms};
use crate::metrics;
use crate::symptoms;
use crate::timestamp::{
    rfc3339_canonical, rfc3339_instant, ts_le, Timestamp, RFC_MAX_SECS, RFC_MIN_SECS,
};

verus! {

/// Everything a filter keeps was in the sequence and satisfies the
/// predicate.
proof fn lemma_filter_subset<A>(s: Seq<A>, pred: spec_fn(A) -> bool)
    ensures
        forall|x: A| #[trigger] s.filter(pred).contains(x) ==> s.contains(x) && pred(x),
    decreases s.len(),
{
    reveal(Seq::filter);
    if s.len() > 0 {
        lemma_filter_subset(s.drop_last(), pred);
        assert forall|x: A| #[trigger] s.filter(pred).contains(x) implies s.contains(x) && pred(
            x,
        ) by {
            if pred(s.last()) && x == s.last() {
                assert(s[s.len() - 1] == s.last());
            } else {
                if s.filter(pred) == s.drop_last().filter(pred).push(s.last()) {
                    if x != s.last() {
                        let i = choose|i: int|
                            0 <= i < s.filter(pred).len() && s.filter(pred)[i] == x;
                        assert(s.drop_last().filter(pred)[i] == x);
                        assert(s.drop_last().filter(pred).contains(x));
                    }
                } else {
                    assert(s.drop_last().filter(pred).contains(x));
                }
                if s.drop_last().contains(x) {
                    let j = choose|j: int| 0 <= j < s.drop_last().len() && s.drop_last()[j] == x;
                    assert(s[j] == x);
                }
            }
        }
    }
}

/// Law (pull-cursor monotonicity): of two cursors, the later one pulls a
/// subset of the symptom rows the earlier one pulls.
pub proof fn lemma_pull_cursor_monotone_symptoms(
    rows: Seq<SymptomRowV>,
    t1: Timestamp,
    t2: Timestamp,
)
    requires
        ts_le(t1, t2),
    ensures
        rows.filter(|row: SymptomRowV| spec_row_since(row.published_at, Some(t2))).to_set()
            .subset_of(
            rows.filter(|row: SymptomRowV| spec_row_since(row.published_at, Some(t1))).to_set(),
        ),
{
    let p1 = |row: SymptomRowV| spec_row_since(row.published_at, Some(t1));
    let p2 = |row: SymptomRowV| spec_row_since(row.published_at, Some(t2));
    lemma_filter_subset(rows, p2);
    assert forall|x: SymptomRowV| #[trigger] rows.filter(p2).contains(x) implies rows.filter(
        p1,
    ).contains(x) by {
        assert(rows.contains(x) && p2(x));
        assert(p1(x));
        let i = choose|i: int| 0 <= i < rows.len() && rows[i] == x;
        rows.lemma_filter_contains(p1, i);
    }
}

/// Law (pull-cursor monotonicity): of two cursors, the later one pulls a
/// subset of the metric rows the earlier one pulls.
pub proof fn lemma_pull_cursor_monotone_metrics(rows: Seq<MetricRowV>, t1: Timestamp, t2: Timestamp)
    requires
        ts_le(t1, t2),
    ensures
        rows.filter(|row: MetricRowV| spec_row_since(row.published_at, Some(t2))).to_set()
            .subset_of(
            rows.filter(|row: MetricRowV| spec_row_since(row.published_at, Some(t1))).to_set(),
        ),
{
    let p1 = |row: MetricRowV| spec_row_since(row.published_at, Some(t1));
    let p2 = |row: MetricRowV| spec_row_since(row.published_at, Some(t2));
    lemma_filter_subset(rows, p2);
    assert forall|x: MetricRowV| #[trigger] rows.filter(p2).contains(x) implies rows.filter(
        p1,
    ).contains(x) by {
        assert(rows.contains(x) && p2(x));
        assert(p1(x));
        let i = choose|i: int| 0 <= i < rows.len() && rows[i] == x;
        rows.lemma_filter_contains(p1, i);
    }
}

/// Law (partial update preserves untouched fields): a payload that only
/// supplies `notes` merges into a metric whose `date`, `intensity`,
/// `symptom_id` and `updated_at` are exactly the stored ones.
pub proof fn lemma_update_preserves_untouched(
    before: crate::domain::MetricV,
    payload: UpdateMetricRequestV,
    p: Timestamp,
)
    requires
        payload.symptom_id is None,
        payload.date is None,
        payload.updated_at is None,
        payload.intensity is None,
    ensures
        spec_merge_metric(before, payload, p) matches Ok(m) && {
            &&& m.date == before.date
            &&& m.intensity == before.intensity
            &&& m.symptom_id == before.symptom_id
            &&& m.updated_at == before.updated_at
            &&& m.id == before.id
            &&& m.published_at == p
            &&& (payload.notes matches Some(n) ==> m.notes == n)
            &&& (payload.notes is None ==> m.notes == before.notes)
        },
{
}

/// Law (round-trip): decoding an external symptom and re-encoding it
/// normalizes it in a single pass — decoding and re-encoding that result
/// returns byte-identical output.  The pair holds the first and the second
/// encoding; `None` marks a client stamp that does not decode or whose UTC
/// year has more or fewer than four digits.
pub fn symptom_round_trip(a: &symptoms::Symptom, p: Timestamp) -> (r: Option<
    (symptoms::Symptom, symptoms::Symptom),
>)
    requires
        p.wf(),
    ensures
        match r {
            Some(pair) => {
                &&& spec_api_symptom_to_domain(a@, p) matches Some(d) && pair.0@
                    == symptoms::spec_symptom_to_api(d)
                &&& pair.1@ == pair.0@
            },
            None => !(rfc3339_instant(a@.updated_at) matches Some(i) && RFC_MIN_SECS as int
                <= i.0 <= RFC_MAX_SECS as int),
        },
{
    let d1 = match symptoms::api_symptom_to_domain(a.clone(), p) {
        Ok(d) => d,
        Err(_) => {
            return None;
        },
    };
    if !(d1.updated_at.secs >= RFC_MIN_SECS && d1.updated_at.secs <= RFC_MAX_SECS) {
        return None;
    }
    let a1 = symptoms::Symptom::from_domain(&d1);
    let d2 = match symptoms::api_symptom_to_domain(a1.clone(), p) {
        Ok(d) => d,
        Err(_) => {
            proof {
                assert(false);
            }
            return None;
        },
    };
    proof {
        assert(d2@ == d1@);
    }
    let a2 = symptoms::Symptom::from_domain(&d2);
    Some((a1, a2))
}

/// Law (round-trip): decoding an external metric and re-encoding it
/// normalizes it in a single pass — decoding and re-encoding that result
/// returns byte-identical output.  `None` marks a metric that does not
/// decode or one of whose instants falls outside the four-digit years.
pub fn metric_round_trip(a: &metrics::Metric, p: Timestamp) -> (r: Option<
    (metrics::Metric, metrics::Metric),
>)
    requires
        p.wf(),
    ensures
        match r {
            Some(pair) => {
                &&& spec_api_metric_to_domain(a@, p) matches Some(d) && pair.0@
                    == metrics::spec_metric_to_api(d)
                &&& pair.1@ == pair.0@
            },
            None => true,
        },
        r is None ==> !(spec_api_metric_to_domain(a@, p) matches Some(d)
            && RFC_MIN_SECS <= d.date.secs <= RFC_MAX_SECS && RFC_MIN_SECS <= d.updated_at.secs
            <= RFC_MAX_SECS),
{
    let d1 = match metrics::api_metric_to_domain(a.clone(), p) {
        Ok(d) => d,
        Err(_) => {
            return None;
        },
    };
    if !(d1.date.secs >= RFC_MIN_SECS && d1.date.secs <= RFC_MAX_SECS) {
        return None;
    }
    if !(d1.updated_at.secs >= RFC_MIN_SECS && d1.updated_at.secs <= RFC_MAX_SECS) {
        return None;
    }
    let a1 = metrics::Metric::from_domain(&d1);
    let d2 = match metrics::api_metric_to_domain(a1.clone(), p) {
        Ok(d) => d,
        Err(_) => {
            proof {
                assert(false);
            }
            return None;
        },
    };
    proof {
        assert(d2@ == d1@);
    }
    let a2 = metrics::Metric::from_domain(&d2);
    Some((a1, a2))
}

/// An upsert holds the new row under its id, keeps ids unique, and leaves
/// the row under any other id as it was.
proof fn lemma_sym_upsert_frame(rows: Seq<SymptomRowV>, new: SymptomRowV, id: Seq<char>)
    requires
        sym_unique(rows),
    ensures
        sym_unique(sym_upsert(rows, new)),
        sym_has_id(sym_upsert(rows, new), new.id),
        sym_upsert(rows, new)[sym_index(sym_upsert(rows, new), new.id)] == new,
        id != new.id ==> sym_has_id(sym_upsert(rows, new), id) == sym_has_id(rows, id),
        id != new.id && sym_has_id(rows, id) ==> sym_upsert(rows, new)[sym_index(
            sym_upsert(rows, new),
            id,
        )] == rows[sym_index(rows, id)],
{
    let up = sym_upsert(rows, new);
    if sym_has_id(rows, new.id) {
        assert(up.len() == rows.len());
        assert(forall|i: int|
            0 <= i < rows.len() ==> #[trigger] up[i] == if rows[i].id == new.id {
                new
            } else {
                rows[i]
            });
        assert(forall|i: int| 0 <= i < rows.len() ==> #[trigger] up[i].id == rows[i].id);
        let w = choose|w: int| 0 <= w < rows.len() && rows[w].id == new.id;
        assert(up[w].id == new.id);
        let k = sym_index(up, new.id);
        assert(0 <= k < up.len() && up[k].id == new.id);
        assert(rows[k].id == new.id);
        assert(up[k] == new);
        if id != new.id && sym_has_id(rows, id) {
            let j = sym_index(rows, id);
            assert(0 <= j < rows.len() && rows[j].id == id);
            assert(up[j].id == id);
            let j2 = sym_index(up, id);
            assert(0 <= j2 < up.len() && up[j2].id == id);
            assert(rows[j2].id == id);
            assert(j2 == j);
            assert(up[j2] == rows[j]);
        }
        if id != new.id && sym_has_id(up, id) {
            let j2 = sym_index(up, id);
            assert(rows[j2].id == id);
        }
    } else {
        assert(up == rows.push(new));
        assert(up[rows.len() as int] == new);
        let k = sym_index(up, new.id);
        assert(0 <= k < up.len() && up[k].id == new.id);
        if k < rows.len() {
            assert(rows[k] == up[k]);
        }
        assert(up[k] == new);
        if id != new.id {
            if sym_has_id(rows, id) {
                let j = sym_index(rows, id);
                assert(up[j] == rows[j]);
                assert(sym_has_id(up, id));
                let j2 = sym_index(up, id);
                assert(0 <= j2 < up.len() && up[j2].id == id);
                assert(j2 < rows.len());
                assert(rows[j2].id == id);
                assert(j2 == j);
            }
            if sym_has_id(up, id) {
                let j2 = sym_index(up, id);
                assert(j2 < rows.len());
                assert(rows[j2].id == id);
            }
        }
    }
}

/// An upsert holds the new metric row under its id, keeps ids unique, and
/// leaves the row under any other id as it was.
proof fn lemma_met_upsert_frame(rows: Seq<MetricRowV>, new: MetricRowV, id: Seq<char>)
    requires
        met_unique(rows),
    ensures
        met_unique(met_upsert(rows, new)),
        met_has_id(met_upsert(rows, new), new.id),
        met_upsert(rows, new)[met_index(met_upsert(rows, new), new.id)] == new,
        id != new.id ==> met_has_id(met_upsert(rows, new), id) == met_has_id(rows, id),
        id != new.id && met_has_id(rows, id) ==> met_upsert(rows, new)[met_index(
            met_upsert(rows, new),
            id,
        )] == rows[met_index(rows, id)],
{
    let up = met_upsert(rows, new);
    if met_has_id(rows, new.id) {
        assert(up.len() == rows.len());
        assert(forall|i: int|
            0 <= i < rows.len() ==> #[trigger] up[i] == if rows[i].id == new.id {
                new
            } else {
                rows[i]
            });
        assert(forall|i: int| 0 <= i < rows.len() ==> #[trigger] up[i].id == rows[i].id);
        let w = choose|w: int| 0 <= w < rows.len() && rows[w].id == new.id;
        assert(up[w].id == new.id);
        let k = met_index(up, new.id);
        assert(0 <= k < up.len() && up[k].id == new.id);
        assert(rows[k].id == new.id);
        assert(up[k] == new);
        if id != new.id && met_has_id(rows, id) {
            let j = met_index(rows, id);
            assert(0 <= j < rows.len() && rows[j].id == id);
            assert(up[j].id == id);
            let j2 = met_index(up, id);
            assert(0 <= j2 < up.len() && up[j2].id == id);
            assert(rows[j2].id == id);
            assert(j2 == j);
            assert(up[j2] == rows[j]);
        }
        if id != new.id && met_has_id(up, id) {
            let j2 = met_index(up, id);
            assert(rows[j2].id == id);
        }
    } else {
        assert(up == rows.push(new));
        assert(up[rows.len() as int] == new);
        let k = met_index(up, new.id);
        assert(0 <= k < up.len() && up[k].id == new.id);
        if k < rows.len() {
            assert(rows[k] == up[k]);
        }
        assert(up[k] == new);
        if id != new.id {
            if met_has_id(rows, id) {
                let j = met_index(rows, id);
                assert(up[j] == rows[j]);
                assert(met_has_id(up, id));
                let j2 = met_index(up, id);
                assert(0 <= j2 < up.len() && up[j2].id == id);
                assert(j2 < rows.len());
                assert(rows[j2].id == id);
                assert(j2 == j);
            }
            if met_has_id(up, id) {
                let j2 = met_index(up, id);
                assert(j2 < rows.len());
                assert(rows[j2].id == id);
            }
        }
    }
}

/// After a push, ids stay unique and every item that converted sits in the
/// table under its id, stamped with the push's shared `published_at`.
pub proof fn lemma_push_symptoms_stamps(
    rows: Seq<SymptomRowV>,
    items: Seq<crate::symptoms::ApiSymptomV>,
    p: Timestamp,
)
    requires
        sym_unique(rows),
    ensures
        ({
            let r = spec_push_symptoms(rows, items, p);
            &&& sym_unique(r.0)
            &&& forall|j: int|
                0 <= j < items.len() && spec_api_symptom_to_domain(#[trigger] items[j], p)
                    is Some ==> sym_has_id(r.0, items[j].id) && r.0[sym_index(
                    r.0,
                    items[j].id,
                )].published_at == rfc3339_canonical(p.secs as int, p.nanos as int)
        }),
    decreases items.len(),
{
    if items.len() == 0 {
    } else {
        lemma_push_symptoms_stamps(rows, items.drop_last(), p);
        let prev = spec_push_symptoms(rows, items.drop_last(), p);
        let r = spec_push_symptoms(rows, items, p);
        let a = items.last();
        assert(forall|j: int| 0 <= j < items.len() - 1 ==> items.drop_last()[j] == items[j]);
        match spec_api_symptom_to_domain(a, p) {
            None => {
                assert(r.0 == prev.0);
            },
            Some(d) => {
                let row = db::spec_row_of_symptom(d);
                assert(row.id == a.id);
                assert(row.published_at == rfc3339_canonical(p.secs as int, p.nanos as int));
                assert(r.0 == sym_upsert(prev.0, row));
                lemma_sym_upsert_frame(prev.0, row, row.id);
                assert forall|j: int|
                    0 <= j < items.len() && spec_api_symptom_to_domain(
                        #[trigger] items[j],
                        p,
                    ) is Some implies sym_has_id(r.0, items[j].id) && r.0[sym_index(
                    r.0,
                    items[j].id,
                )].published_at == rfc3339_canonical(p.secs as int, p.nanos as int) by {
                    lemma_sym_upsert_frame(prev.0, row, items[j].id);
                    if j < items.len() - 1 && items[j].id != row.id {
                        assert(sym_has_id(prev.0, items[j].id));
                    }
                }
            },
        }
    }
}

/// After a push, ids stay unique and every metric that converted sits in
/// the table under its id, stamped with the push's shared `published_at`.
pub proof fn lemma_push_metrics_stamps(
    rows: Seq<MetricRowV>,
    items: Seq<crate::metrics::ApiMetricV>,
    p: Timestamp,
)
    requires
        met_unique(rows),
    ensures
        ({
            let r = spec_push_metrics(rows, items, p);
            &&& met_unique(r.0)
            &&& forall|j: int|
                0 <= j < items.len() && spec_api_metric_to_domain(#[trigger] items[j], p)
                    is Some ==> met_has_id(r.0, items[j].id) && r.0[met_index(
                    r.0,
                    items[j].id,
                )].published_at == rfc3339_canonical(p.secs as int, p.nanos as int)
        }),
    decreases items.len(),
{
    if items.len() == 0 {
    } else {
        lemma_push_metrics_stamps(rows, items.drop_last(), p);
        let prev = spec_push_metrics(rows, items.drop_last(), p);
        let r = spec_push_metrics(rows, items, p);
        let a = items.last();
        assert(forall|j: int| 0 <= j < items.len() - 1 ==> items.drop_last()[j] == items[j]);
        match spec_api_metric_to_domain(a, p) {
            None => {
                assert(r.0 == prev.0);
            },
            Some(d) => {
                let row = db::spec_row_of_metric(d);
                assert(row.id == a.id);
                assert(row.published_at == rfc3339_canonical(p.secs as int, p.nanos as int));
                assert(r.0 == met_upsert(prev.0, row));
                lemma_met_upsert_frame(prev.0, row, row.id);
                assert forall|j: int|
                    0 <= j < items.len() && spec_api_metric_to_domain(
                        #[trigger] items[j],
                        p,
                    ) is Some implies met_has_id(r.0, items[j].id) && r.0[met_index(
                    r.0,
                    items[j].id,
                )].published_at == rfc3339_canonical(p.secs as int, p.nanos as int) by {
                    lemma_met_upsert_frame(prev.0, row, items[j].id);
                    if j < items.len() - 1 && items[j].id != row.id {
                        assert(met_has_id(prev.0, items[j].id));
                    }
                }
            },
        }
    }
}

/// Which ids a push reports, and in which order, depends only on the
/// items themselves: neither the table pushed onto nor the shared stamp
/// changes the report.
pub proof fn lemma_push_symptoms_reports(
    rows1: Seq<SymptomRowV>,
    rows2: Seq<SymptomRowV>,
    items: Seq<crate::symptoms::ApiSymptomV>,
    p1: Timestamp,
    p2: Timestamp,
)
    ensures
        spec_push_symptoms(rows1, items, p1).1 == spec_push_symptoms(rows2, items, p2).1,
        spec_push_symptoms(rows1, items, p1).2 == spec_push_symptoms(rows2, items, p2).2,
    decreases items.len(),
{
    if items.len() > 0 {
        lemma_push_symptoms_reports(rows1, rows2, items.drop_last(), p1, p2);
    }
}

/// Which metric ids a push reports depends only on the items themselves.
pub proof fn lemma_push_metrics_reports(
    rows1: Seq<MetricRowV>,
    rows2: Seq<MetricRowV>,
    items: Seq<crate::metrics::ApiMetricV>,
    p1: Timestamp,
    p2: Timestamp,
)
    ensures
        spec_push_metrics(rows1, items, p1).1 == spec_push_metrics(rows2, items, p2).1,
        spec_push_metrics(rows1, items, p1).2 == spec_push_metrics(rows2, items, p2).2,
    decreases items.len(),
{
    if items.len() > 0 {
        lemma_push_metrics_reports(rows1, rows2, items.drop_last(), p1, p2);
    }
}

/// Law (push reporting): a push reports the ids of exactly the items that
/// converted as successful and of exactly those that did not as failed,
/// each kept in encounter order — so every input id appears in exactly
/// one of the two lists.
pub proof fn lemma_push_symptoms_partition(
    rows: Seq<SymptomRowV>,
    items: Seq<crate::symptoms::ApiSymptomV>,
    p: Timestamp,
)
    ensures
        spec_push_symptoms(rows, items, p).1 == items.filter(
            |a: crate::symptoms::ApiSymptomV| spec_api_symptom_to_domain(a, p) is Some,
        ).map_values(|a: crate::symptoms::ApiSymptomV| a.id),
        spec_push_symptoms(rows, items, p).2 == items.filter(
            |a: crate::symptoms::ApiSymptomV| spec_api_symptom_to_domain(a, p) is None,
        ).map_values(|a: crate::symptoms::ApiSymptomV| a.id),
    decreases items.len(),
{
    reveal(Seq::filter);
    let ok = |a: crate::symptoms::ApiSymptomV| spec_api_symptom_to_domain(a, p) is Some;
    let bad = |a: crate::symptoms::ApiSymptomV| spec_api_symptom_to_domain(a, p) is None;
    let id_of = |a: crate::symptoms::ApiSymptomV| a.id;
    if items.len() == 0 {
        assert(items.filter(ok).map_values(id_of) =~= Seq::<Seq<char>>::empty());
        assert(items.filter(bad).map_values(id_of) =~= Seq::<Seq<char>>::empty());
    } else {
        lemma_push_symptoms_partition(rows, items.drop_last(), p);
        let a = items.last();
        if ok(a) {
            assert(items.filter(ok) == items.drop_last().filter(ok).push(a));
            assert(items.filter(ok).map_values(id_of) =~= items.drop_last().filter(
                ok,
            ).map_values(id_of).push(a.id));
            assert(items.filter(bad) == items.drop_last().filter(bad));
        } else {
            assert(items.filter(bad) == items.drop_last().filter(bad).push(a));
            assert(items.filter(bad).map_values(id_of) =~= items.drop_last().filter(
                bad,
            ).map_values(id_of).push(a.id));
            assert(items.filter(ok) == items.drop_last().filter(ok));
        }
    }
}

/// Law (push reporting): a push reports the ids of exactly the metric
/// items that converted as successful and of exactly those that did not
/// as failed, each kept in encounter order.
pub proof fn lemma_push_metrics_partition(
    rows: Seq<MetricRowV>,
    items: Seq<crate::metrics::ApiMetricV>,
    p: Timestamp,
)
    ensures
        spec_push_metrics(rows, items, p).1 == items.filter(
            |a: crate::metrics::ApiMetricV| spec_api_metric_to_domain(a, p) is Some,
        ).map_values(|a: crate::metrics::ApiMetricV| a.id),
        spec_push_metrics(rows, items, p).2 == items.filter(
            |a: crate::metrics::ApiMetricV| spec_api_metric_to_domain(a, p) is None,
        ).map_values(|a: crate::metrics::ApiMetricV| a.id),
    decreases items.len(),
{
    reveal(Seq::filter);
    let ok = |a: crate::metrics::ApiMetricV| spec_api_metric_to_domain(a, p) is Some;
    let bad = |a: crate::metrics::ApiMetricV| spec_api_metric_to_domain(a, p) is None;
    let id_of = |a: crate::metrics::ApiMetricV| a.id;
    if items.len() == 0 {
        assert(items.filter(ok).map_values(id_of) =~= Seq::<Seq<char>>::empty());
        assert(items.filter(bad).map_values(id_of) =~= Seq::<Seq<char>>::empty());
    } else {
        lemma_push_metrics_partition(rows, items.drop_last(), p);
        let a = items.last();
        if ok(a) {
            assert(items.filter(ok) == items.drop_last().filter(ok).push(a));
            assert(items.filter(ok).map_values(id_of) =~= items.drop_last().filter(
                ok,
            ).map_values(id_of).push(a.id));
            assert(items.filter(bad) == items.drop_last().filter(bad));
        } else {
            assert(items.filter(bad) == items.drop_last().filter(bad).push(a));
            assert(items.filter(bad).map_values(id_of) =~= items.drop_last().filter(
                bad,
            ).map_values(id_of).push(a.id));
            assert(items.filter(ok) == items.drop_last().filter(ok));
        }
    }
}

/// Law (push idempotence): pushing the same symptom batch twice reports
/// the same successful and failed ids both times, and after the second
/// push every converted item's stored row carries the second push's stamp
/// — an overwrite, not a merge.
pub proof fn lemma_push_idempotent_symptoms(
    rows: Seq<SymptomRowV>,
    items: Seq<crate::symptoms::ApiSymptomV>,
    p1: Timestamp,
    p2: Timestamp,
)
    requires
        sym_unique(rows),
    ensures
        ({
            let first = spec_push_symptoms(rows, items, p1);
            let second = spec_push_symptoms(first.0, items, p2);
            &&& second.1 == first.1
            &&& second.2 == first.2
            &&& forall|j: int|
                0 <= j < items.len() && spec_api_symptom_to_domain(#[trigger] items[j], p2)
                    is Some ==> sym_has_id(second.0, items[j].id) && second.0[sym_index(
                    second.0,
                    items[j].id,
                )].published_at == rfc3339_canonical(p2.secs as int, p2.nanos as int)
        }),
{
    let first = spec_push_symptoms(rows, items, p1);
    lemma_push_symptoms_stamps(rows, items, p1);
    lemma_push_symptoms_stamps(first.0, items, p2);
    lemma_push_symptoms_reports(rows, first.0, items, p1, p2);
}

/// Law (push idempotence): pushing the same metric batch twice reports
/// the same successful and failed ids both times, and after the second
/// push every converted item's stored row carries the second push's stamp
/// — an overwrite, not a merge.
pub proof fn lemma_push_idempotent_metrics(
    rows: Seq<MetricRowV>,
    items: Seq<crate::metrics::ApiMetricV>,
    p1: Timestamp,
    p2: Timestamp,
)
    requires
        met_unique(rows),
    ensures
        ({
            let first = spec_push_metrics(rows, items, p1);
            let second = spec_push_metrics(first.0, items, p2);
            &&& second.1 == first.1
            &&& second.2 == first.2
            &&& forall|j: int|
                0 <= j < items.len() && spec_api_metric_to_domain(#[trigger] items[j], p2)
                    is Some ==> met_has_id(second.0, items[j].id) && second.0[met_index(
                    second.0,
                    items[j].id,
                )].published_at == rfc3339_canonical(p2.secs as int, p2.nanos as int)
        }),
{
    let first = spec_push_metrics(rows, items, p1);
    lemma_push_metrics_stamps(rows, items, p1);
    lemma_push_metrics_stamps(first.0, items, p2);
    lemma_push_metrics_reports(rows, first.0, items, p1, p2);
}

} // verus!
