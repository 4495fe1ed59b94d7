//! The bulk sync protocol: cursor-based pull and batch push.
//!
//! Pull is all-or-nothing: one stored row that no longer decodes fails the
//! whole request.  Push is per-item: a shared server stamp is chosen for
//! the batch, every item is converted and upserted independently, and each
//! input id is reported as successful or failed in encounter order.

use vstd::prelude::*;

use crate::db;
use crate::db::{MetricRowV, SymptomRowV, SEE_LOGS};
use crate::errors::ApiError;
use crate::metrics;
use crate::metrics::{spec_api_metric_to_domain, spec_rows_to_api_met, ApiMetricV};
use crate::store::{met_upsert, spec_row_since, sym_upsert, Store};
use crate::symptoms;
use crate::symptoms::{spec_api_symptom_to_domain, spec_rows_to_api_sym, ApiSymptomV};
use crate::timestamp::{parse_rfc3339, rfc3339_instant, Timestamp};

verus! {

/// Everything a pull returns: both collections as one atomic response.
#[derive(Debug)]
pub struct ReadAllResponseBody {
    pub symptoms: Vec<symptoms::Symptom>,
    pub metrics: Vec<metrics::Metric>,
}

/// Everything a push takes: both collections of client-stamped items.
#[derive(Debug)]
pub struct PushAll {
    pub symptoms: Vec<symptoms::Symptom>,
    pub metrics: Vec<metrics::Metric>,
}

/// The mathematical value of a push payload.
pub ghost struct PushAllV {
    pub symptoms: Seq<ApiSymptomV>,
    pub metrics: Seq<ApiMetricV>,
}

impl View for PushAll {
    type V = PushAllV;

    open spec fn view(&self) -> PushAllV {
        PushAllV { symptoms: self.symptoms.deep_view(), metrics: self.metrics.deep_view() }
    }
}

/// Per-kind outcome of a push: which symptom ids were taken, which failed.
#[derive(Debug)]
pub struct PushAllSymptomsResponseBody {
    pub successful: Vec<String>,
    pub failed: Vec<String>,
}

/// Per-kind outcome of a push: which metric ids were taken, which failed.
#[derive(Debug)]
pub struct PushAllMetricsResponseBody {
    pub successful: Vec<String>,
    pub failed: Vec<String>,
}

/// The whole outcome of a push.
#[derive(Debug)]
pub struct PushAllResponseBody {
    pub symptoms: PushAllSymptomsResponseBody,
    pub metrics: PushAllMetricsResponseBody,
}

// ---------------------------------------------------------------------------
// Pull
// ---------------------------------------------------------------------------

/// Pulls every row published strictly after the cursor, both kinds
/// decoded for the wire as one atomic response; any row that no longer
/// decodes fails the whole request.
pub fn read_all_since(store: &Store, published_since: Option<Timestamp>) -> (r: Result<
    ReadAllResponseBody,
    ApiError,
>)
    ensures
        ({
            let srows = store@.symptoms.filter(
                |row: SymptomRowV| spec_row_since(row.published_at, published_since),
            );
            let mrows = store@.metrics.filter(
                |row: MetricRowV| spec_row_since(row.published_at, published_since),
            );
            match (spec_rows_to_api_sym(srows), spec_rows_to_api_met(mrows)) {
                (Some(ss), Some(ms)) => r matches Ok(b) && b.symptoms.deep_view() == ss
                    && b.metrics.deep_view() == ms,
                _ => r matches Err(ApiError::StoreError(m)) && m@ == SEE_LOGS@,
            }
        }),
{
    let symptom_rows = match store.get_symptoms(published_since) {
        Ok(rows) => rows,
        Err(_) => {
            return Err(ApiError::StoreError(SEE_LOGS.to_owned()));
        },
    };
    let symptoms = match symptoms::rows_to_api_symptoms(&symptom_rows) {
        Some(list) => list,
        None => {
            return Err(ApiError::StoreError(SEE_LOGS.to_owned()));
        },
    };
    let metric_rows = match store.get_metrics(published_since) {
        Ok(rows) => rows,
        Err(_) => {
            return Err(ApiError::StoreError(SEE_LOGS.to_owned()));
        },
    };
    let metrics = match metrics::rows_to_api_metrics(&metric_rows) {
        Some(list) => list,
        None => {
            return Err(ApiError::StoreError(SEE_LOGS.to_owned()));
        },
    };
    Ok(ReadAllResponseBody { symptoms, metrics })
}

/// Pulls everything published strictly after an optional RFC 3339 cursor
/// string; an unparsable cursor fails the whole request with no partial
/// results.
pub fn read_all(store: &Store, published_since: &Option<String>) -> (r: Result<
    ReadAllResponseBody,
    ApiError,
>)
    ensures
        match published_since.deep_view() {
            Some(raw) => match rfc3339_instant(raw) {
                None => r matches Err(ApiError::ValidationError(m)) && m@
                    == "'updated_at' must be a valid date (RFC3339)"@,
                Some(_) => true,
            },
            None => true,
        },
        ({
            let cursor = match published_since.deep_view() {
                Some(raw) => match rfc3339_instant(raw) {
                    None => None::<Timestamp>,
                    Some(i) => Some(Timestamp { secs: i.0 as i64, nanos: i.1 as u32 }),
                },
                None => None::<Timestamp>,
            };
            (published_since.deep_view() matches Some(raw) && rfc3339_instant(raw) is None)
                || ({
                let srows = store@.symptoms.filter(
                    |row: SymptomRowV| spec_row_since(row.published_at, cursor),
                );
                let mrows = store@.metrics.filter(
                    |row: MetricRowV| spec_row_since(row.published_at, cursor),
                );
                match (spec_rows_to_api_sym(srows), spec_rows_to_api_met(mrows)) {
                    (Some(ss), Some(ms)) => r matches Ok(b) && b.symptoms.deep_view() == ss
                        && b.metrics.deep_view() == ms,
                    _ => r matches Err(ApiError::StoreError(m)) && m@ == SEE_LOGS@,
                }
            })
        }),
{
    let cursor: Option<Timestamp> = match published_since {
        Some(raw) => match parse_rfc3339(raw.as_str()) {
            Some(t) => Some(t),
            None => {
                return Err(
                    ApiError::ValidationError(
                        "'updated_at' must be a valid date (RFC3339)".to_owned(),
                    ),
                );
            },
        },
        None => None,
    };
    read_all_since(store, cursor)
}

// ---------------------------------------------------------------------------
// Push
// ---------------------------------------------------------------------------

/// What pushing a batch of symptoms does to the table, processed in
/// order: each item converts under the shared stamp and is upserted, or
/// its id is recorded as failed; the table and the two id lists result.
pub open spec fn spec_push_symptoms(
    rows: Seq<SymptomRowV>,
    items: Seq<ApiSymptomV>,
    p: Timestamp,
) -> (Seq<SymptomRowV>, Seq<Seq<char>>, Seq<Seq<char>>)
    decreases items.len(),
{
    if items.len() == 0 {
        (rows, Seq::empty(), Seq::empty())
    } else {
        let prev = spec_push_symptoms(rows, items.drop_last(), p);
        let a = items.last();
        match spec_api_symptom_to_domain(a, p) {
            None => (prev.0, prev.1, prev.2.push(a.id)),
            Some(d) => (sym_upsert(prev.0, db::spec_row_of_symptom(d)), prev.1.push(a.id), prev.2),
        }
    }
}

/// What pushing a batch of metrics does to the table.
pub open spec fn spec_push_metrics(
    rows: Seq<MetricRowV>,
    items: Seq<ApiMetricV>,
    p: Timestamp,
) -> (Seq<MetricRowV>, Seq<Seq<char>>, Seq<Seq<char>>)
    decreases items.len(),
{
    if items.len() == 0 {
        (rows, Seq::empty(), Seq::empty())
    } else {
        let prev = spec_push_metrics(rows, items.drop_last(), p);
        let a = items.last();
        match spec_api_metric_to_domain(a, p) {
            None => (prev.0, prev.1, prev.2.push(a.id)),
            Some(d) => (met_upsert(prev.0, db::spec_row_of_metric(d)), prev.1.push(a.id), prev.2),
        }
    }
}

/// Pushes a batch under an explicitly supplied shared server stamp:
/// symptoms first, then metrics, each item independently converted and
/// upserted, every id reported exactly once in encounter order.
pub fn push_all_at(store: &mut Store, payload: &PushAll, published_at: Timestamp) -> (r:
    PushAllResponseBody)
    requires
        old(store).wf(),
        published_at.wf(),
    ensures
        final(store).wf(),
        ({
            let s = spec_push_symptoms(old(store)@.symptoms, payload@.symptoms, published_at);
            &&& final(store)@.symptoms == s.0
            &&& r.symptoms.successful.deep_view() == s.1
            &&& r.symptoms.failed.deep_view() == s.2
        }),
        ({
            let m = spec_push_metrics(old(store)@.metrics, payload@.metrics, published_at);
            &&& final(store)@.metrics == m.0
            &&& r.metrics.successful.deep_view() == m.1
            &&& r.metrics.failed.deep_view() == m.2
        }),
{
    let ghost sym_rows0 = store@.symptoms;
    let ghost met_rows0 = store@.metrics;
    let mut successful_symptoms: Vec<String> = Vec::new();
    let mut failed_symptoms: Vec<String> = Vec::new();
    let mut i: usize = 0;
    proof {
        assert(payload@.symptoms.subrange(0, 0) =~= Seq::<ApiSymptomV>::empty());
    }
    while i < payload.symptoms.len()
        invariant
            i <= payload.symptoms.len(),
            store.wf(),
            published_at.wf(),
            store@.metrics == met_rows0,
            ({
                let s = spec_push_symptoms(
                    sym_rows0,
                    payload@.symptoms.subrange(0, i as int),
                    published_at,
                );
                &&& store@.symptoms == s.0
                &&& successful_symptoms.deep_view() == s.1
                &&& failed_symptoms.deep_view() == s.2
            }),
        decreases payload.symptoms.len() - i,
    {
        let ghost prefix = payload@.symptoms.subrange(0, i as int);
        let ghost prefix1 = payload@.symptoms.subrange(0, i as int + 1);
        proof {
            assert(prefix1.drop_last() =~= prefix);
            assert(prefix1.last() == payload@.symptoms[i as int]);
        }
        let item = payload.symptoms[i].clone();
        let id = item.id.clone();
        match symptoms::api_symptom_to_domain(item, published_at) {
            Ok(d) => {
                let row = db::Symptom::from_domain(&d);
                let ghost succ_before = successful_symptoms.deep_view();
                let _ = store.upsert_symptom(row);
                successful_symptoms.push(id);
                proof {
                    assert(successful_symptoms.deep_view() =~= succ_before.push(
                        payload@.symptoms[i as int].id,
                    ));
                }
            },
            Err(_) => {
                let ghost fail_before = failed_symptoms.deep_view();
                failed_symptoms.push(id);
                proof {
                    assert(failed_symptoms.deep_view() =~= fail_before.push(
                        payload@.symptoms[i as int].id,
                    ));
                }
            },
        }
        i = i + 1;
    }
    proof {
        assert(payload@.symptoms.subrange(0, payload.symptoms.len() as int) =~= payload@.symptoms);
    }
    let mut successful_metrics: Vec<String> = Vec::new();
    let mut failed_metrics: Vec<String> = Vec::new();
    let mut k: usize = 0;
    proof {
        assert(payload@.metrics.subrange(0, 0) =~= Seq::<ApiMetricV>::empty());
    }
    while k < payload.metrics.len()
        invariant
            k <= payload.metrics.len(),
            store.wf(),
            published_at.wf(),
            store@.symptoms == spec_push_symptoms(sym_rows0, payload@.symptoms, published_at).0,
            ({
                let m = spec_push_metrics(
                    met_rows0,
                    payload@.metrics.subrange(0, k as int),
                    published_at,
                );
                &&& store@.metrics == m.0
                &&& successful_metrics.deep_view() == m.1
                &&& failed_metrics.deep_view() == m.2
            }),
        decreases payload.metrics.len() - k,
    {
        let ghost prefix = payload@.metrics.subrange(0, k as int);
        let ghost prefix1 = payload@.metrics.subrange(0, k as int + 1);
        proof {
            assert(prefix1.drop_last() =~= prefix);
            assert(prefix1.last() == payload@.metrics[k as int]);
        }
        let item = payload.metrics[k].clone();
        let id = item.id.clone();
        match metrics::api_metric_to_domain(item, published_at) {
            Ok(d) => {
                let row = db::Metric::from_domain(&d);
                let ghost succ_before = successful_metrics.deep_view();
                let _ = store.upsert_metric(row);
                successful_metrics.push(id);
                proof {
                    assert(successful_metrics.deep_view() =~= succ_before.push(
                        payload@.metrics[k as int].id,
                    ));
                }
            },
            Err(_) => {
                let ghost fail_before = failed_metrics.deep_view();
                failed_metrics.push(id);
                proof {
                    assert(failed_metrics.deep_view() =~= fail_before.push(
                        payload@.metrics[k as int].id,
                    ));
                }
            },
        }
        k = k + 1;
    }
    proof {
        assert(payload@.metrics.subrange(0, payload.metrics.len() as int) =~= payload@.metrics);
    }
    PushAllResponseBody {
        symptoms: PushAllSymptomsResponseBody {
            successful: successful_symptoms,
            failed: failed_symptoms,
        },
        metrics: PushAllMetricsResponseBody {
            successful: successful_metrics,
            failed: failed_metrics,
        },
    }
}

/// Pushes a batch now: one current instant is chosen as the shared
/// `published_at` for the whole batch, then every item is processed
/// independently under it.
pub fn push_all(store: &mut Store, payload: &PushAll) -> (r: PushAllResponseBody)
    requires
        old(store).wf(),
    ensures
        final(store).wf(),
        exists|p: Timestamp|
            {
                &&& #[trigger] p.wf()
                &&& {
                    let s = spec_push_symptoms(old(store)@.symptoms, payload@.symptoms, p);
                    &&& final(store)@.symptoms == s.0
                    &&& r.symptoms.successful.deep_view() == s.1
                    &&& r.symptoms.failed.deep_view() == s.2
                }
                &&& {
                    let m = spec_push_metrics(old(store)@.metrics, payload@.metrics, p);
                    &&& final(store)@.metrics == m.0
                    &&& r.metrics.successful.deep_view() == m.1
                    &&& r.metrics.failed.deep_view() == m.2
                }
            },
{
    let published_at = crate::timestamp::now();
    let r = push_all_at(store, payload, published_at);
    proof {
        assert(published_at.wf());
    }
    r
}

} // verus!
