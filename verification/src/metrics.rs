//! Boundary operations on metrics: the external representation and the
//! create / read-all / partial-update / delete operations over the store.

use vstd::prelude::*;

use crate::db;
use crate::db::{MetricRowV, SEE_LOGS};
use crate::domain;
use crate::errors::ApiError;
use crate::store::{met_has_id, met_index, met_replace, Store};
use crate::timestamp::{parse_rfc3339, rfc3339_canonical, rfc3339_instant, Timestamp};

verus! {

/// A metric as it travels over the wire: both instants and the intensity
/// as strings, no `published_at` (the server owns that stamp).
#[derive(Debug)]
pub struct Metric {
    pub id: String,
    pub symptom_id: String,
    pub date: String,
    pub updated_at: String,
    pub intensity: String,
    pub notes: String,
}

/// The mathematical value of an external metric.
pub ghost struct ApiMetricV {
    pub id: Seq<char>,
    pub symptom_id: Seq<char>,
    pub date: Seq<char>,
    pub updated_at: Seq<char>,
    pub intensity: Seq<char>,
    pub notes: Seq<char>,
}

impl View for Metric {
    type V = ApiMetricV;

    open spec fn view(&self) -> ApiMetricV {
        ApiMetricV {
            id: self.id@,
            symptom_id: self.symptom_id@,
            date: self.date@,
            updated_at: self.updated_at@,
            intensity: self.intensity@,
            notes: self.notes@,
        }
    }
}

impl DeepView for Metric {
    type V = ApiMetricV;

    open spec fn deep_view(&self) -> ApiMetricV {
        self.view()
    }
}

impl Clone for Metric {
    fn clone(&self) -> (r: Self)
        ensures
            r@ == self@,
    {
        Metric {
            id: self.id.clone(),
            symptom_id: self.symptom_id.clone(),
            date: self.date.clone(),
            updated_at: self.updated_at.clone(),
            intensity: self.intensity.clone(),
            notes: self.notes.clone(),
        }
    }
}

/// The external form of a metric: instants rendered canonically, the
/// intensity as its token.
pub open spec fn spec_metric_to_api(d: domain::MetricV) -> ApiMetricV {
    ApiMetricV {
        id: d.id,
        symptom_id: d.symptom_id,
        date: rfc3339_canonical(d.date.secs as int, d.date.nanos as int),
        updated_at: rfc3339_canonical(d.updated_at.secs as int, d.updated_at.nanos as int),
        intensity: domain::spec_intensity_str(d.intensity),
        notes: d.notes,
    }
}

/// The metric an external representation decodes to under a given server
/// stamp, or `None` when a date-time or the intensity is malformed.
pub open spec fn spec_api_metric_to_domain(a: ApiMetricV, p: Timestamp) -> Option<
    domain::MetricV,
> {
    match (rfc3339_instant(a.date), rfc3339_instant(a.updated_at), domain::spec_intensity_of(
        a.intensity,
    )) {
        (Some(d), Some(u), Some(i)) => Some(
            domain::MetricV {
                id: a.id,
                published_at: p,
                symptom_id: a.symptom_id,
                date: Timestamp { secs: d.0 as i64, nanos: d.1 as u32 },
                updated_at: Timestamp { secs: u.0 as i64, nanos: u.1 as u32 },
                intensity: i,
                notes: a.notes,
            },
        ),
        _ => None,
    }
}

impl Metric {
    /// Encodes a metric for the wire.
    pub fn from_domain(d: &domain::Metric) -> (r: Metric)
        requires
            d.date.wf(),
            d.updated_at.wf(),
        ensures
            r@ == spec_metric_to_api(d@),
            d.updated_at.round_trips() ==> rfc3339_instant(r@.updated_at) == Some(
                (d.updated_at.secs as int, d.updated_at.nanos as int),
            ),
            d.date.round_trips() ==> rfc3339_instant(r@.date) == Some(
                (d.date.secs as int, d.date.nanos as int),
            ),
    {
        Metric {
            id: d.id.clone(),
            symptom_id: d.symptom_id.clone(),
            date: crate::timestamp::format_rfc3339(&d.date),
            updated_at: crate::timestamp::format_rfc3339(&d.updated_at),
            intensity: d.intensity.as_str().to_owned(),
            notes: d.notes.clone(),
        }
    }
}

/// Decodes an external metric under the given server stamp, rejecting a
/// malformed date-time or intensity.
pub fn api_metric_to_domain(api_metric: Metric, published_at: Timestamp) -> (r: Result<
    domain::Metric,
    String,
>)
    ensures
        match r {
            Ok(d) => {
                &&& spec_api_metric_to_domain(api_metric@, published_at) == Some(d@)
                &&& d.date.wf()
                &&& d.updated_at.wf()
                &&& d.published_at == published_at
            },
            Err(_) => spec_api_metric_to_domain(api_metric@, published_at) is None,
        },
{
    let date: Timestamp = match parse_rfc3339(api_metric.date.as_str()) {
        Some(t) => t,
        None => {
            return Err("invalid date".to_owned());
        },
    };
    let updated_at: Timestamp = match parse_rfc3339(api_metric.updated_at.as_str()) {
        Some(t) => t,
        None => {
            return Err("invalid updated_at".to_owned());
        },
    };
    let intensity = match domain::MetricIntensity::from_str(api_metric.intensity.as_str()) {
        Ok(i) => i,
        Err(e) => {
            return Err(e);
        },
    };
    Ok(
        domain::Metric {
            id: api_metric.id,
            published_at,
            symptom_id: api_metric.symptom_id,
            date,
            updated_at,
            intensity,
            notes: api_metric.notes,
        },
    )
}

/// What a caller supplies to create a metric; without an id the server
/// generates one.
#[derive(Debug)]
pub struct CreateMetricRequestBody {
    pub id: Option<String>,
    pub symptom_id: String,
    pub date: String,
    pub updated_at: String,
    pub intensity: String,
    pub notes: String,
}

/// The mathematical value of a create request.
pub ghost struct CreateMetricRequestV {
    pub id: Option<Seq<char>>,
    pub symptom_id: Seq<char>,
    pub date: Seq<char>,
    pub updated_at: Seq<char>,
    pub intensity: Seq<char>,
    pub notes: Seq<char>,
}

impl View for CreateMetricRequestBody {
    type V = CreateMetricRequestV;

    open spec fn view(&self) -> CreateMetricRequestV {
        CreateMetricRequestV {
            id: self.id.deep_view(),
            symptom_id: self.symptom_id@,
            date: self.date@,
            updated_at: self.updated_at@,
            intensity: self.intensity@,
            notes: self.notes@,
        }
    }
}

/// What a caller supplies to partially update a metric; absent fields are
/// left as stored.
#[derive(Debug)]
pub struct UpdateMetricRequestBody {
    pub symptom_id: Option<String>,
    pub date: Option<String>,
    pub updated_at: Option<String>,
    pub intensity: Option<String>,
    pub notes: Option<String>,
}

/// The mathematical value of a partial-update request.
pub ghost struct UpdateMetricRequestV {
    pub symptom_id: Option<Seq<char>>,
    pub date: Option<Seq<char>>,
    pub updated_at: Option<Seq<char>>,
    pub intensity: Option<Seq<char>>,
    pub notes: Option<Seq<char>>,
}

impl View for UpdateMetricRequestBody {
    type V = UpdateMetricRequestV;

    open spec fn view(&self) -> UpdateMetricRequestV {
        UpdateMetricRequestV {
            symptom_id: self.symptom_id.deep_view(),
            date: self.date.deep_view(),
            updated_at: self.updated_at.deep_view(),
            intensity: self.intensity.deep_view(),
            notes: self.notes.deep_view(),
        }
    }
}

/// Which supplied field a metric payload fails validation on.
#[derive(Clone, Copy, Debug, PartialEq, Eq, Structural)]
pub enum MetricField {
    Date,
    UpdatedAt,
    Intensity,
}

/// The metric a create request describes under a chosen id and server
/// stamp, or the first field that fails validation, checked in the order
/// date, `updated_at`, intensity.
pub open spec fn spec_create_metric_entity(
    payload: CreateMetricRequestV,
    chosen: Seq<char>,
    p: Timestamp,
) -> Result<domain::MetricV, MetricField> {
    match rfc3339_instant(payload.date) {
        None => Err(MetricField::Date),
        Some(d) => match rfc3339_instant(payload.updated_at) {
            None => Err(MetricField::UpdatedAt),
            Some(u) => match domain::spec_intensity_of(payload.intensity) {
                None => Err(MetricField::Intensity),
                Some(i) => Ok(
                    domain::MetricV {
                        id: chosen,
                        published_at: p,
                        symptom_id: payload.symptom_id,
                        date: Timestamp { secs: d.0 as i64, nanos: d.1 as u32 },
                        updated_at: Timestamp { secs: u.0 as i64, nanos: u.1 as u32 },
                        intensity: i,
                        notes: payload.notes,
                    },
                ),
            },
        },
    }
}

/// The message reported for each field that can fail validation.
pub open spec fn spec_field_message(f: MetricField) -> Seq<char> {
    match f {
        MetricField::Date => "'date' must be a valid date (RFC3339)"@,
        MetricField::UpdatedAt => "'updated_at' must be a valid date (RFC3339)"@,
        MetricField::Intensity => "invalid 'intensity'"@,
    }
}

/// Everything a create settles, given the table before and after, the
/// chosen stamp and the fallback id: which outcome is owed and what the
/// table becomes.
pub open spec fn spec_create_metric_post(
    rows: Seq<MetricRowV>,
    payload: CreateMetricRequestV,
    p: Timestamp,
    generated: Seq<char>,
    new_rows: Seq<MetricRowV>,
    r: Result<Metric, ApiError>,
) -> bool {
    let chosen = crate::symptoms::spec_chosen_id(payload.id, generated);
    match spec_create_metric_entity(payload, chosen, p) {
        Err(f) => r matches Err(ApiError::ValidationError(m)) && m@ == spec_field_message(f)
            && new_rows == rows,
        Ok(d) => if met_has_id(rows, chosen) {
            r matches Err(ApiError::StoreError(m)) && m@ == SEE_LOGS@ && new_rows == rows
        } else {
            r matches Ok(s) && s@ == spec_metric_to_api(d) && new_rows == rows.push(
                db::spec_row_of_metric(d),
            )
        },
    }
}

/// Creates a metric under an explicitly supplied server stamp and fallback
/// id: validates the payload, stamps `published_at`, and inserts.
pub fn create_metric_at(
    store: &mut Store,
    payload: &CreateMetricRequestBody,
    published_at: Timestamp,
    generated_id: &String,
) -> (r: Result<Metric, ApiError>)
    requires
        old(store).wf(),
        published_at.wf(),
    ensures
        final(store).wf(),
        final(store)@.symptoms == old(store)@.symptoms,
        spec_create_metric_post(
            old(store)@.metrics,
            payload@,
            published_at,
            generated_id@,
            final(store)@.metrics,
            r,
        ),
{
    let id: String = match &payload.id {
        Some(i) => i.clone(),
        None => generated_id.clone(),
    };
    let date: Timestamp = match parse_rfc3339(payload.date.as_str()) {
        Some(t) => t,
        None => {
            return Err(
                ApiError::ValidationError("'date' must be a valid date (RFC3339)".to_owned()),
            );
        },
    };
    let updated_at: Timestamp = match parse_rfc3339(payload.updated_at.as_str()) {
        Some(t) => t,
        None => {
            return Err(
                ApiError::ValidationError("'updated_at' must be a valid date (RFC3339)".to_owned()),
            );
        },
    };
    let intensity = match domain::MetricIntensity::from_str(payload.intensity.as_str()) {
        Ok(i) => i,
        Err(_) => {
            return Err(ApiError::ValidationError("invalid 'intensity'".to_owned()));
        },
    };
    let metric = domain::Metric {
        id,
        published_at,
        symptom_id: payload.symptom_id.clone(),
        date,
        updated_at,
        intensity,
        notes: payload.notes.clone(),
    };
    let row = db::Metric::from_domain(&metric);
    match store.create_metric(row) {
        Ok(()) => Ok(Metric::from_domain(&metric)),
        Err(_) => Err(ApiError::StoreError(SEE_LOGS.to_owned())),
    }
}

/// Creates a metric now: stamps the current instant as `published_at` and
/// generates a fresh `met_`-prefixed id when the caller supplied none.
pub fn create_metric(store: &mut Store, payload: &CreateMetricRequestBody) -> (r: Result<
    Metric,
    ApiError,
>)
    requires
        old(store).wf(),
    ensures
        final(store).wf(),
        final(store)@.symptoms == old(store)@.symptoms,
        r is Err ==> final(store)@ == old(store)@,
        match r {
            Ok(s) => {
                &&& s@.symptom_id == payload@.symptom_id
                &&& s@.notes == payload@.notes
                &&& (payload@.id matches Some(i) ==> s@.id == i)
                &&& (payload@.id is None ==> s@.id.len() == 14 && s@.id.subrange(0, 4)
                    == "met_"@)
                &&& !met_has_id(old(store)@.metrics, s@.id)
                &&& final(store)@.metrics.len() == old(store)@.metrics.len() + 1
                &&& final(store)@.metrics.last().id == s@.id
            },
            Err(_) => true,
        },
        exists|p: Timestamp, g: Seq<char>|
            {
                &&& p.wf()
                &&& g.len() == 14 && g.subrange(0, 4) == "met_"@
                &&& #[trigger] spec_create_metric_post(
                    old(store)@.metrics,
                    payload@,
                    p,
                    g,
                    final(store)@.metrics,
                    r,
                )
            },
{
    let published_at = crate::timestamp::now();
    let generated_id = domain::generate_metric_id();
    let r = create_metric_at(store, payload, published_at, &generated_id);
    proof {
        assert(spec_create_metric_post(
            old(store)@.metrics,
            payload@,
            published_at,
            generated_id@,
            store@.metrics,
            r,
        ));
    }
    r
}

/// Decodes a whole table of metric rows for the wire, or reports the first
/// row that no longer decodes.
pub open spec fn spec_rows_to_api_met(rows: Seq<MetricRowV>) -> Option<Seq<ApiMetricV>>
    decreases rows.len(),
{
    if rows.len() == 0 {
        Some(Seq::empty())
    } else {
        match db::spec_metric_of_row(rows[0]) {
            None => None,
            Some(d) => match spec_rows_to_api_met(rows.drop_first()) {
                None => None,
                Some(rest) => Some(seq![spec_metric_to_api(d)] + rest),
            },
        }
    }
}

/// Converts a batch of fetched rows for the wire, stopping at the first
/// row that no longer decodes.
pub(crate) fn rows_to_api_metrics(rows: &Vec<db::Metric>) -> (r: Option<Vec<Metric>>)
    ensures
        match r {
            Some(v) => spec_rows_to_api_met(rows.deep_view()) == Some(v.deep_view()),
            None => spec_rows_to_api_met(rows.deep_view()) is None,
        },
{
    let mut out: Vec<Metric> = Vec::new();
    let mut i: usize = 0;
    proof {
        assert(rows.deep_view().subrange(0, rows.len() as int) =~= rows.deep_view());
        match spec_rows_to_api_met(rows.deep_view()) {
            Some(rest) => {
                assert(out.deep_view() + rest =~= rest);
            },
            None => {},
        }
    }
    while i < rows.len()
        invariant
            i <= rows.len(),
            spec_rows_to_api_met(rows.deep_view()) == match spec_rows_to_api_met(
                rows.deep_view().subrange(i as int, rows.len() as int),
            ) {
                None => None::<Seq<ApiMetricV>>,
                Some(rest) => Some(out.deep_view() + rest),
            },
        decreases rows.len() - i,
    {
        let ghost suffix = rows.deep_view().subrange(i as int, rows.len() as int);
        proof {
            assert(suffix[0] == rows.deep_view()[i as int]);
            assert(suffix.drop_first() =~= rows.deep_view().subrange(
                i as int + 1,
                rows.len() as int,
            ));
        }
        let d = match rows[i].to_domain() {
            Ok(d) => d,
            Err(_) => {
                return None;
            },
        };
        let ghost before = out.deep_view();
        out.push(Metric::from_domain(&d));
        proof {
            assert(out.deep_view() =~= before.push(spec_metric_to_api(d@)));
            match spec_rows_to_api_met(suffix.drop_first()) {
                Some(rest) => {
                    assert(before + (seq![spec_metric_to_api(d@)] + rest) =~= out.deep_view()
                        + rest);
                },
                None => {},
            }
        }
        i = i + 1;
    }
    proof {
        assert(rows.deep_view().subrange(rows.len() as int, rows.len() as int)
            =~= Seq::<MetricRowV>::empty());
        assert(out.deep_view() + Seq::<ApiMetricV>::empty() =~= out.deep_view());
    }
    Some(out)
}

/// Returns every stored metric for the wire; a table with any row that no
/// longer decodes degrades to an empty listing rather than failing.
pub fn read_all_metrics(store: &Store) -> (r: Vec<Metric>)
    ensures
        match spec_rows_to_api_met(store@.metrics) {
            Some(list) => r.deep_view() == list,
            None => r.deep_view() == Seq::<ApiMetricV>::empty(),
        },
{
    let rows = match store.get_metrics(None) {
        Ok(rows) => rows,
        Err(_) => Vec::new(),
    };
    proof {
        lemma_filter_all_met(store@.metrics);
    }
    match rows_to_api_metrics(&rows) {
        Some(list) => list,
        None => {
            let r: Vec<Metric> = Vec::new();
            proof {
                assert(r.deep_view() =~= Seq::<ApiMetricV>::empty());
            }
            r
        },
    }
}

/// With no cursor the range query keeps every row.
proof fn lemma_filter_all_met(rows: Seq<MetricRowV>)
    ensures
        rows.filter(|row: MetricRowV| crate::store::spec_row_since(row.published_at, None))
            =~= rows,
    decreases rows.len(),
{
    reveal(Seq::filter);
    if rows.len() > 0 {
        lemma_filter_all_met(rows.drop_last());
    }
}

/// The merged metric a partial update describes: supplied fields replace
/// stored ones, `published_at` is re-stamped, and the first malformed
/// supplied field — date, `updated_at`, then intensity — rejects the
/// update.
pub open spec fn spec_merge_metric(
    before: domain::MetricV,
    payload: UpdateMetricRequestV,
    p: Timestamp,
) -> Result<domain::MetricV, MetricField> {
    let symptom_id = match payload.symptom_id {
        Some(s) => s,
        None => before.symptom_id,
    };
    let notes = match payload.notes {
        Some(n) => n,
        None => before.notes,
    };
    match spec_opt_instant(payload.date, before.date) {
        None => Err(MetricField::Date),
        Some(date) => match spec_opt_instant(payload.updated_at, before.updated_at) {
            None => Err(MetricField::UpdatedAt),
            Some(updated_at) => match spec_opt_intensity(payload.intensity, before.intensity) {
                None => Err(MetricField::Intensity),
                Some(intensity) => Ok(
                    domain::MetricV {
                        id: before.id,
                        published_at: p,
                        symptom_id,
                        date,
                        updated_at,
                        intensity,
                        notes,
                    },
                ),
            },
        },
    }
}

/// A supplied date-time string overrides the stored instant; a malformed
/// one is `None`.
pub open spec fn spec_opt_instant(raw: Option<Seq<char>>, stored: Timestamp) -> Option<
    Timestamp,
> {
    match raw {
        None => Some(stored),
        Some(s) => match rfc3339_instant(s) {
            None => None,
            Some(u) => Some(Timestamp { secs: u.0 as i64, nanos: u.1 as u32 }),
        },
    }
}

/// A supplied intensity token overrides the stored intensity; an unknown
/// token is `None`.
pub open spec fn spec_opt_intensity(
    raw: Option<Seq<char>>,
    stored: domain::MetricIntensity,
) -> Option<domain::MetricIntensity> {
    match raw {
        None => Some(stored),
        Some(s) => domain::spec_intensity_of(s),
    }
}

/// Everything a partial update settles, given the table before and after
/// and the chosen stamp: which outcome is owed and what the table becomes.
pub open spec fn spec_update_metric_post(
    rows: Seq<MetricRowV>,
    id: Seq<char>,
    payload: UpdateMetricRequestV,
    p: Timestamp,
    new_rows: Seq<MetricRowV>,
    r: Result<Metric, ApiError>,
) -> bool {
    if !met_has_id(rows, id) {
        r matches Err(ApiError::NotFoundError(_)) && new_rows == rows
    } else {
        let row = rows[met_index(rows, id)];
        match db::spec_metric_of_row(row) {
            None => r matches Err(ApiError::ConversionError(_)) && new_rows == rows,
            Some(before) => match spec_merge_metric(before, payload, p) {
                Err(f) => r matches Err(ApiError::ValidationError(m)) && m@
                    == spec_field_message(f) && new_rows == rows,
                Ok(merged) => r matches Ok(s) && s@ == spec_metric_to_api(merged) && new_rows
                    == met_replace(rows, db::spec_row_of_metric(merged)),
            },
        }
    }
}

/// Partially updates a metric under an explicitly supplied server stamp:
/// reads the stored entity, overlays the supplied fields, re-stamps
/// `published_at`, and replaces the row.
pub fn update_metric_at(
    store: &mut Store,
    id: &String,
    payload: &UpdateMetricRequestBody,
    published_at: Timestamp,
) -> (r: Result<Metric, ApiError>)
    requires
        old(store).wf(),
        published_at.wf(),
    ensures
        final(store).wf(),
        final(store)@.symptoms == old(store)@.symptoms,
        spec_update_metric_post(
            old(store)@.metrics,
            id@,
            payload@,
            published_at,
            final(store)@.metrics,
            r,
        ),
{
    let row = match store.get_metric(id.clone()) {
        Ok(row) => row,
        Err(_) => {
            return Err(ApiError::NotFoundError("metric not found".to_owned()));
        },
    };
    let before = match row.to_domain() {
        Ok(d) => d,
        Err(e) => {
            return Err(ApiError::ConversionError(e));
        },
    };
    let mut desired = before.clone();
    desired.published_at = published_at;
    match &payload.symptom_id {
        Some(s) => {
            desired.symptom_id = s.clone();
        },
        None => {},
    }
    match &payload.date {
        Some(raw) => {
            desired.date = match parse_rfc3339(raw.as_str()) {
                Some(t) => t,
                None => {
                    return Err(
                        ApiError::ValidationError(
                            "'date' must be a valid date (RFC3339)".to_owned(),
                        ),
                    );
                },
            };
        },
        None => {},
    }
    match &payload.updated_at {
        Some(raw) => {
            desired.updated_at = match parse_rfc3339(raw.as_str()) {
                Some(t) => t,
                None => {
                    return Err(
                        ApiError::ValidationError(
                            "'updated_at' must be a valid date (RFC3339)".to_owned(),
                        ),
                    );
                },
            };
        },
        None => {},
    }
    match &payload.intensity {
        Some(raw) => {
            desired.intensity = match domain::MetricIntensity::from_str(raw.as_str()) {
                Ok(i) => i,
                Err(_) => {
                    return Err(ApiError::ValidationError("invalid 'intensity'".to_owned()));
                },
            };
        },
        None => {},
    }
    match &payload.notes {
        Some(n) => {
            desired.notes = n.clone();
        },
        None => {},
    }
    let desired_row = db::Metric::from_domain(&desired);
    match store.update_metric(desired_row) {
        Ok(_) => Ok(Metric::from_domain(&desired)),
        Err(_) => {
            proof {
                assert(false);
            }
            Err(ApiError::StoreError(SEE_LOGS.to_owned()))
        },
    }
}

/// Partially updates a metric now, stamping the current instant.
pub fn update_metric(store: &mut Store, id: &String, payload: &UpdateMetricRequestBody) -> (r:
    Result<Metric, ApiError>)
    requires
        old(store).wf(),
    ensures
        final(store).wf(),
        final(store)@.symptoms == old(store)@.symptoms,
        !met_has_id(old(store)@.metrics, id@) ==> (r matches Err(ApiError::NotFoundError(_))
            && final(store)@ == old(store)@),
        r is Err ==> final(store)@ == old(store)@,
        exists|p: Timestamp|
            p.wf() && #[trigger] spec_update_metric_post(
                old(store)@.metrics,
                id@,
                payload@,
                p,
                final(store)@.metrics,
                r,
            ),
{
    let published_at = crate::timestamp::now();
    let r = update_metric_at(store, id, payload, published_at);
    proof {
        assert(spec_update_metric_post(
            old(store)@.metrics,
            id@,
            payload@,
            published_at,
            store@.metrics,
            r,
        ));
    }
    r
}

/// Deletes a metric by id; reports the absence of the target distinctly.
pub fn delete_metric(store: &mut Store, id: &String) -> (r: Result<String, ApiError>)
    requires
        old(store).wf(),
    ensures
        final(store).wf(),
        final(store)@.symptoms == old(store)@.symptoms,
        match r {
            Ok(deleted) => {
                &&& deleted@ == id@
                &&& met_has_id(old(store)@.metrics, id@)
                &&& final(store)@.metrics == old(store)@.metrics.remove(
                    met_index(old(store)@.metrics, id@),
                )
            },
            Err(e) => {
                &&& !met_has_id(old(store)@.metrics, id@)
                &&& final(store)@ == old(store)@
                &&& e matches ApiError::NotFoundError(m) && m@
                    == "metric not found, nothing was deleted"@
            },
        },
{
    match store.delete_metric(id.clone()) {
        Ok(()) => Ok(id.clone()),
        Err(_) => Err(ApiError::NotFoundError("metric not found, nothing was deleted".to_owned())),
    }
}

} // verus!
