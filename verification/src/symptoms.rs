//! Boundary operations on symptoms: the external representation and the
//! create / read-all / partial-update / delete operations over the store.

use vstd::prelude::*;

use crate::db;
use crate::db::{SymptomRowV, SEE_LOGS};
use crate::domain;
use crate::errors::ApiError;
use crate::store::{sym_has_id, sym_index, sym_replace, Store};
use crate::timestamp::{parse_rfc3339, rfc3339_canonical, rfc3339_instant, Timestamp};

verus! {

/// A symptom as it travels over the wire: the client's `updated_at` as an
/// RFC 3339 string, no `published_at` (the server owns that stamp).
#[derive(Debug)]
pub struct Symptom {
    pub id: String,
    pub name: String,
    pub other_names: Vec<String>,
    pub updated_at: String,
}

/// The mathematical value of an external symptom.
pub ghost struct ApiSymptomV {
    pub id: Seq<char>,
    pub name: Seq<char>,
    pub other_names: Seq<Seq<char>>,
    pub updated_at: Seq<char>,
}

impl View for Symptom {
    type V = ApiSymptomV;

    open spec fn view(&self) -> ApiSymptomV {
        ApiSymptomV {
            id: self.id@,
            name: self.name@,
            other_names: self.other_names.deep_view(),
            updated_at: self.updated_at@,
        }
    }
}

impl DeepView for Symptom {
    type V = ApiSymptomV;

    open spec fn deep_view(&self) -> ApiSymptomV {
        self.view()
    }
}

impl Clone for Symptom {
    fn clone(&self) -> (r: Self)
        ensures
            r@ == self@,
    {
        let r = Symptom {
            id: self.id.clone(),
            name: self.name.clone(),
            other_names: domain::clone_names(&self.other_names),
            updated_at: self.updated_at.clone(),
        };
        proof {
            assert(r.other_names.deep_view() =~= self.other_names.deep_view());
        }
        r
    }
}

/// The external form of a symptom: its client stamp rendered canonically.
pub open spec fn spec_symptom_to_api(d: domain::SymptomV) -> ApiSymptomV {
    ApiSymptomV {
        id: d.id,
        name: d.name,
        other_names: d.other_names,
        updated_at: rfc3339_canonical(d.updated_at.secs as int, d.updated_at.nanos as int),
    }
}

/// The symptom an external representation decodes to under a given server
/// stamp, or `None` when its `updated_at` is not a well-formed date-time.
pub open spec fn spec_api_symptom_to_domain(a: ApiSymptomV, p: Timestamp) -> Option<
    domain::SymptomV,
> {
    match rfc3339_instant(a.updated_at) {
        None => None,
        Some(u) => Some(
            domain::SymptomV {
                id: a.id,
                published_at: p,
                name: a.name,
                other_names: a.other_names,
                updated_at: Timestamp { secs: u.0 as i64, nanos: u.1 as u32 },
            },
        ),
    }
}

impl Symptom {
    /// Encodes a symptom for the wire.
    pub fn from_domain(d: &domain::Symptom) -> (r: Symptom)
        requires
            d.updated_at.wf(),
        ensures
            r@ == spec_symptom_to_api(d@),
            d.updated_at.round_trips() ==> rfc3339_instant(r@.updated_at) == Some(
                (d.updated_at.secs as int, d.updated_at.nanos as int),
            ),
    {
        let r = Symptom {
            id: d.id.clone(),
            name: d.name.clone(),
            other_names: domain::clone_names(&d.other_names),
            updated_at: crate::timestamp::format_rfc3339(&d.updated_at),
        };
        proof {
            assert(r.other_names.deep_view() =~= d.other_names.deep_view());
        }
        r
    }
}

/// Decodes an external symptom under the given server stamp, rejecting a
/// malformed `updated_at`.
pub fn api_symptom_to_domain(api_symptom: Symptom, published_at: Timestamp) -> (r: Result<
    domain::Symptom,
    String,
>)
    ensures
        match r {
            Ok(d) => {
                &&& spec_api_symptom_to_domain(api_symptom@, published_at) == Some(d@)
                &&& d.updated_at.wf()
                &&& d.published_at == published_at
            },
            Err(e) => {
                &&& spec_api_symptom_to_domain(api_symptom@, published_at) is None
                &&& e@ == "invalid updated_at"@
            },
        },
{
    let updated_at: Timestamp = match parse_rfc3339(api_symptom.updated_at.as_str()) {
        Some(t) => t,
        None => {
            return Err("invalid updated_at".to_owned());
        },
    };
    Ok(
        domain::Symptom {
            id: api_symptom.id,
            published_at,
            name: api_symptom.name,
            other_names: api_symptom.other_names,
            updated_at,
        },
    )
}

/// What a caller supplies to create a symptom; without an id the server
/// generates one.
#[derive(Debug)]
pub struct CreateSymptomRequestBody {
    pub id: Option<String>,
    pub name: String,
    pub other_names: Vec<String>,
    pub updated_at: String,
}

/// The mathematical value of a create request.
pub ghost struct CreateSymptomRequestV {
    pub id: Option<Seq<char>>,
    pub name: Seq<char>,
    pub other_names: Seq<Seq<char>>,
    pub updated_at: Seq<char>,
}

impl View for CreateSymptomRequestBody {
    type V = CreateSymptomRequestV;

    open spec fn view(&self) -> CreateSymptomRequestV {
        CreateSymptomRequestV {
            id: self.id.deep_view(),
            name: self.name@,
            other_names: self.other_names.deep_view(),
            updated_at: self.updated_at@,
        }
    }
}

/// What a caller supplies to partially update a symptom; absent fields are
/// left as stored.
#[derive(Debug)]
pub struct UpdateSymptomRequestBody {
    pub name: Option<String>,
    pub other_names: Option<Vec<String>>,
    pub updated_at: Option<String>,
}

/// The mathematical value of a partial-update request.
pub ghost struct UpdateSymptomRequestV {
    pub name: Option<Seq<char>>,
    pub other_names: Option<Seq<Seq<char>>>,
    pub updated_at: Option<Seq<char>>,
}

impl View for UpdateSymptomRequestBody {
    type V = UpdateSymptomRequestV;

    open spec fn view(&self) -> UpdateSymptomRequestV {
        UpdateSymptomRequestV {
            name: self.name.deep_view(),
            other_names: self.other_names.deep_view(),
            updated_at: self.updated_at.deep_view(),
        }
    }
}

/// The id a create request settles on: the caller's when supplied, else
/// the generated one.
pub open spec fn spec_chosen_id(id: Option<Seq<char>>, generated: Seq<char>) -> Seq<char> {
    match id {
        Some(i) => i,
        None => generated,
    }
}

/// The symptom a create request describes under a chosen id and server
/// stamp, or `None` when its `updated_at` is malformed.
pub open spec fn spec_create_symptom_entity(
    payload: CreateSymptomRequestV,
    chosen: Seq<char>,
    p: Timestamp,
) -> Option<domain::SymptomV> {
    match rfc3339_instant(payload.updated_at) {
        None => None,
        Some(u) => Some(
            domain::SymptomV {
                id: chosen,
                published_at: p,
                name: payload.name,
                other_names: payload.other_names,
                updated_at: Timestamp { secs: u.0 as i64, nanos: u.1 as u32 },
            },
        ),
    }
}

/// Everything a create settles, given the table before and after, the
/// chosen stamp and the fallback id: which outcome is owed and what the
/// table becomes.
pub open spec fn spec_create_symptom_post(
    rows: Seq<SymptomRowV>,
    payload: CreateSymptomRequestV,
    p: Timestamp,
    generated: Seq<char>,
    new_rows: Seq<SymptomRowV>,
    r: Result<Symptom, ApiError>,
) -> bool {
    let chosen = spec_chosen_id(payload.id, generated);
    match spec_create_symptom_entity(payload, chosen, p) {
        None => r matches Err(ApiError::ValidationError(m)) && m@
            == "'updated_at' must be a valid date (RFC3339)"@ && new_rows == rows,
        Some(d) => if sym_has_id(rows, chosen) {
            r matches Err(ApiError::StoreError(m)) && m@ == SEE_LOGS@ && new_rows == rows
        } else {
            r matches Ok(s) && s@ == spec_symptom_to_api(d) && new_rows == rows.push(
                db::spec_row_of_symptom(d),
            )
        },
    }
}

/// Creates a symptom under an explicitly supplied server stamp and
/// fallback id: validates the payload, stamps `published_at`, and inserts.
pub fn create_symptom_at(
    store: &mut Store,
    payload: &CreateSymptomRequestBody,
    published_at: Timestamp,
    generated_id: &String,
) -> (r: Result<Symptom, ApiError>)
    requires
        old(store).wf(),
        published_at.wf(),
    ensures
        final(store).wf(),
        final(store)@.metrics == old(store)@.metrics,
        spec_create_symptom_post(
            old(store)@.symptoms,
            payload@,
            published_at,
            generated_id@,
            final(store)@.symptoms,
            r,
        ),
{
    let id: String = match &payload.id {
        Some(i) => i.clone(),
        None => generated_id.clone(),
    };
    let updated_at: Timestamp = match parse_rfc3339(payload.updated_at.as_str()) {
        Some(t) => t,
        None => {
            return Err(
                ApiError::ValidationError("'updated_at' must be a valid date (RFC3339)".to_owned()),
            );
        },
    };
    let symptom = domain::Symptom {
        id,
        published_at,
        name: payload.name.clone(),
        other_names: domain::clone_names(&payload.other_names),
        updated_at,
    };
    proof {
        assert(symptom.other_names.deep_view() =~= payload.other_names.deep_view());
    }
    let row = db::Symptom::from_domain(&symptom);
    match store.create_symptom(row) {
        Ok(()) => Ok(Symptom::from_domain(&symptom)),
        Err(_) => Err(ApiError::StoreError(SEE_LOGS.to_owned())),
    }
}

/// Creates a symptom now: stamps the current instant as `published_at` and
/// generates a fresh `sym_`-prefixed id when the caller supplied none.
pub fn create_symptom(store: &mut Store, payload: &CreateSymptomRequestBody) -> (r: Result<
    Symptom,
    ApiError,
>)
    requires
        old(store).wf(),
    ensures
        final(store).wf(),
        final(store)@.metrics == old(store)@.metrics,
        rfc3339_instant(payload@.updated_at) is None <==> (r matches Err(
            ApiError::ValidationError(m),
        ) && m@ == "'updated_at' must be a valid date (RFC3339)"@),
        r is Err ==> final(store)@ == old(store)@,
        match r {
            Ok(s) => {
                &&& s@.name == payload@.name
                &&& s@.other_names == payload@.other_names
                &&& (payload@.id matches Some(i) ==> s@.id == i)
                &&& (payload@.id is None ==> s@.id.len() == 14 && s@.id.subrange(0, 4)
                    == "sym_"@)
                &&& !sym_has_id(old(store)@.symptoms, s@.id)
                &&& final(store)@.symptoms.len() == old(store)@.symptoms.len() + 1
                &&& final(store)@.symptoms.last().id == s@.id
            },
            Err(_) => true,
        },
        exists|p: Timestamp, g: Seq<char>|
            {
                &&& p.wf()
                &&& g.len() == 14 && g.subrange(0, 4) == "sym_"@
                &&& #[trigger] spec_create_symptom_post(
                    old(store)@.symptoms,
                    payload@,
                    p,
                    g,
                    final(store)@.symptoms,
                    r,
                )
            },
{
    let published_at = crate::timestamp::now();
    let generated_id = domain::generate_symptom_id();
    let r = create_symptom_at(store, payload, published_at, &generated_id);
    proof {
        let chosen = spec_chosen_id(payload@.id, generated_id@);
        if spec_create_symptom_entity(payload@, chosen, published_at) is Some {
        }
        assert(spec_create_symptom_post(
            old(store)@.symptoms,
            payload@,
            published_at,
            generated_id@,
            store@.symptoms,
            r,
        ));
    }
    r
}

/// Decodes a whole table of symptom rows for the wire, or reports the
/// first row that no longer decodes.
pub open spec fn spec_rows_to_api_sym(rows: Seq<SymptomRowV>) -> Option<Seq<ApiSymptomV>>
    decreases rows.len(),
{
    if rows.len() == 0 {
        Some(Seq::empty())
    } else {
        match db::spec_symptom_of_row(rows[0]) {
            None => None,
            Some(d) => match spec_rows_to_api_sym(rows.drop_first()) {
                None => None,
                Some(rest) => Some(seq![spec_symptom_to_api(d)] + rest),
            },
        }
    }
}

/// Converts a batch of fetched rows for the wire, stopping at the first
/// row that no longer decodes.
pub(crate) fn rows_to_api_symptoms(rows: &Vec<db::Symptom>) -> (r: Option<Vec<Symptom>>)
    ensures
        match r {
            Some(v) => spec_rows_to_api_sym(rows.deep_view()) == Some(v.deep_view()),
            None => spec_rows_to_api_sym(rows.deep_view()) is None,
        },
{
    let mut out: Vec<Symptom> = Vec::new();
    let mut i: usize = 0;
    proof {
        assert(rows.deep_view().subrange(0, rows.len() as int) =~= rows.deep_view());
        match spec_rows_to_api_sym(rows.deep_view()) {
            Some(rest) => {
                assert(out.deep_view() + rest =~= rest);
            },
            None => {},
        }
    }
    while i < rows.len()
        invariant
            i <= rows.len(),
            spec_rows_to_api_sym(rows.deep_view()) == match spec_rows_to_api_sym(
                rows.deep_view().subrange(i as int, rows.len() as int),
            ) {
                None => None::<Seq<ApiSymptomV>>,
                Some(rest) => Some(out.deep_view() + rest),
            },
        decreases rows.len() - i,
    {
        let ghost suffix = rows.deep_view().subrange(i as int, rows.len() as int);
        proof {
            assert(suffix[0] == rows.deep_view()[i as int]);
            assert(suffix.drop_first() =~= rows.deep_view().subrange(
                i as int + 1,
                rows.len() as int,
            ));
        }
        let d = match rows[i].to_domain() {
            Ok(d) => d,
            Err(_) => {
                return None;
            },
        };
        let ghost before = out.deep_view();
        out.push(Symptom::from_domain(&d));
        proof {
            assert(out.deep_view() =~= before.push(spec_symptom_to_api(d@)));
            match spec_rows_to_api_sym(suffix.drop_first()) {
                Some(rest) => {
                    assert(before + (seq![spec_symptom_to_api(d@)] + rest) =~= out.deep_view()
                        + rest);
                },
                None => {},
            }
        }
        i = i + 1;
    }
    proof {
        assert(rows.deep_view().subrange(rows.len() as int, rows.len() as int)
            =~= Seq::<SymptomRowV>::empty());
        assert(out.deep_view() + Seq::<ApiSymptomV>::empty() =~= out.deep_view());
    }
    Some(out)
}

/// Returns every stored symptom for the wire; a table with any row that no
/// longer decodes degrades to an empty listing rather than failing.
pub fn read_all_symptoms(store: &Store) -> (r: Vec<Symptom>)
    ensures
        match spec_rows_to_api_sym(store@.symptoms) {
            Some(list) => r.deep_view() == list,
            None => r.deep_view() == Seq::<ApiSymptomV>::empty(),
        },
{
    let rows = match store.get_symptoms(None) {
        Ok(rows) => rows,
        Err(_) => Vec::new(),
    };
    proof {
        lemma_filter_all_sym(store@.symptoms);
    }
    match rows_to_api_symptoms(&rows) {
        Some(list) => list,
        None => {
            let r: Vec<Symptom> = Vec::new();
            proof {
                assert(r.deep_view() =~= Seq::<ApiSymptomV>::empty());
            }
            r
        },
    }
}

/// With no cursor the range query keeps every row.
proof fn lemma_filter_all_sym(rows: Seq<SymptomRowV>)
    ensures
        rows.filter(|row: SymptomRowV| crate::store::spec_row_since(row.published_at, None))
            =~= rows,
    decreases rows.len(),
{
    reveal(Seq::filter);
    if rows.len() > 0 {
        lemma_filter_all_sym(rows.drop_last());
    }
}

/// The merged symptom a partial update describes: supplied fields replace
/// stored ones, `published_at` is re-stamped, and a malformed supplied
/// `updated_at` rejects the update.
pub open spec fn spec_merge_symptom(
    before: domain::SymptomV,
    payload: UpdateSymptomRequestV,
    p: Timestamp,
) -> Option<domain::SymptomV> {
    let name = match payload.name {
        Some(n) => n,
        None => before.name,
    };
    let other_names = match payload.other_names {
        Some(o) => o,
        None => before.other_names,
    };
    match payload.updated_at {
        None => Some(
            domain::SymptomV {
                id: before.id,
                published_at: p,
                name,
                other_names,
                updated_at: before.updated_at,
            },
        ),
        Some(raw) => match rfc3339_instant(raw) {
            None => None,
            Some(u) => Some(
                domain::SymptomV {
                    id: before.id,
                    published_at: p,
                    name,
                    other_names,
                    updated_at: Timestamp { secs: u.0 as i64, nanos: u.1 as u32 },
                },
            ),
        },
    }
}

/// Everything a partial update settles, given the table before and after
/// and the chosen stamp: which outcome is owed and what the table becomes.
pub open spec fn spec_update_symptom_post(
    rows: Seq<SymptomRowV>,
    id: Seq<char>,
    payload: UpdateSymptomRequestV,
    p: Timestamp,
    new_rows: Seq<SymptomRowV>,
    r: Result<Symptom, ApiError>,
) -> bool {
    if !sym_has_id(rows, id) {
        r matches Err(ApiError::NotFoundError(_)) && new_rows == rows
    } else {
        let row = rows[sym_index(rows, id)];
        match db::spec_symptom_of_row(row) {
            None => r matches Err(ApiError::StoreError(m)) && m@ == SEE_LOGS@ && new_rows
                == rows,
            Some(before) => match spec_merge_symptom(before, payload, p) {
                None => r matches Err(ApiError::ValidationError(m)) && m@
                    == "'updated_at' must be a valid date (RFC3339)"@ && new_rows == rows,
                Some(merged) => r matches Ok(s) && s@ == spec_symptom_to_api(merged)
                    && new_rows == sym_replace(rows, db::spec_row_of_symptom(merged)),
            },
        }
    }
}

/// Partially updates a symptom under an explicitly supplied server stamp:
/// reads the stored entity, overlays the supplied fields, re-stamps
/// `published_at`, and replaces the row.
pub fn update_symptom_at(
    store: &mut Store,
    id: &String,
    payload: &UpdateSymptomRequestBody,
    published_at: Timestamp,
) -> (r: Result<Symptom, ApiError>)
    requires
        old(store).wf(),
        published_at.wf(),
    ensures
        final(store).wf(),
        final(store)@.metrics == old(store)@.metrics,
        spec_update_symptom_post(
            old(store)@.symptoms,
            id@,
            payload@,
            published_at,
            final(store)@.symptoms,
            r,
        ),
{
    let row = match store.get_symptom(id.clone()) {
        Ok(row) => row,
        Err(_) => {
            return Err(ApiError::NotFoundError("symptom not found".to_owned()));
        },
    };
    let before = match row.to_domain() {
        Ok(d) => d,
        Err(_) => {
            return Err(ApiError::StoreError(SEE_LOGS.to_owned()));
        },
    };
    let mut desired = before.clone();
    desired.published_at = published_at;
    match &payload.name {
        Some(n) => {
            desired.name = n.clone();
        },
        None => {},
    }
    match &payload.other_names {
        Some(o) => {
            desired.other_names = domain::clone_names(o);
            proof {
                assert(desired.other_names.deep_view() =~= o.deep_view());
            }
        },
        None => {},
    }
    match &payload.updated_at {
        Some(raw) => {
            desired.updated_at = match parse_rfc3339(raw.as_str()) {
                Some(t) => t,
                None => {
                    return Err(
                        ApiError::ValidationError(
                            "'updated_at' must be a valid date (RFC3339)".to_owned(),
                        ),
                    );
                },
            };
        },
        None => {},
    }
    let desired_row = db::Symptom::from_domain(&desired);
    match store.update_symptom(desired_row) {
        Ok(_) => Ok(Symptom::from_domain(&desired)),
        Err(_) => {
            proof {
                assert(false);
            }
            Err(ApiError::StoreError(SEE_LOGS.to_owned()))
        },
    }
}

/// Partially updates a symptom now, stamping the current instant.
pub fn update_symptom(store: &mut Store, id: &String, payload: &UpdateSymptomRequestBody) -> (r:
    Result<Symptom, ApiError>)
    requires
        old(store).wf(),
    ensures
        final(store).wf(),
        final(store)@.metrics == old(store)@.metrics,
        !sym_has_id(old(store)@.symptoms, id@) ==> (r matches Err(ApiError::NotFoundError(_))
            && final(store)@ == old(store)@),
        r is Err ==> final(store)@ == old(store)@,
        exists|p: Timestamp|
            p.wf() && #[trigger] spec_update_symptom_post(
                old(store)@.symptoms,
                id@,
                payload@,
                p,
                final(store)@.symptoms,
                r,
            ),
{
    let published_at = crate::timestamp::now();
    let r = update_symptom_at(store, id, payload, published_at);
    proof {
        assert(spec_update_symptom_post(
            old(store)@.symptoms,
            id@,
            payload@,
            published_at,
            store@.symptoms,
            r,
        ));
    }
    r
}

/// Deletes a symptom by id; reports the absence of the target distinctly.
pub fn delete_symptom(store: &mut Store, id: &String) -> (r: Result<String, ApiError>)
    requires
        old(store).wf(),
    ensures
        final(store).wf(),
        final(store)@.metrics == old(store)@.metrics,
        match r {
            Ok(deleted) => {
                &&& deleted@ == id@
                &&& sym_has_id(old(store)@.symptoms, id@)
                &&& final(store)@.symptoms == old(store)@.symptoms.remove(
                    sym_index(old(store)@.symptoms, id@),
                )
            },
            Err(e) => {
                &&& !sym_has_id(old(store)@.symptoms, id@)
                &&& final(store)@ == old(store)@
                &&& e matches ApiError::NotFoundError(m) && m@
                    == "symptom not found, nothing was deleted"@
            },
        },
{
    match store.delete_symptom(id.clone()) {
        Ok(()) => Ok(id.clone()),
        Err(_) => Err(ApiError::NotFoundError("symptom not found, nothing was deleted".to_owned())),
    }
}

} // verus!
