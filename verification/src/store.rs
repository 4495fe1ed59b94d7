//! The keyed record store, one table per entity kind.
//!
//! Rows live in memory; persistence and transport stay outside the library.
//! Each operation is atomic on a single row: insert fails on a duplicate
//! key, replace and delete fail on a missing key, and upsert never fails.
//! The range query returns every row published strictly after a cursor,
//! keeping any row whose stamp cannot be read so that corruption surfaces at
//! decoding time instead of silently vanishing.

use vstd::prelude::*;

use crate::db;
use crate::db::{DbError, DeleteMetricError, DeleteSymptomError, MetricRowV, SymptomRowV, SEE_LOGS};
use crate::timestamp::{parse_rfc3339, rfc3339_instant, timestamp_lt, Timestamp};
use vstd::string::StringExecFns;

verus! {

/// The two tables of the store.
pub struct Store {
    pub symptoms: Vec<db::Symptom>,
    pub metrics: Vec<db::Metric>,
}

/// The mathematical value of the store: each table as the sequence of its
/// rows in insertion order.
pub ghost struct StoreV {
    pub symptoms: Seq<SymptomRowV>,
    pub metrics: Seq<MetricRowV>,
}

impl View for Store {
    type V = StoreV;

    open spec fn view(&self) -> StoreV {
        StoreV { symptoms: self.symptoms.deep_view(), metrics: self.metrics.deep_view() }
    }
}

/// No two symptom rows share an id.
pub open spec fn sym_unique(rows: Seq<SymptomRowV>) -> bool {
    forall|i: int, j: int| 0 <= i < j < rows.len() ==> rows[i].id != rows[j].id
}

/// No two metric rows share an id.
pub open spec fn met_unique(rows: Seq<MetricRowV>) -> bool {
    forall|i: int, j: int| 0 <= i < j < rows.len() ==> rows[i].id != rows[j].id
}

/// Some symptom row carries this id.
pub open spec fn sym_has_id(rows: Seq<SymptomRowV>, id: Seq<char>) -> bool {
    exists|i: int| 0 <= i < rows.len() && rows[i].id == id
}

/// Some metric row carries this id.
pub open spec fn met_has_id(rows: Seq<MetricRowV>, id: Seq<char>) -> bool {
    exists|i: int| 0 <= i < rows.len() && rows[i].id == id
}

/// The index of the row carrying this id; meaningful only when such a row
/// exists and ids are unique.
pub open spec fn sym_index(rows: Seq<SymptomRowV>, id: Seq<char>) -> int {
    choose|i: int| 0 <= i < rows.len() && rows[i].id == id
}

/// The index of the metric row carrying this id.
pub open spec fn met_index(rows: Seq<MetricRowV>, id: Seq<char>) -> int {
    choose|i: int| 0 <= i < rows.len() && rows[i].id == id
}

/// The table with the row carrying `new.id` overwritten by `new`.
pub open spec fn sym_replace(rows: Seq<SymptomRowV>, new: SymptomRowV) -> Seq<SymptomRowV> {
    rows.map_values(|r: SymptomRowV| if r.id == new.id { new } else { r })
}

/// The metric table with the row carrying `new.id` overwritten by `new`.
pub open spec fn met_replace(rows: Seq<MetricRowV>, new: MetricRowV) -> Seq<MetricRowV> {
    rows.map_values(|r: MetricRowV| if r.id == new.id { new } else { r })
}

/// Insert-or-replace-by-key in one step.
pub open spec fn sym_upsert(rows: Seq<SymptomRowV>, new: SymptomRowV) -> Seq<SymptomRowV> {
    if sym_has_id(rows, new.id) {
        sym_replace(rows, new)
    } else {
        rows.push(new)
    }
}

/// Insert-or-replace-by-key in one step.
pub open spec fn met_upsert(rows: Seq<MetricRowV>, new: MetricRowV) -> Seq<MetricRowV> {
    if met_has_id(rows, new.id) {
        met_replace(rows, new)
    } else {
        rows.push(new)
    }
}

/// Whether a stored `published_at` stamp lies strictly after the cursor
/// instant; a stamp that cannot be read is never filtered out, so that the
/// corruption is seen by whoever decodes the row.
pub open spec fn spec_stamp_after(p: Seq<char>, cursor: Timestamp) -> bool {
    match rfc3339_instant(p) {
        None => true,
        Some(i) => cursor.secs < i.0 || (cursor.secs == i.0 && cursor.nanos < i.1),
    }
}

/// Whether a row passes the range query: with no cursor every row does.
pub open spec fn spec_row_since(p: Seq<char>, cursor: Option<Timestamp>) -> bool {
    match cursor {
        None => true,
        Some(c) => spec_stamp_after(p, c),
    }
}

/// Decides `spec_row_since` on a stored stamp.
fn row_since(published_at: &String, cursor: &Option<Timestamp>) -> (r: bool)
    ensures
        r == spec_row_since(published_at@, *cursor),
{
    match cursor {
        None => true,
        Some(c) => match parse_rfc3339(published_at.as_str()) {
            None => true,
            Some(t) => timestamp_lt(c, &t),
        },
    }
}

impl Store {
    /// Both tables keyed: no id occurs twice.
    pub open spec fn wf(self) -> bool {
        sym_unique(self@.symptoms) && met_unique(self@.metrics)
    }

    /// An empty store.
    pub fn new() -> (r: Store)
        ensures
            r.wf(),
            r@.symptoms == Seq::<SymptomRowV>::empty(),
            r@.metrics == Seq::<MetricRowV>::empty(),
    {
        let r = Store { symptoms: Vec::new(), metrics: Vec::new() };
        proof {
            assert(r@.symptoms =~= Seq::<SymptomRowV>::empty());
            assert(r@.metrics =~= Seq::<MetricRowV>::empty());
        }
        r
    }

    /// Inserts a new symptom row; rejects a duplicate key.
    pub fn create_symptom(&mut self, symptom: db::Symptom) -> (r: Result<(), DbError>)
        requires
            old(self).wf(),
        ensures
            final(self).wf(),
            final(self)@.metrics == old(self)@.metrics,
            match r {
                Ok(()) => !sym_has_id(old(self)@.symptoms, symptom@.id) && final(self)@.symptoms
                    == old(self)@.symptoms.push(symptom@),
                Err(e) => {
                    &&& sym_has_id(old(self)@.symptoms, symptom@.id)
                    &&& final(self)@.symptoms == old(self)@.symptoms
                    &&& e matches DbError::FailedToCreateSymptom(m) && m@ == SEE_LOGS@
                },
            },
    {
        match find_symptom_index(&self.symptoms, &symptom.id) {
            Some(_) => Err(DbError::FailedToCreateSymptom(SEE_LOGS.to_owned())),
            None => {
                let ghost before = self.symptoms.deep_view();
                self.symptoms.push(symptom);
                proof {
                    assert(self.symptoms.deep_view() =~= before.push(
                        self.symptoms@[before.len() as int]@,
                    ));
                }
                Ok(())
            },
        }
    }

    /// Looks a symptom row up by id.
    pub fn get_symptom(&self, id: String) -> (r: Result<db::Symptom, DbError>)
        requires
            self.wf(),
        ensures
            match r {
                Ok(row) => sym_has_id(self@.symptoms, id@) && row@ == self@.symptoms[sym_index(
                    self@.symptoms,
                    id@,
                )],
                Err(e) => {
                    &&& !sym_has_id(self@.symptoms, id@)
                    &&& e matches DbError::FailedToReadSymptom(eid, m) && eid@ == id@ && m@
                        == "not found"@
                },
            },
    {
        match find_symptom_index(&self.symptoms, &id) {
            Some(i) => {
                let row = self.symptoms[i].clone();
                proof {
                    let k = sym_index(self@.symptoms, id@);
                    assert(0 <= k < self@.symptoms.len() && self@.symptoms[k].id == id@);
                    assert(k == i as int);
                }
                Ok(row)
            },
            None => Err(DbError::FailedToReadSymptom(id, "not found".to_owned())),
        }
    }

    /// Returns every symptom row published strictly after the cursor, or
    /// every row when there is none.
    pub fn get_symptoms(&self, published_since: Option<Timestamp>) -> (r: Result<
        Vec<db::Symptom>,
        DbError,
    >)
        ensures
            r matches Ok(v) && v.deep_view() == self@.symptoms.filter(
                |row: SymptomRowV| spec_row_since(row.published_at, published_since),
            ),
    {
        let ghost pred = |row: SymptomRowV| spec_row_since(row.published_at, published_since);
        let mut out: Vec<db::Symptom> = Vec::new();
        let mut i: usize = 0;
        while i < self.symptoms.len()
            invariant
                i <= self.symptoms.len(),
                out.deep_view() == self@.symptoms.subrange(0, i as int).filter(pred),
                pred == (|row: SymptomRowV| spec_row_since(row.published_at, published_since)),
            decreases self.symptoms.len() - i,
        {
            proof {
                reveal(Seq::filter);
                assert(self@.symptoms.subrange(0, i as int + 1).drop_last() =~= self@
                    .symptoms.subrange(0, i as int));
                assert(self@.symptoms.subrange(0, i as int + 1).last() == self@.symptoms[i as int]);
            }
            if row_since(&self.symptoms[i].published_at, &published_since) {
                let ghost before = out.deep_view();
                out.push(self.symptoms[i].clone());
                proof {
                    assert(out.deep_view() =~= before.push(self@.symptoms[i as int]));
                }
            }
            i = i + 1;
        }
        proof {
            assert(self@.symptoms.subrange(0, self.symptoms.len() as int) =~= self@.symptoms);
        }
        Ok(out)
    }

    /// Overwrites every field of the row carrying `desired.id`; rejects a
    /// missing key.
    pub fn update_symptom(&mut self, desired: db::Symptom) -> (r: Result<db::Symptom, DbError>)
        requires
            old(self).wf(),
        ensures
            final(self).wf(),
            final(self)@.metrics == old(self)@.metrics,
            match r {
                Ok(row) => {
                    &&& sym_has_id(old(self)@.symptoms, desired@.id)
                    &&& final(self)@.symptoms == sym_replace(old(self)@.symptoms, desired@)
                    &&& row@ == desired@
                },
                Err(e) => {
                    &&& !sym_has_id(old(self)@.symptoms, desired@.id)
                    &&& final(self)@.symptoms == old(self)@.symptoms
                    &&& e matches DbError::FailedToUpdateSymptom(eid, m) && eid@ == desired@.id
                        && m@ == SEE_LOGS@
                },
            },
    {
        match find_symptom_index(&self.symptoms, &desired.id) {
            Some(i) => {
                let returned = desired.clone();
                let ghost before = self.symptoms.deep_view();
                self.symptoms.set(i, desired);
                proof {
                    lemma_sym_replace_at(before, self.symptoms.deep_view(), i as int);
                }
                Ok(returned)
            },
            None => Err(DbError::FailedToUpdateSymptom(desired.id, SEE_LOGS.to_owned())),
        }
    }

    /// Inserts the row or overwrites the one already carrying its id.
    pub fn upsert_symptom(&mut self, desired: db::Symptom) -> (r: Result<(), DbError>)
        requires
            old(self).wf(),
        ensures
            final(self).wf(),
            final(self)@.metrics == old(self)@.metrics,
            r is Ok,
            final(self)@.symptoms == sym_upsert(old(self)@.symptoms, desired@),
    {
        match find_symptom_index(&self.symptoms, &desired.id) {
            Some(i) => {
                let ghost before = self.symptoms.deep_view();
                self.symptoms.set(i, desired);
                proof {
                    lemma_sym_replace_at(before, self.symptoms.deep_view(), i as int);
                }
                Ok(())
            },
            None => {
                let ghost before = self.symptoms.deep_view();
                self.symptoms.push(desired);
                proof {
                    assert(self.symptoms.deep_view() =~= before.push(
                        self.symptoms@[before.len() as int]@,
                    ));
                }
                Ok(())
            },
        }
    }

    /// Removes the symptom row carrying this id; rejects a missing key.
    pub fn delete_symptom(&mut self, id: String) -> (r: Result<(), DeleteSymptomError>)
        requires
            old(self).wf(),
        ensures
            final(self).wf(),
            final(self)@.metrics == old(self)@.metrics,
            match r {
                Ok(()) => sym_has_id(old(self)@.symptoms, id@) && final(self)@.symptoms == old(
                    self,
                )@.symptoms.remove(sym_index(old(self)@.symptoms, id@)),
                Err(e) => {
                    &&& !sym_has_id(old(self)@.symptoms, id@)
                    &&& final(self)@.symptoms == old(self)@.symptoms
                    &&& e matches DeleteSymptomError::SymptomNotFoud(eid) && eid@ == id@
                },
            },
    {
        match find_symptom_index(&self.symptoms, &id) {
            Some(i) => {
                let ghost before = self.symptoms.deep_view();
                self.symptoms.remove(i);
                proof {
                    let k = sym_index(before, id@);
                    assert(0 <= k < before.len() && before[k].id == id@);
                    assert(k == i as int);
                    assert(self.symptoms.deep_view() =~= before.remove(i as int));
                    assert forall|a: int, b: int|
                        0 <= a < b < self.symptoms.deep_view().len() implies self
                        .symptoms.deep_view()[a].id != self.symptoms.deep_view()[b].id by {
                        let r = before.remove(i as int);
                        assert(r[a] == if a < i as int {
                            before[a]
                        } else {
                            before[a + 1]
                        });
                        assert(r[b] == if b < i as int {
                            before[b]
                        } else {
                            before[b + 1]
                        });
                    }
                }
                Ok(())
            },
            None => Err(DeleteSymptomError::SymptomNotFoud(id)),
        }
    }
}

impl Store {
    /// Inserts a new metric row; rejects a duplicate key.
    pub fn create_metric(&mut self, metric: db::Metric) -> (r: Result<(), DbError>)
        requires
            old(self).wf(),
        ensures
            final(self).wf(),
            final(self)@.symptoms == old(self)@.symptoms,
            match r {
                Ok(()) => !met_has_id(old(self)@.metrics, metric@.id) && final(self)@.metrics
                    == old(self)@.metrics.push(metric@),
                Err(e) => {
                    &&& met_has_id(old(self)@.metrics, metric@.id)
                    &&& final(self)@.metrics == old(self)@.metrics
                    &&& e matches DbError::FailedToCreateMetric(m) && m@ == SEE_LOGS@
                },
            },
    {
        match find_metric_index(&self.metrics, &metric.id) {
            Some(_) => Err(DbError::FailedToCreateMetric(SEE_LOGS.to_owned())),
            None => {
                let ghost before = self.metrics.deep_view();
                self.metrics.push(metric);
                proof {
                    assert(self.metrics.deep_view() =~= before.push(
                        self.metrics@[before.len() as int]@,
                    ));
                }
                Ok(())
            },
        }
    }

    /// Looks a metric row up by id.
    pub fn get_metric(&self, id: String) -> (r: Result<db::Metric, DbError>)
        requires
            self.wf(),
        ensures
            match r {
                Ok(row) => met_has_id(self@.metrics, id@) && row@ == self@.metrics[met_index(
                    self@.metrics,
                    id@,
                )],
                Err(e) => {
                    &&& !met_has_id(self@.metrics, id@)
                    &&& e matches DbError::FailedToReadMetric(eid, m) && eid@ == id@ && m@
                        == "metric "@ + id@ + " not found"@
                },
            },
    {
        match find_metric_index(&self.metrics, &id) {
            Some(i) => {
                let row = self.metrics[i].clone();
                proof {
                    let k = met_index(self@.metrics, id@);
                    assert(0 <= k < self@.metrics.len() && self@.metrics[k].id == id@);
                    assert(k == i as int);
                }
                Ok(row)
            },
            None => {
                let mut m = "metric ".to_owned();
                m.append(id.as_str());
                m.append(" not found");
                Err(DbError::FailedToReadMetric(id, m))
            },
        }
    }

    /// Returns every metric row published strictly after the cursor, or
    /// every row when there is none.
    pub fn get_metrics(&self, published_since: Option<Timestamp>) -> (r: Result<
        Vec<db::Metric>,
        DbError,
    >)
        ensures
            r matches Ok(v) && v.deep_view() == self@.metrics.filter(
                |row: MetricRowV| spec_row_since(row.published_at, published_since),
            ),
    {
        let ghost pred = |row: MetricRowV| spec_row_since(row.published_at, published_since);
        let mut out: Vec<db::Metric> = Vec::new();
        let mut i: usize = 0;
        while i < self.metrics.len()
            invariant
                i <= self.metrics.len(),
                out.deep_view() == self@.metrics.subrange(0, i as int).filter(pred),
                pred == (|row: MetricRowV| spec_row_since(row.published_at, published_since)),
            decreases self.metrics.len() - i,
        {
            proof {
                reveal(Seq::filter);
                assert(self@.metrics.subrange(0, i as int + 1).drop_last() =~= self@
                    .metrics.subrange(0, i as int));
                assert(self@.metrics.subrange(0, i as int + 1).last() == self@.metrics[i as int]);
            }
            if row_since(&self.metrics[i].published_at, &published_since) {
                let ghost before = out.deep_view();
                out.push(self.metrics[i].clone());
                proof {
                    assert(out.deep_view() =~= before.push(self@.metrics[i as int]));
                }
            }
            i = i + 1;
        }
        proof {
            assert(self@.metrics.subrange(0, self.metrics.len() as int) =~= self@.metrics);
        }
        Ok(out)
    }

    /// Overwrites every field of the row carrying `desired.id`; rejects a
    /// missing key.
    pub fn update_metric(&mut self, desired: db::Metric) -> (r: Result<db::Metric, DbError>)
        requires
            old(self).wf(),
        ensures
            final(self).wf(),
            final(self)@.symptoms == old(self)@.symptoms,
            match r {
                Ok(row) => {
                    &&& met_has_id(old(self)@.metrics, desired@.id)
                    &&& final(self)@.metrics == met_replace(old(self)@.metrics, desired@)
                    &&& row@ == desired@
                },
                Err(e) => {
                    &&& !met_has_id(old(self)@.metrics, desired@.id)
                    &&& final(self)@.metrics == old(self)@.metrics
                    &&& e matches DbError::FailedToUpdateMetric(eid, m) && eid@ == desired@.id
                        && m@ == SEE_LOGS@
                },
            },
    {
        match find_metric_index(&self.metrics, &desired.id) {
            Some(i) => {
                let returned = desired.clone();
                let ghost before = self.metrics.deep_view();
                self.metrics.set(i, desired);
                proof {
                    lemma_met_replace_at(before, self.metrics.deep_view(), i as int);
                }
                Ok(returned)
            },
            None => Err(DbError::FailedToUpdateMetric(desired.id, SEE_LOGS.to_owned())),
        }
    }

    /// Inserts the row or overwrites the one already carrying its id.
    pub fn upsert_metric(&mut self, desired: db::Metric) -> (r: Result<(), DbError>)
        requires
            old(self).wf(),
        ensures
            final(self).wf(),
            final(self)@.symptoms == old(self)@.symptoms,
            r is Ok,
            final(self)@.metrics == met_upsert(old(self)@.metrics, desired@),
    {
        match find_metric_index(&self.metrics, &desired.id) {
            Some(i) => {
                let ghost before = self.metrics.deep_view();
                self.metrics.set(i, desired);
                proof {
                    lemma_met_replace_at(before, self.metrics.deep_view(), i as int);
                }
                Ok(())
            },
            None => {
                let ghost before = self.metrics.deep_view();
                self.metrics.push(desired);
                proof {
                    assert(self.metrics.deep_view() =~= before.push(
                        self.metrics@[before.len() as int]@,
                    ));
                }
                Ok(())
            },
        }
    }

    /// Removes the metric row carrying this id; rejects a missing key.
    pub fn delete_metric(&mut self, id: String) -> (r: Result<(), DeleteMetricError>)
        requires
            old(self).wf(),
        ensures
            final(self).wf(),
            final(self)@.symptoms == old(self)@.symptoms,
            match r {
                Ok(()) => met_has_id(old(self)@.metrics, id@) && final(self)@.metrics == old(
                    self,
                )@.metrics.remove(met_index(old(self)@.metrics, id@)),
                Err(e) => {
                    &&& !met_has_id(old(self)@.metrics, id@)
                    &&& final(self)@.metrics == old(self)@.metrics
                    &&& e matches DeleteMetricError::MetricNotFoud(eid) && eid@ == id@
                },
            },
    {
        match find_metric_index(&self.metrics, &id) {
            Some(i) => {
                let ghost before = self.metrics.deep_view();
                self.metrics.remove(i);
                proof {
                    let k = met_index(before, id@);
                    assert(0 <= k < before.len() && before[k].id == id@);
                    assert(k == i as int);
                    assert(self.metrics.deep_view() =~= before.remove(i as int));
                    assert forall|a: int, b: int|
                        0 <= a < b < self.metrics.deep_view().len() implies self
                        .metrics.deep_view()[a].id != self.metrics.deep_view()[b].id by {
                        let r = before.remove(i as int);
                        assert(r[a] == if a < i as int {
                            before[a]
                        } else {
                            before[a + 1]
                        });
                        assert(r[b] == if b < i as int {
                            before[b]
                        } else {
                            before[b + 1]
                        });
                    }
                }
                Ok(())
            },
            None => Err(DeleteMetricError::MetricNotFoud(id)),
        }
    }
}

/// Finds the position of the metric row with this id, if any.
fn find_metric_index(rows: &Vec<db::Metric>, id: &String) -> (r: Option<usize>)
    ensures
        match r {
            Some(i) => i < rows.len() && rows.deep_view()[i as int].id == id@,
            None => !met_has_id(rows.deep_view(), id@),
        },
{
    let mut i: usize = 0;
    while i < rows.len()
        invariant
            i <= rows.len(),
            forall|j: int| 0 <= j < i ==> rows.deep_view()[j].id != id@,
        decreases rows.len() - i,
    {
        if rows[i].id == *id {
            return Some(i);
        }
        i = i + 1;
    }
    None
}

/// Replacing one row in place, when its id already sits at that index and
/// nowhere else, is exactly the keyed overwrite, and keeps ids unique.
proof fn lemma_met_replace_at(before: Seq<MetricRowV>, after: Seq<MetricRowV>, i: int)
    requires
        met_unique(before),
        0 <= i < before.len(),
        after.len() == before.len(),
        forall|j: int| 0 <= j < before.len() && j != i ==> after[j] == before[j],
        after[i].id == before[i].id,
    ensures
        after == met_replace(before, after[i]),
        met_unique(after),
        met_has_id(before, after[i].id),
{
    let new = after[i];
    assert(met_replace(before, new).len() == before.len());
    assert forall|j: int| 0 <= j < before.len() implies met_replace(before, new)[j] == after[j] by {
        if j == i {
            assert(before[j].id == new.id);
        } else {
            assert(before[j].id != new.id);
        }
    }
    assert(after =~= met_replace(before, new));
}

/// Finds the position of the symptom row with this id, if any.
fn find_symptom_index(rows: &Vec<db::Symptom>, id: &String) -> (r: Option<usize>)
    ensures
        match r {
            Some(i) => i < rows.len() && rows.deep_view()[i as int].id == id@,
            None => !sym_has_id(rows.deep_view(), id@),
        },
{
    let mut i: usize = 0;
    while i < rows.len()
        invariant
            i <= rows.len(),
            forall|j: int| 0 <= j < i ==> rows.deep_view()[j].id != id@,
        decreases rows.len() - i,
    {
        if rows[i].id == *id {
            return Some(i);
        }
        i = i + 1;
    }
    None
}

/// Replacing one row in place, when its id already sits at that index and
/// nowhere else, is exactly the keyed overwrite, and keeps ids unique.
proof fn lemma_sym_replace_at(before: Seq<SymptomRowV>, after: Seq<SymptomRowV>, i: int)
    requires
        sym_unique(before),
        0 <= i < before.len(),
        after.len() == before.len(),
        after[i] == after[i],  // trigger aid
        forall|j: int| 0 <= j < before.len() && j != i ==> after[j] == before[j],
        after[i].id == before[i].id,
    ensures
        after == sym_replace(before, after[i]),
        sym_unique(after),
        sym_has_id(before, after[i].id),
{
    let new = after[i];
    assert(sym_replace(before, new).len() == before.len());
    assert forall|j: int| 0 <= j < before.len() implies sym_replace(before, new)[j] == after[j] by {
        if j == i {
            assert(before[j].id == new.id);
        } else {
            assert(before[j].id != new.id);
        }
    }
    assert(after =~= sym_replace(before, new));
}

} // verus!
