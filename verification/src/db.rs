//! The stored representation of entities and its mapping to the entity model.
//!
//! A stored row keeps every timestamp as a canonical RFC 3339 string and the
//! alias list as one comma-delimited string.  Mapping a row back to the
//! entity model can fail — a stored row is data and may be corrupted — and
//! every such failure is surfaced, never defaulted.

use vstd::prelude::*;
use vstd::string::StrSliceExecFns;
use vstd::string::StringExecFns;

use crate::domain;
use crate::timestamp::{rfc3339_canonical, rfc3339_instant, Timestamp};
use crate::timestamp::{format_rfc3339, parse_rfc3339};

verus! {

pub type DbUrl = String;

type ErrorReason = String;

/// Error message used towards public consumers to avoid leaking internal
/// details; the actual cause is assumed to have been logged.
pub const SEE_LOGS: &'static str = "see logs for further details on error";

/// A store operation that could not be carried out.
#[derive(Debug)]
pub enum DbError {
    // Symptoms
    FailedToCreateSymptom(ErrorReason),
    FailedToReadSymptom(String, ErrorReason),
    FailedToReadSymptoms(ErrorReason),
    FailedToUpdateSymptom(String, ErrorReason),
    FailedToUpsertSymptom(String, ErrorReason),
    // Metrics
    FailedToCreateMetric(ErrorReason),
    FailedToReadMetric(String, ErrorReason),
    FailedToReadMetrics(ErrorReason),
    FailedToUpdateMetric(String, ErrorReason),
    FailedToUpsertMetric(String, ErrorReason),
}

/// A symptom removal that could not be carried out.
#[derive(Debug)]
pub enum DeleteSymptomError {
    SymptomNotFoud(String),
    Other(String, ErrorReason),
}

/// A metric removal that could not be carried out.
#[derive(Debug)]
pub enum DeleteMetricError {
    MetricNotFoud(String),
    Other(String, ErrorReason),
}

/// A symptom as persisted: timestamps as canonical strings, aliases joined
/// into one comma-delimited string.
#[derive(Debug)]
pub struct Symptom {
    pub id: String,
    pub published_at: String,
    pub name: String,
    pub other_names: String,
    pub updated_at: String,
}

/// The mathematical value of a stored symptom row.
pub ghost struct SymptomRowV {
    pub id: Seq<char>,
    pub published_at: Seq<char>,
    pub name: Seq<char>,
    pub other_names: Seq<char>,
    pub updated_at: Seq<char>,
}

impl View for Symptom {
    type V = SymptomRowV;

    open spec fn view(&self) -> SymptomRowV {
        SymptomRowV {
            id: self.id@,
            published_at: self.published_at@,
            name: self.name@,
            other_names: self.other_names@,
            updated_at: self.updated_at@,
        }
    }
}

impl DeepView for Symptom {
    type V = SymptomRowV;

    open spec fn deep_view(&self) -> SymptomRowV {
        self.view()
    }
}

impl Clone for Symptom {
    fn clone(&self) -> (r: Self)
        ensures
            r@ == self@,
    {
        Symptom {
            id: self.id.clone(),
            published_at: self.published_at.clone(),
            name: self.name.clone(),
            other_names: self.other_names.clone(),
            updated_at: self.updated_at.clone(),
        }
    }
}

/// A metric as persisted.
#[derive(Debug)]
pub struct Metric {
    pub id: String,
    pub published_at: String,
    pub symptom_id: String,
    pub date: String,
    pub updated_at: String,
    pub intensity: String,
    pub notes: String,
}

/// The mathematical value of a stored metric row.
pub ghost struct MetricRowV {
    pub id: Seq<char>,
    pub published_at: Seq<char>,
    pub symptom_id: Seq<char>,
    pub date: Seq<char>,
    pub updated_at: Seq<char>,
    pub intensity: Seq<char>,
    pub notes: Seq<char>,
}

impl View for Metric {
    type V = MetricRowV;

    open spec fn view(&self) -> MetricRowV {
        MetricRowV {
            id: self.id@,
            published_at: self.published_at@,
            symptom_id: self.symptom_id@,
            date: self.date@,
            updated_at: self.updated_at@,
            intensity: self.intensity@,
            notes: self.notes@,
        }
    }
}

impl DeepView for Metric {
    type V = MetricRowV;

    open spec fn deep_view(&self) -> MetricRowV {
        self.view()
    }
}

impl Clone for Metric {
    fn clone(&self) -> (r: Self)
        ensures
            r@ == self@,
    {
        Metric {
            id: self.id.clone(),
            published_at: self.published_at.clone(),
            symptom_id: self.symptom_id.clone(),
            date: self.date.clone(),
            updated_at: self.updated_at.clone(),
            intensity: self.intensity.clone(),
            notes: self.notes.clone(),
        }
    }
}

// ---------------------------------------------------------------------------
// The comma-delimited alias list
// ---------------------------------------------------------------------------

/// The names joined with a single comma between consecutive entries.
pub open spec fn spec_join_names(ns: Seq<Seq<char>>) -> Seq<char>
    decreases ns.len(),
{
    if ns.len() == 0 {
        Seq::empty()
    } else if ns.len() == 1 {
        ns[0]
    } else {
        ns[0] + seq![','] + spec_join_names(ns.drop_first())
    }
}

/// The position of the first comma, or the length when there is none.
pub open spec fn spec_first_comma(s: Seq<char>) -> int
    decreases s.len(),
{
    if s.len() == 0 {
        0
    } else if s[0] == ',' {
        0
    } else {
        1 + spec_first_comma(s.drop_first())
    }
}

proof fn lemma_first_comma(s: Seq<char>)
    ensures
        0 <= spec_first_comma(s) <= s.len(),
        forall|j: int| 0 <= j < spec_first_comma(s) ==> s[j] != ',',
        spec_first_comma(s) < s.len() ==> s[spec_first_comma(s)] == ',',
    decreases s.len(),
{
    if s.len() == 0 {
    } else if s[0] == ',' {
    } else {
        lemma_first_comma(s.drop_first());
        assert forall|j: int| 0 <= j < spec_first_comma(s) implies s[j] != ',' by {
            if j > 0 {
                assert(s.drop_first()[j - 1] == s[j]);
            }
        }
        if spec_first_comma(s) < s.len() {
            assert(s.drop_first()[spec_first_comma(s) - 1] == s[spec_first_comma(s)]);
        }
    }
}

/// The segments of `s` delimited by commas, empty segments included,
/// matching how `split` behaves on a single-character pattern.
pub open spec fn spec_split_raw(s: Seq<char>) -> Seq<Seq<char>>
    decreases s.len(),
{
    let i = spec_first_comma(s);
    if !(0 <= i < s.len()) {
        seq![s]
    } else {
        seq![s.subrange(0, i)] + spec_split_raw(s.subrange(i + 1, s.len() as int))
    }
}

/// The non-empty segments of `s`: what a stored alias string decodes to.
/// Dropping empty segments makes the empty string decode to no aliases
/// rather than to one empty alias.
pub open spec fn spec_split_names(s: Seq<char>) -> Seq<Seq<char>> {
    spec_split_raw(s).filter(|n: Seq<char>| n.len() != 0)
}

/// Finds the first comma of `s`, reported as a character position; reports
/// the character count of `s` when it has none.
fn first_comma_index(s: &str) -> (i: usize)
    ensures
        i == spec_first_comma(s@),
{
    let n = s.unicode_len();
    let mut i: usize = 0;
    while i < n
        invariant
            n == s@.len(),
            i <= n,
            forall|j: int| 0 <= j < i ==> s@[j] != ',',
        decreases n - i,
    {
        let c = s.get_char(i);
        if c == ',' {
            proof {
                lemma_first_comma(s@);
            }
            return i;
        }
        i = i + 1;
    }
    proof {
        lemma_first_comma(s@);
    }
    i
}

/// Splits a stored alias string into its non-empty comma-delimited segments.
pub fn split_names(s: &String) -> (r: Vec<String>)
    ensures
        r.deep_view() == spec_split_names(s@),
{
    let mut segments: Vec<String> = Vec::new();
    let mut rest: &str = s.as_str();
    loop
        invariant_except_break
            spec_split_raw(s@) == segments.deep_view() + spec_split_raw(rest@),
        ensures
            spec_split_raw(s@) == segments.deep_view(),
        decreases rest@.len(),
    {
        let i = first_comma_index(rest);
        let n = rest.unicode_len();
        proof {
            lemma_first_comma(rest@);
        }
        let head = rest.substring_char(0, i);
        let ghost old_segments = segments.deep_view();
        segments.push(head.to_owned());
        proof {
            assert(segments.deep_view() =~= old_segments.push(head@));
        }
        if i == n {
            proof {
                assert(head@ =~= rest@);
                assert(spec_split_raw(rest@) =~= seq![rest@]);
                assert(segments.deep_view() =~= old_segments + seq![rest@]);
                assert(spec_split_raw(s@) =~= segments.deep_view());
            }
            break;
        }
        let next = rest.substring_char(i + 1, n);
        proof {
            assert(spec_split_raw(rest@) =~= seq![rest@.subrange(0, i as int)]
                + spec_split_raw(rest@.subrange(i + 1, rest@.len() as int)));
            assert(segments.deep_view() + spec_split_raw(next@) =~= old_segments
                + spec_split_raw(rest@));
        }
        rest = next;
    }
    let mut named: Vec<String> = Vec::new();
    let mut k: usize = 0;
    let ghost pred = |n: Seq<char>| n.len() != 0;
    while k < segments.len()
        invariant
            k <= segments.len(),
            named.deep_view() == segments.deep_view().subrange(0, k as int).filter(pred),
            pred == (|n: Seq<char>| n.len() != 0),
        decreases segments.len() - k,
    {
        let ghost prefix = segments.deep_view().subrange(0, k as int);
        let ghost next_prefix = segments.deep_view().subrange(0, k as int + 1);
        proof {
            reveal(Seq::filter);
            assert(next_prefix.drop_last() =~= prefix);
            assert(next_prefix.last() == segments.deep_view()[k as int]);
        }
        if !segments[k].as_str().is_empty() {
            let ghost old_named = named.deep_view();
            named.push(segments[k].clone());
            proof {
                assert(named.deep_view() =~= old_named.push(segments.deep_view()[k as int]));
            }
        }
        k = k + 1;
    }
    proof {
        assert(segments.deep_view().subrange(0, segments.len() as int) =~= segments.deep_view());
    }
    named
}

/// Joins alias names with commas into the stored form.
pub fn join_names(names: &Vec<String>) -> (r: String)
    ensures
        r@ == spec_join_names(names.deep_view()),
{
    let mut out = String::new();
    let mut i: usize = 0;
    while i < names.len()
        invariant
            i <= names.len(),
            out@ == spec_join_names(names.deep_view().subrange(0, i as int)),
        decreases names.len() - i,
    {
        if i > 0 {
            out.append(",");
        }
        out.append(names[i].as_str());
        proof {
            reveal_strlit(",");
            assert(","@ =~= seq![',']);
            lemma_join_push(names.deep_view().subrange(0, i as int), names.deep_view()[i as int]);
            assert(names.deep_view().subrange(0, i as int).push(names.deep_view()[i as int])
                =~= names.deep_view().subrange(0, i as int + 1));
        }
        i = i + 1;
    }
    proof {
        assert(names.deep_view().subrange(0, names.len() as int) =~= names.deep_view());
    }
    out
}

proof fn lemma_join_push(ns: Seq<Seq<char>>, x: Seq<char>)
    ensures
        spec_join_names(ns.push(x)) == if ns.len() == 0 {
            x
        } else {
            spec_join_names(ns) + seq![','] + x
        },
    decreases ns.len(),
{
    if ns.len() == 0 {
        assert(ns.push(x).len() == 1);
        assert(spec_join_names(ns.push(x)) == ns.push(x)[0]);
    } else if ns.len() == 1 {
        assert(ns.push(x).drop_first() =~= seq![x]);
        assert(spec_join_names(ns.push(x).drop_first()) == x);
        assert(ns.push(x)[0] == ns[0]);
        assert(spec_join_names(ns.push(x)) == ns[0] + seq![','] + x);
        assert(spec_join_names(ns) == ns[0]);
    } else {
        lemma_join_push(ns.drop_first(), x);
        assert(ns.push(x).drop_first() =~= ns.drop_first().push(x));
        assert(ns.push(x)[0] == ns[0]);
        assert(spec_join_names(ns.push(x)) == ns[0] + seq![','] + spec_join_names(
            ns.drop_first().push(x),
        ));
        assert(spec_join_names(ns.drop_first().push(x)) == spec_join_names(ns.drop_first())
            + seq![','] + x);
        assert(ns[0] + seq![','] + (spec_join_names(ns.drop_first()) + seq![','] + x) =~= (ns[0]
            + seq![','] + spec_join_names(ns.drop_first())) + seq![','] + x);
        assert(spec_join_names(ns) == ns[0] + seq![','] + spec_join_names(ns.drop_first()));
    }
}

/// Law (alias round-trip): joining names with commas and splitting again
/// returns exactly the original names, provided each is non-empty and
/// comma-free; in particular an empty list round-trips to an empty list,
/// not to a list holding one empty name.
pub proof fn lemma_alias_round_trip(ns: Seq<Seq<char>>)
    requires
        forall|i: int| 0 <= i < ns.len() ==> (#[trigger] ns[i]).len() > 0 && !ns[i].contains(','),
    ensures
        spec_split_names(spec_join_names(ns)) == ns,
    decreases ns.len(),
{
    let pred = |n: Seq<char>| n.len() != 0;
    reveal(Seq::filter);
    if ns.len() == 0 {
        let s = spec_join_names(ns);
        assert(s.len() == 0);
        lemma_first_comma(s);
        assert(spec_split_raw(s) =~= seq![s]);
        assert(seq![s].drop_last() =~= Seq::<Seq<char>>::empty());
        assert(seq![s].last() == s);
        assert(!pred(s));
        assert(Seq::<Seq<char>>::empty().filter(pred) =~= Seq::<Seq<char>>::empty());
        assert(seq![s].filter(pred) =~= Seq::<Seq<char>>::empty());
        assert(spec_split_names(s) =~= ns);
    } else if ns.len() == 1 {
        let s = spec_join_names(ns);
        assert(s == ns[0]);
        lemma_first_comma(s);
        assert(forall|j: int| 0 <= j < s.len() ==> s[j] != ',') by {
            assert(!ns[0].contains(','));
            assert(forall|j: int|
                0 <= j < s.len() && #[trigger] s[j] == ',' ==> ns[0].contains(','));
        }
        assert(spec_first_comma(s) == s.len());
        assert(spec_split_raw(s) =~= seq![s]);
        assert(seq![s].drop_last() =~= Seq::<Seq<char>>::empty());
        assert(pred(s));
        assert(spec_split_names(s) =~= seq![s]);
        assert(seq![s] =~= ns);
    } else {
        lemma_alias_round_trip(ns.drop_first());
        let head = ns[0];
        let rest = spec_join_names(ns.drop_first());
        let s = spec_join_names(ns);
        assert(s == head + seq![','] + rest);
        lemma_first_comma(s);
        let fc = spec_first_comma(s);
        assert(s[head.len() as int] == ',');
        assert(fc <= head.len()) by {
            if fc > head.len() {
                assert(s[head.len() as int] != ',');
            }
        }
        assert(fc >= head.len()) by {
            if fc < head.len() {
                assert(s[fc] == head[fc]);
                assert(head.contains(s[fc]));
                assert(!head.contains(','));
            }
        }
        assert(fc == head.len());
        assert(head.len() > 0);
        assert(0 <= fc < s.len());
        assert(spec_split_raw(s) == seq![s.subrange(0, fc)] + spec_split_raw(
            s.subrange(fc + 1, s.len() as int),
        ));
        assert(s.subrange(0, fc) =~= head);
        assert(s.subrange(fc + 1, s.len() as int) =~= rest);
        Seq::filter_distributes_over_add(seq![head], spec_split_raw(rest), pred);
        assert(seq![head].drop_last() =~= Seq::<Seq<char>>::empty());
        assert(seq![head].filter(pred) =~= seq![head]);
        assert(spec_split_names(s) =~= seq![head] + spec_split_names(rest));
        assert(seq![head] + ns.drop_first() =~= ns);
    }
}

// ---------------------------------------------------------------------------
// Row <-> entity model
// ---------------------------------------------------------------------------

/// The stored row a symptom maps to.
pub open spec fn spec_row_of_symptom(s: domain::SymptomV) -> SymptomRowV {
    SymptomRowV {
        id: s.id,
        published_at: rfc3339_canonical(s.published_at.secs as int, s.published_at.nanos as int),
        name: s.name,
        other_names: spec_join_names(s.other_names),
        updated_at: rfc3339_canonical(s.updated_at.secs as int, s.updated_at.nanos as int),
    }
}

/// The symptom a stored row decodes to, or `None` when either timestamp
/// string is unreadable.
pub open spec fn spec_symptom_of_row(r: SymptomRowV) -> Option<domain::SymptomV> {
    match (rfc3339_instant(r.published_at), rfc3339_instant(r.updated_at)) {
        (Some(p), Some(u)) => Some(
            domain::SymptomV {
                id: r.id,
                published_at: Timestamp { secs: p.0 as i64, nanos: p.1 as u32 },
                name: r.name,
                other_names: spec_split_names(r.other_names),
                updated_at: Timestamp { secs: u.0 as i64, nanos: u.1 as u32 },
            },
        ),
        _ => None,
    }
}

/// The stored row a metric maps to.
pub open spec fn spec_row_of_metric(m: domain::MetricV) -> MetricRowV {
    MetricRowV {
        id: m.id,
        published_at: rfc3339_canonical(m.published_at.secs as int, m.published_at.nanos as int),
        symptom_id: m.symptom_id,
        date: rfc3339_canonical(m.date.secs as int, m.date.nanos as int),
        updated_at: rfc3339_canonical(m.updated_at.secs as int, m.updated_at.nanos as int),
        intensity: domain::spec_intensity_str(m.intensity),
        notes: m.notes,
    }
}

/// The metric a stored row decodes to, or `None` when a timestamp string or
/// the intensity token is unreadable.
pub open spec fn spec_metric_of_row(r: MetricRowV) -> Option<domain::MetricV> {
    match (
        rfc3339_instant(r.published_at),
        rfc3339_instant(r.date),
        rfc3339_instant(r.updated_at),
        domain::spec_intensity_of(r.intensity),
    ) {
        (Some(p), Some(d), Some(u), Some(i)) => Some(
            domain::MetricV {
                id: r.id,
                published_at: Timestamp { secs: p.0 as i64, nanos: p.1 as u32 },
                symptom_id: r.symptom_id,
                date: Timestamp { secs: d.0 as i64, nanos: d.1 as u32 },
                updated_at: Timestamp { secs: u.0 as i64, nanos: u.1 as u32 },
                intensity: i,
                notes: r.notes,
            },
        ),
        _ => None,
    }
}

/// Builds the message reported for an unreadable stored field.
fn parse_error_message(prefix: &str, invalid: &String) -> (r: String)
    ensures
        r@ == prefix@ + invalid@,
{
    let mut m = prefix.to_owned();
    m.append(invalid.as_str());
    m
}

impl Symptom {
    /// Encodes a symptom into its stored row.
    pub fn from_domain(s: &domain::Symptom) -> (r: Symptom)
        requires
            s.published_at.wf(),
            s.updated_at.wf(),
        ensures
            r@ == spec_row_of_symptom(s@),
    {
        Symptom {
            id: s.id.clone(),
            published_at: format_rfc3339(&s.published_at),
            name: s.name.clone(),
            other_names: join_names(&s.other_names),
            updated_at: format_rfc3339(&s.updated_at),
        }
    }

    /// Decodes a stored row back into a symptom, reporting which timestamp
    /// field was unreadable.
    pub fn to_domain(&self) -> (r: Result<domain::Symptom, String>)
        ensures
            match r {
                Ok(d) => {
                    &&& spec_symptom_of_row(self@) == Some(d@)
                    &&& d.published_at.wf()
                    &&& d.updated_at.wf()
                },
                Err(e) => {
                    &&& spec_symptom_of_row(self@) is None
                    &&& rfc3339_instant(self@.published_at) is None ==> e@
                        == "failed to parse Symptom.published_at string into DateTime<Utc>, invalid value: "@
                        + self@.published_at
                },
            },
    {
        let published_at = match parse_rfc3339(self.published_at.as_str()) {
            Some(t) => t,
            None => {
                return Err(
                    parse_error_message(
                        "failed to parse Symptom.published_at string into DateTime<Utc>, invalid value: ",
                        &self.published_at,
                    ),
                );
            },
        };
        let updated_at = match parse_rfc3339(self.updated_at.as_str()) {
            Some(t) => t,
            None => {
                return Err(
                    parse_error_message(
                        "failed to parse Symptom.updated_at string into DateTime<Utc>, invalid value: ",
                        &self.updated_at,
                    ),
                );
            },
        };
        Ok(
            domain::Symptom {
                id: self.id.clone(),
                published_at,
                name: self.name.clone(),
                other_names: split_names(&self.other_names),
                updated_at,
            },
        )
    }
}

impl Metric {
    /// Encodes a metric into its stored row.
    pub fn from_domain(m: &domain::Metric) -> (r: Metric)
        requires
            m.published_at.wf(),
            m.date.wf(),
            m.updated_at.wf(),
        ensures
            r@ == spec_row_of_metric(m@),
    {
        Metric {
            id: m.id.clone(),
            published_at: format_rfc3339(&m.published_at),
            symptom_id: m.symptom_id.clone(),
            date: format_rfc3339(&m.date),
            updated_at: format_rfc3339(&m.updated_at),
            intensity: m.intensity.as_str().to_owned(),
            notes: m.notes.clone(),
        }
    }

    /// Decodes a stored row back into a metric, reporting which field was
    /// unreadable.
    pub fn to_domain(&self) -> (r: Result<domain::Metric, String>)
        ensures
            match r {
                Ok(d) => {
                    &&& spec_metric_of_row(self@) == Some(d@)
                    &&& d.published_at.wf()
                    &&& d.date.wf()
                    &&& d.updated_at.wf()
                },
                Err(_) => spec_metric_of_row(self@) is None,
            },
    {
        let published_at = match parse_rfc3339(self.published_at.as_str()) {
            Some(t) => t,
            None => {
                return Err(
                    parse_error_message(
                        "failed to parse Metric.published_at string into DateTime<Utc>, invalid value: ",
                        &self.published_at,
                    ),
                );
            },
        };
        let date = match parse_rfc3339(self.date.as_str()) {
            Some(t) => t,
            None => {
                return Err(
                    parse_error_message(
                        "failed to parse Metric.date string into DateTime<Utc>, invalid value: ",
                        &self.date,
                    ),
                );
            },
        };
        let updated_at = match parse_rfc3339(self.updated_at.as_str()) {
            Some(t) => t,
            None => {
                return Err(
                    parse_error_message(
                        "failed to parse Metric.updated_at string into DateTime<Utc>, invalid value: ",
                        &self.updated_at,
                    ),
                );
            },
        };
        let intensity = match domain::MetricIntensity::from_str(self.intensity.as_str()) {
            Ok(i) => i,
            Err(e) => {
                return Err(e);
            },
        };
        Ok(
            domain::Metric {
                id: self.id.clone(),
                published_at,
                symptom_id: self.symptom_id.clone(),
                date,
                updated_at,
                intensity,
                notes: self.notes.clone(),
            },
        )
    }
}

} // verus!
