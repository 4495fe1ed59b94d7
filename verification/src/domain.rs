//! The in-memory entity model: symptoms and time-stamped metrics.
//!
//! Both entities carry two timestamps: `published_at`, stamped by the server
//! on every server-side write, and `updated_at`, supplied by the client.

use vstd::prelude::*;

use crate::ids;
use crate::timestamp::Timestamp;

verus! {

pub type SymptomId = String;

pub type SymptomName = String;

pub type SymptomOtherNames = Vec<SymptomName>;

pub type MetricId = String;

pub type MetricNotes = String;

/// Copies a list of names element by element.
pub fn clone_names(v: &Vec<String>) -> (r: Vec<String>)
    ensures
        r@ == v@,
{
    let mut out: Vec<String> = Vec::new();
    let mut i: usize = 0;
    while i < v.len()
        invariant
            i <= v.len(),
            out@ == v@.subrange(0, i as int),
        decreases v.len() - i,
    {
        out.push(v[i].clone());
        proof {
            assert(out@ =~= v@.subrange(0, i as int + 1));
        }
        i = i + 1;
    }
    proof {
        assert(v@.subrange(0, v.len() as int) =~= v@);
    }
    out
}

/// A health symptom tracked across devices.
#[derive(Debug)]
pub struct Symptom {
    pub id: SymptomId,
    /// when the symptom was last updated in the server
    pub published_at: Timestamp,
    pub name: SymptomName,
    pub other_names: SymptomOtherNames,
    /// when the symptom was last updated in a client
    pub updated_at: Timestamp,
}

/// The mathematical value of a symptom.
pub ghost struct SymptomV {
    pub id: Seq<char>,
    pub published_at: Timestamp,
    pub name: Seq<char>,
    pub other_names: Seq<Seq<char>>,
    pub updated_at: Timestamp,
}

impl View for Symptom {
    type V = SymptomV;

    open spec fn view(&self) -> SymptomV {
        SymptomV {
            id: self.id@,
            published_at: self.published_at,
            name: self.name@,
            other_names: self.other_names.deep_view(),
            updated_at: self.updated_at,
        }
    }
}

impl Clone for Symptom {
    fn clone(&self) -> (r: Self)
        ensures
            r@ == self@,
    {
        let r = Symptom {
            id: self.id.clone(),
            published_at: self.published_at,
            name: self.name.clone(),
            other_names: clone_names(&self.other_names),
            updated_at: self.updated_at,
        };
        proof {
            assert(r.other_names.deep_view() =~= self.other_names.deep_view());
        }
        r
    }
}

/// A single measurement of a symptom's intensity at some instant.
#[derive(Debug)]
pub struct Metric {
    pub id: MetricId,
    /// when the metric was last updated in the server
    pub published_at: Timestamp,
    pub symptom_id: SymptomId,
    pub date: Timestamp,
    /// when the metric was last updated in a client
    pub updated_at: Timestamp,
    pub intensity: MetricIntensity,
    pub notes: MetricNotes,
}

/// The mathematical value of a metric.
pub ghost struct MetricV {
    pub id: Seq<char>,
    pub published_at: Timestamp,
    pub symptom_id: Seq<char>,
    pub date: Timestamp,
    pub updated_at: Timestamp,
    pub intensity: MetricIntensity,
    pub notes: Seq<char>,
}

impl View for Metric {
    type V = MetricV;

    open spec fn view(&self) -> MetricV {
        MetricV {
            id: self.id@,
            published_at: self.published_at,
            symptom_id: self.symptom_id@,
            date: self.date,
            updated_at: self.updated_at,
            intensity: self.intensity,
            notes: self.notes@,
        }
    }
}

impl Clone for Metric {
    fn clone(&self) -> (r: Self)
        ensures
            r@ == self@,
    {
        Metric {
            id: self.id.clone(),
            published_at: self.published_at,
            symptom_id: self.symptom_id.clone(),
            date: self.date,
            updated_at: self.updated_at,
            intensity: self.intensity,
            notes: self.notes.clone(),
        }
    }
}

/// The closed set of intensities a metric may record.
#[derive(Clone, Copy, Debug, PartialEq, Eq, Structural)]
pub enum MetricIntensity {
    Low,
    Medium,
    High,
}

/// The external token for each intensity: one of the lowercase literals
/// `low`, `medium`, `high`.
pub open spec fn spec_intensity_str(i: MetricIntensity) -> Seq<char> {
    match i {
        MetricIntensity::Low => "low"@,
        MetricIntensity::Medium => "medium"@,
        MetricIntensity::High => "high"@,
    }
}

/// The intensity a token denotes, or `None` for any other string;
/// matching is case-sensitive.
pub open spec fn spec_intensity_of(s: Seq<char>) -> Option<MetricIntensity> {
    if s == "low"@ {
        Some(MetricIntensity::Low)
    } else if s == "medium"@ {
        Some(MetricIntensity::Medium)
    } else if s == "high"@ {
        Some(MetricIntensity::High)
    } else {
        None
    }
}

impl MetricIntensity {
    /// Renders the intensity as its external token.
    pub fn as_str(&self) -> (r: &'static str)
        ensures
            r@ == spec_intensity_str(*self),
    {
        match self {
            MetricIntensity::Low => "low",
            MetricIntensity::Medium => "medium",
            MetricIntensity::High => "high",
        }
    }

    /// Reads an external token, rejecting with a message anything outside
    /// the closed set.
    pub fn from_str(s: &str) -> (r: Result<MetricIntensity, String>)
        ensures
            match r {
                Ok(i) => spec_intensity_of(s@) == Some(i),
                Err(e) => {
                    &&& spec_intensity_of(s@) is None
                    &&& e@ == s@ + " is not a supported intensity"@
                },
            },
    {
        let owned = s.to_owned();
        if owned == "low".to_owned() {
            Ok(MetricIntensity::Low)
        } else if owned == "medium".to_owned() {
            Ok(MetricIntensity::Medium)
        } else if owned == "high".to_owned() {
            Ok(MetricIntensity::High)
        } else {
            let mut message = s.to_owned();
            message.append(" is not a supported intensity");
            Err(message)
        }
    }
}

/// Produces a fresh symptom identifier: `sym_` plus ten random
/// lowercase-alphanumeric characters.
pub fn generate_symptom_id() -> (r: String)
    ensures
        r@.len() == 14,
        r@.subrange(0, 4) == "sym_"@,
        forall|i: int| 4 <= i < 14 ==> ids::id_alphabet().contains(#[trigger] r@[i]),
{
    proof {
        reveal_strlit("sym_");
    }
    ids::generate_id("sym_")
}

/// Produces a fresh metric identifier: `met_` plus ten random
/// lowercase-alphanumeric characters.
pub fn generate_metric_id() -> (r: String)
    ensures
        r@.len() == 14,
        r@.subrange(0, 4) == "met_"@,
        forall|i: int| 4 <= i < 14 ==> ids::id_alphabet().contains(#[trigger] r@[i]),
{
    proof {
        reveal_strlit("met_");
    }
    ids::generate_id("met_")
}

} // verus!
