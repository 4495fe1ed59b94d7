use health_tracker::db;
use health_tracker::domain;
use health_tracker::domain::MetricIntensity;
use health_tracker::laws;
use health_tracker::metrics;
use health_tracker::symptoms;
use health_tracker::timestamp::{format_rfc3339, parse_rfc3339, Timestamp};

fn ts(s: &str) -> Timestamp {
    parse_rfc3339(s).expect("test timestamp must parse")
}

#[test]
fn api_symptom_to_domain_symptom() {
    let api_symptom = symptoms::Symptom {
        id: "sym_aaaaaaaaaa".to_string(),
        name: "symptom A".to_string(),
        other_names: vec![
            "symptom A name b".to_string(),
            "symptom A name c".to_string(),
        ],
        updated_at: "2023-08-07T07:34:55Z".to_string(),
    };

    let published_at = ts("2023-08-07T08:00:00Z");
    let domain_symptom = symptoms::api_symptom_to_domain(api_symptom, published_at).unwrap();
    assert_eq!(domain_symptom.id, "sym_aaaaaaaaaa".to_string());
    assert_eq!(domain_symptom.name, "symptom A".to_string());
    assert_eq!(
        domain_symptom.other_names,
        vec![
            "symptom A name b".to_string(),
            "symptom A name c".to_string()
        ]
    );
    let expected_updated_at = ts("2023-08-07T07:34:55Z");
    assert_eq!(domain_symptom.updated_at, expected_updated_at);
}

#[test]
fn domain_symptom_to_api_symptom() {
    let domain_symptom = domain::Symptom {
        id: "sym_aaaaaaaaaa".to_string(),
        published_at: ts("2023-08-07T08:00:00Z"),
        name: "symptom A".to_string(),
        other_names: vec![
            "symptom A name b".to_string(),
            "symptom A name c".to_string(),
        ],
        updated_at: ts("2023-08-07T07:34:55Z"),
    };

    let api_symptom = symptoms::Symptom::from_domain(&domain_symptom);
    assert_eq!(api_symptom.id, "sym_aaaaaaaaaa".to_string());
    assert_eq!(api_symptom.name, "symptom A".to_string());
    assert_eq!(
        api_symptom.other_names,
        vec![
            "symptom A name b".to_string(),
            "symptom A name c".to_string()
        ]
    );
    assert_eq!(api_symptom.updated_at, "2023-08-07T07:34:55+00:00");
}

#[test]
fn api_metric_to_domain_metric() {
    let api_metric = metrics::Metric {
        id: "met_aaaaaaaaaa".to_string(),
        symptom_id: "sym_aaaaaaaaaa".to_string(),
        updated_at: "2023-08-07T07:34:55Z".to_string(),
        date: "2023-08-06T00:00:00Z".to_string(),
        intensity: "high".to_string(),
        notes: "a decent note".to_string(),
    };

    let published_at = ts("2023-08-07T08:00:00Z");
    let domain_metric = metrics::api_metric_to_domain(api_metric, published_at).unwrap();
    assert_eq!(domain_metric.id, "met_aaaaaaaaaa".to_string());
    assert_eq!(domain_metric.symptom_id, "sym_aaaaaaaaaa".to_string());
    let expected_updated_at = ts("2023-08-07T07:34:55Z");
    assert_eq!(domain_metric.updated_at, expected_updated_at);
    let expected_date = ts("2023-08-06T00:00:00Z");
    assert_eq!(domain_metric.date, expected_date);
    assert_eq!(domain_metric.intensity, MetricIntensity::High);
    assert_eq!(domain_metric.notes, "a decent note".to_string());
}

#[test]
fn domain_metric_to_api_metric() {
    let domain_metric = domain::Metric {
        id: "met_aaaaaaaaaa".to_string(),
        published_at: ts("2023-08-07T08:00:00Z"),
        symptom_id: "sym_aaaaaaaaaa".to_string(),
        updated_at: ts("2023-08-07T07:34:55Z"),
        date: ts("2023-08-06T00:00:00Z"),
        intensity: MetricIntensity::High,
        notes: "a decent note".to_string(),
    };

    let api_metric = metrics::Metric::from_domain(&domain_metric);
    assert_eq!(api_metric.id, "met_aaaaaaaaaa".to_string());
    assert_eq!(api_metric.symptom_id, "sym_aaaaaaaaaa".to_string());
    assert_eq!(api_metric.updated_at, "2023-08-07T07:34:55+00:00");
    assert_eq!(api_metric.date, "2023-08-06T00:00:00+00:00");
    assert_eq!(api_metric.intensity, "high".to_string());
    assert_eq!(api_metric.notes, "a decent note".to_string());
}

#[test]
fn db_symptom_to_domain_symptom() {
    let db_symptom = db::Symptom {
        id: "sym_aaaaaaaaaa".to_string(),
        published_at: "2023-08-07T08:00:00+00:00".to_string(),
        name: "symptom A".to_string(),
        other_names: "symptom A name b,symptom A name c".to_string(),
        updated_at: "2023-08-07T07:34:55+01:00".to_string(),
    };

    let domain_symptom = db_symptom.to_domain().unwrap();
    assert_eq!(domain_symptom.id, "sym_aaaaaaaaaa".to_string());
    assert_eq!(domain_symptom.name, "symptom A".to_string());
    assert_eq!(
        domain_symptom.other_names,
        vec![
            "symptom A name b".to_string(),
            "symptom A name c".to_string()
        ]
    );
}

#[test]
fn timestamp_format_parses_back() {
    let t = ts("2023-08-07T07:34:55+01:00");
    // the offset is normalized away: the instant is kept
    let s = format_rfc3339(&t);
    assert_eq!(s, "2023-08-07T06:34:55+00:00");
    assert_eq!(parse_rfc3339(&s), Some(t));
    // fractional seconds survive the round trip
    let f = ts("2023-08-07T07:34:55.250Z");
    let sf = format_rfc3339(&f);
    assert_eq!(parse_rfc3339(&sf), Some(f));
    // garbage does not parse
    assert_eq!(parse_rfc3339("not a date"), None);
    assert_eq!(parse_rfc3339(""), None);
    assert_eq!(parse_rfc3339("2023-13-01T00:00:00Z"), None);
}

#[test]
fn symptom_round_trip_is_stable() {
    let api_symptom = symptoms::Symptom {
        id: "sym_aaaaaaaaaa".to_string(),
        name: "symptom A".to_string(),
        other_names: vec!["alias b".to_string()],
        updated_at: "2023-08-07T07:34:55+01:00".to_string(),
    };
    let p = ts("2023-08-07T08:00:00Z");
    let (first, second) = laws::symptom_round_trip(&api_symptom, p).unwrap();
    // the first pass normalized the offset
    assert_eq!(first.updated_at, "2023-08-07T06:34:55+00:00");
    // the second pass is byte-identical
    assert_eq!(second.id, first.id);
    assert_eq!(second.name, first.name);
    assert_eq!(second.other_names, first.other_names);
    assert_eq!(second.updated_at, first.updated_at);
    // an unparsable stamp yields no round trip at all
    let bad = symptoms::Symptom {
        id: "sym_bbbbbbbbbb".to_string(),
        name: "symptom B".to_string(),
        other_names: vec![],
        updated_at: "yesterday".to_string(),
    };
    assert!(laws::symptom_round_trip(&bad, p).is_none());
}

#[test]
fn metric_round_trip_is_stable() {
    let api_metric = metrics::Metric {
        id: "met_aaaaaaaaaa".to_string(),
        symptom_id: "sym_aaaaaaaaaa".to_string(),
        date: "2023-08-06T01:30:00+02:00".to_string(),
        updated_at: "2023-08-07T07:34:55.5Z".to_string(),
        intensity: "medium".to_string(),
        notes: "note".to_string(),
    };
    let p = ts("2023-08-07T08:00:00Z");
    let (first, second) = laws::metric_round_trip(&api_metric, p).unwrap();
    assert_eq!(first.date, "2023-08-05T23:30:00+00:00");
    assert_eq!(second.id, first.id);
    assert_eq!(second.symptom_id, first.symptom_id);
    assert_eq!(second.date, first.date);
    assert_eq!(second.updated_at, first.updated_at);
    assert_eq!(second.intensity, first.intensity);
    assert_eq!(second.notes, first.notes);
}

#[test]
fn intensity_tokens() {
    assert_eq!(MetricIntensity::from_str("low"), Ok(MetricIntensity::Low));
    assert_eq!(
        MetricIntensity::from_str("medium"),
        Ok(MetricIntensity::Medium)
    );
    assert_eq!(MetricIntensity::from_str("high"), Ok(MetricIntensity::High));
    // matching is case-sensitive and closed
    assert_eq!(
        MetricIntensity::from_str("High"),
        Err("High is not a supported intensity".to_string())
    );
    assert_eq!(
        MetricIntensity::from_str("wild"),
        Err("wild is not a supported intensity".to_string())
    );
    assert_eq!(MetricIntensity::Low.as_str(), "low");
    assert_eq!(MetricIntensity::Medium.as_str(), "medium");
    assert_eq!(MetricIntensity::High.as_str(), "high");
}

#[test]
fn generated_ids_carry_prefix_and_alphabet() {
    let sym = domain::generate_symptom_id();
    assert_eq!(sym.len(), 14);
    assert!(sym.starts_with("sym_"));
    assert!(sym[4..]
        .chars()
        .all(|c| c.is_ascii_lowercase() || c.is_ascii_digit()));
    let met = domain::generate_metric_id();
    assert_eq!(met.len(), 14);
    assert!(met.starts_with("met_"));
    assert!(met[4..]
        .chars()
        .all(|c| c.is_ascii_lowercase() || c.is_ascii_digit()));
    // two draws almost surely differ; equality would mean a broken source
    assert_ne!(domain::generate_symptom_id(), domain::generate_symptom_id());
}

#[test]
fn alias_list_round_trips_through_storage() {
    let names = vec!["alias b".to_string(), "alias c".to_string()];
    let joined = db::join_names(&names);
    assert_eq!(joined, "alias b,alias c");
    assert_eq!(db::split_names(&joined), names);
    // an empty list round-trips to an empty list, not to one empty alias
    let empty: Vec<String> = vec![];
    let joined_empty = db::join_names(&empty);
    assert_eq!(joined_empty, "");
    assert_eq!(db::split_names(&joined_empty), empty);
    // empty segments are dropped on split
    assert_eq!(
        db::split_names(&",alias b,,".to_string()),
        vec!["alias b".to_string()]
    );
}

#[test]
fn metric_row_with_bad_intensity_does_not_decode() {
    let row = db::Metric {
        id: "met_aaaaaaaaaa".to_string(),
        published_at: "2023-08-07T08:00:00+00:00".to_string(),
        symptom_id: "sym_aaaaaaaaaa".to_string(),
        date: "2023-08-06T00:00:00+00:00".to_string(),
        updated_at: "2023-08-07T07:34:55+00:00".to_string(),
        intensity: "severe".to_string(),
        notes: "".to_string(),
    };
    assert_eq!(
        row.to_domain().unwrap_err(),
        "severe is not a supported intensity"
    );
    let bad_stamp = db::Symptom {
        id: "sym_aaaaaaaaaa".to_string(),
        published_at: "corrupted".to_string(),
        name: "symptom A".to_string(),
        other_names: "".to_string(),
        updated_at: "2023-08-07T07:34:55+00:00".to_string(),
    };
    assert_eq!(
        bad_stamp.to_domain().unwrap_err(),
        "failed to parse Symptom.published_at string into DateTime<Utc>, invalid value: corrupted"
    );
}
