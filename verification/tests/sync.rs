use health_tracker::all;
use health_tracker::db;
use health_tracker::errors::ApiError;
use health_tracker::metrics;
use health_tracker::store::Store;
use health_tracker::symptoms;
use health_tracker::timestamp::{format_rfc3339, parse_rfc3339, Timestamp};

fn ts(s: &str) -> Timestamp {
    parse_rfc3339(s).expect("test timestamp must parse")
}

fn sample_symptom(id: &str, updated_at: &str) -> symptoms::Symptom {
    symptoms::Symptom {
        id: id.to_string(),
        name: "headache".to_string(),
        other_names: vec![],
        updated_at: updated_at.to_string(),
    }
}

fn sample_metric(id: &str, intensity: &str) -> metrics::Metric {
    metrics::Metric {
        id: id.to_string(),
        symptom_id: "sym_aaaaaaaaaa".to_string(),
        date: "2023-08-06T00:00:00Z".to_string(),
        updated_at: "2023-08-06T00:00:00Z".to_string(),
        intensity: intensity.to_string(),
        notes: "".to_string(),
    }
}

#[test]
fn push_idempotence_reports_and_overwrites() {
    let mut store = Store::new();
    let payload = all::PushAll {
        symptoms: vec![sample_symptom("sym_aaaaaaaaaa", "2023-08-06T00:00:00Z")],
        metrics: vec![sample_metric("met_aaaaaaaaaa", "low")],
    };
    let p1 = ts("2023-08-07T08:00:00Z");
    let p2 = ts("2023-08-07T09:30:00Z");

    let first = all::push_all_at(&mut store, &payload, p1);
    assert_eq!(first.symptoms.successful, vec!["sym_aaaaaaaaaa".to_string()]);
    assert!(first.symptoms.failed.is_empty());
    assert_eq!(first.metrics.successful, vec!["met_aaaaaaaaaa".to_string()]);
    assert!(first.metrics.failed.is_empty());

    let second = all::push_all_at(&mut store, &payload, p2);
    assert_eq!(second.symptoms.successful, first.symptoms.successful);
    assert_eq!(second.symptoms.failed, first.symptoms.failed);
    assert_eq!(second.metrics.successful, first.metrics.successful);
    assert_eq!(second.metrics.failed, first.metrics.failed);

    // the stored rows carry the second push's stamp: overwrite, not merge
    assert_eq!(store.symptoms.len(), 1);
    assert_eq!(store.symptoms[0].published_at, format_rfc3339(&p2));
    assert_eq!(store.metrics.len(), 1);
    assert_eq!(store.metrics[0].published_at, format_rfc3339(&p2));
}

#[test]
fn push_partial_isolation() {
    let mut store = Store::new();
    let payload = all::PushAll {
        symptoms: vec![],
        metrics: vec![
            sample_metric("met_badbadbadb", "ferocious"),
            sample_metric("met_goodgoodgo", "medium"),
        ],
    };
    let p = ts("2023-08-07T08:00:00Z");
    let outcome = all::push_all_at(&mut store, &payload, p);
    // the bad item fails alone; the good one behind it still lands
    assert_eq!(outcome.metrics.failed, vec!["met_badbadbadb".to_string()]);
    assert_eq!(
        outcome.metrics.successful,
        vec!["met_goodgoodgo".to_string()]
    );
    assert_eq!(store.metrics.len(), 1);
    assert_eq!(store.metrics[0].id, "met_goodgoodgo");
}

#[test]
fn pull_cursor_filters_and_is_monotonic() {
    let mut store = Store::new();
    let early = ts("2023-08-01T00:00:00Z");
    let late = ts("2023-08-05T00:00:00Z");
    let payload_early = all::PushAll {
        symptoms: vec![sample_symptom("sym_earlyearly", "2023-07-31T00:00:00Z")],
        metrics: vec![],
    };
    let payload_late = all::PushAll {
        symptoms: vec![sample_symptom("sym_latelatela", "2023-08-04T00:00:00Z")],
        metrics: vec![sample_metric("met_latelatela", "high")],
    };
    all::push_all_at(&mut store, &payload_early, early);
    all::push_all_at(&mut store, &payload_late, late);

    // no cursor: everything
    let all_rows = all::read_all(&store, &None).unwrap();
    assert_eq!(all_rows.symptoms.len(), 2);
    assert_eq!(all_rows.metrics.len(), 1);

    // a cursor between the two pushes sees only the later rows
    let some = all::read_all(&store, &Some("2023-08-03T00:00:00Z".to_string())).unwrap();
    assert_eq!(some.symptoms.len(), 1);
    assert_eq!(some.symptoms[0].id, "sym_latelatela");
    assert_eq!(some.metrics.len(), 1);

    // a cursor after both sees nothing: a subset of the earlier result
    let none = all::read_all(&store, &Some("2023-08-06T00:00:00Z".to_string())).unwrap();
    assert_eq!(none.symptoms.len(), 0);
    assert_eq!(none.metrics.len(), 0);

    // the boundary is strict: a cursor equal to a row's stamp excludes it
    let boundary = all::read_all(&store, &Some(format_rfc3339(&late))).unwrap();
    assert_eq!(boundary.symptoms.len(), 0);

    // an unparsable cursor fails the whole request
    match all::read_all(&store, &Some("not-a-date".to_string())) {
        Err(ApiError::ValidationError(m)) => {
            assert_eq!(m, "'updated_at' must be a valid date (RFC3339)");
        }
        other => panic!("expected a validation error, got {other:?}"),
    }
}

#[test]
fn pull_fails_wholesale_on_poisoned_row() {
    let mut store = Store::new();
    let p = ts("2023-08-07T08:00:00Z");
    let payload = all::PushAll {
        symptoms: vec![sample_symptom("sym_aaaaaaaaaa", "2023-08-06T00:00:00Z")],
        metrics: vec![],
    };
    all::push_all_at(&mut store, &payload, p);
    // corrupt the stored row behind the adapter's back
    store.symptoms[0].updated_at = "garbage".to_string();
    match all::read_all(&store, &None) {
        Err(ApiError::StoreError(m)) => {
            assert_eq!(m, "see logs for further details on error");
        }
        other => panic!("expected the pull to fail, got {other:?}"),
    }
    // the unfiltered single-kind listing degrades to empty instead
    assert_eq!(symptoms::read_all_symptoms(&store).len(), 0);
}

#[test]
fn create_symptom_generates_prefixed_id() {
    let mut store = Store::new();
    let payload = symptoms::CreateSymptomRequestBody {
        id: None,
        name: "headache".to_string(),
        other_names: vec![],
        updated_at: "2023-08-06T00:00:00Z".to_string(),
    };
    let before = health_tracker::timestamp::now();
    let created = symptoms::create_symptom(&mut store, &payload).unwrap();
    let after = health_tracker::timestamp::now();
    assert!(created.id.starts_with("sym_"));
    assert_eq!(created.id.len(), 14);
    assert_eq!(created.name, "headache");
    assert!(created.other_names.is_empty());
    assert_eq!(store.symptoms.len(), 1);
    assert_eq!(store.symptoms[0].id, created.id);
    // the server stamped published_at with the current instant
    let stamped = parse_rfc3339(&store.symptoms[0].published_at).unwrap();
    assert!(before.secs <= stamped.secs && stamped.secs <= after.secs);

    // a malformed client stamp is rejected with a field-specific message
    let bad = symptoms::CreateSymptomRequestBody {
        id: None,
        name: "headache".to_string(),
        other_names: vec![],
        updated_at: "tomorrow".to_string(),
    };
    match symptoms::create_symptom(&mut store, &bad) {
        Err(ApiError::ValidationError(m)) => {
            assert_eq!(m, "'updated_at' must be a valid date (RFC3339)");
        }
        other => panic!("expected a validation error, got {other:?}"),
    }
    assert_eq!(store.symptoms.len(), 1);
}

#[test]
fn create_symptom_rejects_duplicate_id() {
    let mut store = Store::new();
    let payload = symptoms::CreateSymptomRequestBody {
        id: Some("sym_aaaaaaaaaa".to_string()),
        name: "headache".to_string(),
        other_names: vec![],
        updated_at: "2023-08-06T00:00:00Z".to_string(),
    };
    let p = ts("2023-08-07T08:00:00Z");
    let gen = "sym_unusedunu".to_string();
    assert!(symptoms::create_symptom_at(&mut store, &payload, p, &gen).is_ok());
    match symptoms::create_symptom_at(&mut store, &payload, p, &gen) {
        Err(ApiError::StoreError(m)) => {
            assert_eq!(m, "see logs for further details on error");
        }
        other => panic!("expected a store error, got {other:?}"),
    }
    assert_eq!(store.symptoms.len(), 1);
}

#[test]
fn delete_missing_metric_reports_not_found() {
    let mut store = Store::new();
    let p = ts("2023-08-07T08:00:00Z");
    let payload = all::PushAll {
        symptoms: vec![],
        metrics: vec![sample_metric("met_aaaaaaaaaa", "low")],
    };
    all::push_all_at(&mut store, &payload, p);

    match metrics::delete_metric(&mut store, &"met_doesnotexist".to_string()) {
        Err(ApiError::NotFoundError(m)) => {
            assert_eq!(m, "metric not found, nothing was deleted");
        }
        other => panic!("expected not-found, got {other:?}"),
    }
    // the store is unchanged
    assert_eq!(store.metrics.len(), 1);
    assert_eq!(store.metrics[0].id, "met_aaaaaaaaaa");

    // deleting the row that exists removes exactly it
    let deleted = metrics::delete_metric(&mut store, &"met_aaaaaaaaaa".to_string()).unwrap();
    assert_eq!(deleted, "met_aaaaaaaaaa");
    assert!(store.metrics.is_empty());
}

#[test]
fn partial_update_preserves_untouched_fields() {
    let mut store = Store::new();
    let p1 = ts("2023-08-07T08:00:00Z");
    let payload = all::PushAll {
        symptoms: vec![],
        metrics: vec![sample_metric("met_aaaaaaaaaa", "medium")],
    };
    all::push_all_at(&mut store, &payload, p1);

    let p2 = ts("2023-08-07T09:00:00Z");
    let update = metrics::UpdateMetricRequestBody {
        symptom_id: None,
        date: None,
        updated_at: None,
        intensity: None,
        notes: Some("only the notes change".to_string()),
    };
    let updated =
        metrics::update_metric_at(&mut store, &"met_aaaaaaaaaa".to_string(), &update, p2).unwrap();
    assert_eq!(updated.notes, "only the notes change");
    assert_eq!(updated.date, "2023-08-06T00:00:00+00:00");
    assert_eq!(updated.updated_at, "2023-08-06T00:00:00+00:00");
    assert_eq!(updated.intensity, "medium");
    assert_eq!(updated.symptom_id, "sym_aaaaaaaaaa");
    // published_at was re-stamped on the stored row
    assert_eq!(store.metrics[0].published_at, format_rfc3339(&p2));
    assert_eq!(store.metrics[0].notes, "only the notes change");
    assert_eq!(store.metrics[0].intensity, "medium");

    // updating a missing metric changes nothing and is reported distinctly
    match metrics::update_metric_at(&mut store, &"met_doesnotexist".to_string(), &update, p2) {
        Err(ApiError::NotFoundError(_)) => {}
        other => panic!("expected not-found, got {other:?}"),
    }

    // a malformed supplied intensity is rejected
    let bad = metrics::UpdateMetricRequestBody {
        symptom_id: None,
        date: None,
        updated_at: None,
        intensity: Some("harsh".to_string()),
        notes: None,
    };
    match metrics::update_metric_at(&mut store, &"met_aaaaaaaaaa".to_string(), &bad, p2) {
        Err(ApiError::ValidationError(m)) => assert_eq!(m, "invalid 'intensity'"),
        other => panic!("expected a validation error, got {other:?}"),
    }
}

#[test]
fn update_symptom_overlays_supplied_fields() {
    let mut store = Store::new();
    let p1 = ts("2023-08-07T08:00:00Z");
    let payload = all::PushAll {
        symptoms: vec![sample_symptom("sym_aaaaaaaaaa", "2023-08-06T00:00:00Z")],
        metrics: vec![],
    };
    all::push_all_at(&mut store, &payload, p1);

    let p2 = ts("2023-08-07T09:00:00Z");
    let update = symptoms::UpdateSymptomRequestBody {
        name: Some("migraine".to_string()),
        other_names: None,
        updated_at: Some("2023-08-07T06:00:00Z".to_string()),
    };
    let updated =
        symptoms::update_symptom_at(&mut store, &"sym_aaaaaaaaaa".to_string(), &update, p2)
            .unwrap();
    assert_eq!(updated.name, "migraine");
    assert!(updated.other_names.is_empty());
    assert_eq!(updated.updated_at, "2023-08-07T06:00:00+00:00");
    assert_eq!(store.symptoms[0].name, "migraine");
    assert_eq!(store.symptoms[0].published_at, format_rfc3339(&p2));
}

#[test]
fn store_update_rejects_missing_key() {
    let mut store = Store::new();
    let row = db::Symptom {
        id: "sym_aaaaaaaaaa".to_string(),
        published_at: "2023-08-07T08:00:00+00:00".to_string(),
        name: "headache".to_string(),
        other_names: "".to_string(),
        updated_at: "2023-08-06T00:00:00+00:00".to_string(),
    };
    match store.update_symptom(row.clone()) {
        Err(db::DbError::FailedToUpdateSymptom(id, m)) => {
            assert_eq!(id, "sym_aaaaaaaaaa");
            assert_eq!(m, "see logs for further details on error");
        }
        other => panic!("expected an update failure, got {other:?}"),
    }
    // upsert inserts where update refuses, then replaces in place
    assert!(store.upsert_symptom(row.clone()).is_ok());
    assert_eq!(store.symptoms.len(), 1);
    let mut replacement = row.clone();
    replacement.name = "migraine".to_string();
    assert!(store.upsert_symptom(replacement).is_ok());
    assert_eq!(store.symptoms.len(), 1);
    assert_eq!(store.symptoms[0].name, "migraine");
}
