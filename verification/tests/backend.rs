use animus_subject_sqlite::backend::SqliteBackend;
use animus_subject_sqlite::config::SqliteConfig;
use animus_subject_sqlite::id_gen::subject_id_of;
use animus_subject_sqlite::json::{CustomFields, JsonValue};
use animus_subject_sqlite::row::{subject_to_row, FetchedRow};
use animus_subject_sqlite::store::{BindValue, SqliteStore};
use animus_subject_sqlite::subject::{
    BackendError, ChangeKind, CustomFieldKind, HealthStatus, Subject, SubjectId, SubjectPatch,
    SubjectStatus,
};
use animus_subject_sqlite::time::Timestamp;
use serde_json::Value;

fn backend() -> SqliteBackend {
    SqliteBackend::new(
        SqliteConfig::new("x.db").with_kinds(vec!["task".to_string(), "bug\"s".to_string()]),
    )
}

fn at(secs: i64) -> Timestamp {
    Timestamp::new(secs, 0).unwrap()
}

fn subject(id: &str) -> Subject {
    Subject {
        id: SubjectId::new(id),
        kind: "task".into(),
        title: "T".into(),
        description: Some("old".into()),
        status: SubjectStatus::Ready,
        priority: None,
        assignee: Some("alice".into()),
        labels: vec!["a".into(), "b".into(), "a".into()],
        parent: None,
        children: vec![],
        url: None,
        created_at: at(100),
        updated_at: at(200),
        custom: CustomFields::new(),
        native_status: Some("Open".into()),
        status_metadata: JsonValue::Null,
        attachments: vec![],
    }
}

fn stored(id: &str) -> FetchedRow {
    FetchedRow {
        columns: subject_to_row(&subject(id)).unwrap(),
        attachments: Ok(vec![]),
    }
}

fn bound(value: &BindValue) -> Option<&str> {
    match value {
        BindValue::Text(text) => Some(text.as_str()),
        _ => None,
    }
}

#[test]
fn a_kind_that_is_not_served_is_refused() {
    let mut s = subject("sqlite:1");
    s.kind = "epic".into();
    assert_eq!(
        backend().create(s),
        Err(BackendError::InvalidRequest(
            "kind \"epic\" is not in this backend's served set [\"task\", \"bug\\\"s\"]".into()
        ))
    );
    let kinds = vec!["task".to_string(), "bug\"s".to_string()];
    assert_eq!(backend().served_kinds(), &kinds);
    // The list is printed as the standard library prints one.
    assert_eq!(format!("{:?}", kinds), "[\"task\", \"bug\\\"s\"]");
}

#[test]
fn an_own_id_is_kept_and_any_other_is_replaced() {
    let step = backend().create_with(subject("sqlite:mine"), 7, at(5)).unwrap();
    assert_eq!(step.id.as_str(), "sqlite:mine");
    for foreign in ["", "linear:ENG-1", "sqlit", "SQLITE:1"] {
        let step = backend().create_with(subject(foreign), 7, at(5)).unwrap();
        assert_eq!(step.id, subject_id_of(7));
        assert_eq!(bound(&step.statement.binds[0]), Some("sqlite:00000000000000000000000007"));
    }
}

#[test]
fn dates_that_are_left_out_are_filled_in() {
    let mut s = subject("sqlite:1");
    s.created_at = Timestamp::new(0, 5).unwrap();
    s.updated_at = at(-1);
    let step = backend().create_with(s, 0, at(1_000)).unwrap();
    assert_eq!(bound(&step.statement.binds[13]), Some("1970-01-01T00:16:40+00:00"));
    assert_eq!(bound(&step.statement.binds[14]), Some("1969-12-31T23:59:59+00:00"));
}

#[test]
fn a_subject_is_read_back_after_it_was_inserted() {
    let step = backend().create(subject("sqlite:1")).unwrap();
    let step = step.inserted(Ok(1)).unwrap();
    assert_eq!(step.statement, SqliteStore::get(&SubjectId::new("sqlite:1")));
    let (read, event) = step.fetched(Ok(Some(stored("sqlite:1")))).unwrap();
    assert_eq!(read, subject("sqlite:1"));
    assert_eq!(event.id, read.id);
    assert_eq!(event.change_kind, ChangeKind::Created);
    assert_eq!(event.subject, read);
    assert_eq!(event.previous_native_status, None);
    assert_eq!(event.previous_dispatch_label, None);
}

#[test]
fn an_insertion_that_fails_makes_the_backend_unavailable() {
    let step = backend().create(subject("sqlite:1")).unwrap();
    assert_eq!(
        step.inserted(Err("disk full".into())),
        Err(BackendError::Unavailable("disk full".into()))
    );
}

#[test]
fn an_id_of_another_backend_is_refused() {
    let id = SubjectId::new("linear:\"1");
    let refusal = || {
        BackendError::InvalidRequest(
            "subject id SubjectId(\"linear:\\\"1\") is not a sqlite id (expected `sqlite:<id>` prefix)"
                .into(),
        )
    };
    assert_eq!(backend().get(&id), Err(refusal()));
    assert_eq!(backend().update(&id, SubjectPatch::default()), Err(refusal()));
    let id = SubjectId::new("sqlite:1");
    assert_eq!(backend().get(&id), Ok(SqliteStore::get(&id)));
}

#[test]
fn a_patch_is_applied_to_the_stored_subject() {
    let mut row = stored("sqlite:1");
    row.columns.custom_fields = "{\"keep\":1,\"clear\":2,\"native_status\":\"field\"}".into();
    let mut custom = CustomFields::new();
    custom.insert("clear".into(), JsonValue::Null);
    custom.insert("absent".into(), JsonValue::Null);
    custom.insert("set".into(), JsonValue::Text("x".into()));
    custom.insert("native_status".into(), JsonValue::of(Value::from(vec![1])));
    let patch = SubjectPatch {
        status: Some(SubjectStatus::Done),
        assignee: Some(Some("bob".into())),
        labels_add: vec!["c".into(), "b".into(), "c".into()],
        labels_remove: vec!["a".into(), "z".into()],
        comment: Some("new".into()),
        custom,
    };
    let step = backend().update(&SubjectId::new("sqlite:1"), patch).unwrap();
    let step = step.fetched_at(Ok(Some(row)), at(300)).unwrap();
    assert_eq!(step.change_kind, ChangeKind::StatusChanged);
    assert_eq!(step.previous_native_status.as_deref(), Some("Open"));
    let values: Vec<Option<&str>> = step.statement.binds.iter().map(bound).collect();
    assert_eq!(
        values,
        [
            Some("done"),
            Some("bob"),
            Some("[\"b\",\"c\"]"),
            Some("new"),
            Some("{\"keep\":1,\"native_status\":\"field\",\"set\":\"x\"}"),
            Some("[1]"),
            Some("1970-01-01T00:05:00+00:00"),
            Some("sqlite:1"),
        ]
    );
}

#[test]
fn what_a_patch_does_not_name_stays() {
    let step = backend()
        .update(&SubjectId::new("sqlite:1"), SubjectPatch::default())
        .unwrap();
    let step = step.fetched_at(Ok(Some(stored("sqlite:1"))), at(300)).unwrap();
    assert_eq!(step.change_kind, ChangeKind::Updated);
    let values: Vec<Option<&str>> = step.statement.binds.iter().map(bound).collect();
    assert_eq!(
        values,
        [
            Some("ready"),
            Some("alice"),
            Some("[\"a\",\"b\",\"a\"]"),
            Some("old"),
            Some("{}"),
            Some("Open"),
            Some("1970-01-01T00:05:00+00:00"),
            Some("sqlite:1"),
        ]
    );
}

#[test]
fn null_clears_assignee_and_native_status() {
    let mut custom = CustomFields::new();
    custom.insert("native_status".into(), JsonValue::Null);
    let patch = SubjectPatch {
        status: Some(SubjectStatus::Ready),
        assignee: Some(None),
        custom,
        ..Default::default()
    };
    let step = backend().update(&SubjectId::new("sqlite:1"), patch).unwrap();
    let step = step.fetched_at(Ok(Some(stored("sqlite:1"))), at(300)).unwrap();
    // The status was given, but it is the one the subject had.
    assert_eq!(step.change_kind, ChangeKind::Updated);
    assert_eq!(step.statement.binds[1], BindValue::Null);
    assert_eq!(step.statement.binds[5], BindValue::Null);
}

#[test]
fn an_update_ends_where_the_database_fails() {
    let start = || {
        backend()
            .update(&SubjectId::new("sqlite:1"), SubjectPatch::default())
            .unwrap()
    };
    assert_eq!(
        start().fetched(Ok(None)),
        Err(BackendError::NotFound("sqlite:1".into()))
    );
    assert_eq!(
        start().fetched(Err("locked".into())),
        Err(BackendError::Unavailable("locked".into()))
    );
    let write = || start().fetched(Ok(Some(stored("sqlite:1")))).unwrap();
    assert_eq!(
        write().written(Ok(0)),
        Err(BackendError::NotFound("sqlite:1".into()))
    );
    assert_eq!(
        write().written(Err("locked".into())),
        Err(BackendError::Unavailable("locked".into()))
    );
    let read = write().written(Ok(1)).unwrap();
    let (subject, event) = read.fetched(Ok(Some(stored("sqlite:1")))).unwrap();
    assert_eq!(event.change_kind, ChangeKind::Updated);
    assert_eq!(event.previous_native_status.as_deref(), Some("Open"));
    assert_eq!(event.subject, subject);
}

#[test]
fn the_schema_names_what_is_offered() {
    let schema = backend().schema();
    assert_eq!(
        schema.status_values,
        vec![
            SubjectStatus::Ready,
            SubjectStatus::InProgress,
            SubjectStatus::Blocked,
            SubjectStatus::Done,
            SubjectStatus::Cancelled,
        ]
    );
    assert!(schema.native_status_values.is_empty());
    assert!(schema.status_dispatch_hints.is_empty());
    assert_eq!(schema.custom_fields.len(), 2);
    assert_eq!(schema.custom_fields[0].key, "priority");
    assert_eq!(schema.custom_fields[0].kind, CustomFieldKind::Number);
    assert_eq!(schema.custom_fields[1].key, "native_status");
    assert_eq!(schema.custom_fields[1].kind, CustomFieldKind::String);
    assert_eq!(schema.custom_fields[0].values, None);
    assert_eq!(schema.custom_fields[1].values, None);
}

#[test]
fn a_failing_database_is_reported_as_unhealthy() {
    let health = backend().health(Err("pool closed".into()));
    assert_eq!(health.status, HealthStatus::Unhealthy);
    assert_eq!(
        health.last_error.as_deref(), Some("pool closed")
    );
    assert_eq!(backend().health(Ok(())).status, HealthStatus::Healthy);
}
