use animus_subject_sqlite::json::{CustomFields, JsonValue};
use animus_subject_sqlite::row::{FetchedRow, SubjectRow};
use animus_subject_sqlite::store::{
    BindValue, SqliteStore, DEFAULT_LIMIT, MAX_LIMIT,
};
use animus_subject_sqlite::subject::{
    BackendError, Subject, SubjectFilter, SubjectId, SubjectStatus,
};
use animus_subject_sqlite::time::Timestamp;
use serde_json::Value;

const INSERT_SQL: &str = "INSERT INTO subjects (id, kind, title, body, status, priority, assignee, \
    labels, parent_id, custom_fields, native_status, status_metadata, attachments, created_at, \
    updated_at) VALUES (?, ?, ?, ?, ?, ?, ?, ?, ?, ?, ?, ?, ?, ?, ?)";

const SELECT_SQL: &str = "SELECT id, kind, title, body, status, priority, assignee, labels, \
    parent_id, custom_fields, native_status, status_metadata, attachments, created_at, updated_at \
    FROM subjects WHERE";

const UPDATE_SQL: &str = "UPDATE subjects SET status = ?, assignee = ?, labels = ?, body = ?, \
    custom_fields = ?, native_status = ?, updated_at = ? WHERE id = ?";

fn text(s: &str) -> BindValue {
    BindValue::Text(s.to_string())
}

fn row(id: &str, labels: &str) -> FetchedRow {
    let columns = SubjectRow {
        id: id.into(),
        kind: "task".into(),
        title: "T".into(),
        body: None,
        status: "ready".into(),
        priority: None,
        assignee: None,
        labels: labels.into(),
        parent_id: None,
        custom_fields: "{}".into(),
        native_status: None,
        status_metadata: None,
        attachments: None,
        created_at: "2024-01-01T00:00:00+00:00".into(),
        updated_at: "2024-01-01T00:00:00+00:00".into(),
    };
    FetchedRow {
        columns,
        attachments: Ok(vec![]),
    }
}

fn ids(subjects: &[Subject]) -> Vec<&str> {
    subjects.iter().map(|s| s.id.as_str()).collect()
}

#[test]
fn an_empty_filter_asks_for_one_row_more_than_the_default_page() {
    let statement = SqliteStore::list(&SubjectFilter::default());
    assert_eq!(statement.sql, format!("{SELECT_SQL} 1 = 1 ORDER BY id ASC LIMIT ?"));
    assert_eq!(statement.binds, vec![BindValue::Int(51)]);
    assert_eq!(DEFAULT_LIMIT, 50);
}

#[test]
fn the_page_size_is_clamped() {
    for (asked, limit) in [(0, 2), (1, 2), (2, 3), (499, 500), (500, 501), (501, 501), (u32::MAX, 501)] {
        let statement = SqliteStore::list(&SubjectFilter {
            limit: Some(asked),
            ..Default::default()
        });
        assert_eq!(statement.binds, vec![BindValue::Int(limit)]);
    }
    assert_eq!(MAX_LIMIT, 500);
}

#[test]
fn every_condition_has_its_values_in_order() {
    let statement = SqliteStore::list(&SubjectFilter {
        kind: vec!["task".into(), "issue".into()],
        status: vec![SubjectStatus::Ready, SubjectStatus::InProgress, SubjectStatus::Done],
        assignee: vec!["alice".into()],
        labels_any: vec!["x".into()],
        labels_all: vec!["y".into()],
        updated_since: Timestamp::new(0, 0),
        native_status: Some("Open".into()),
        has_attachment_kind: Some("pr".into()),
        cursor: Some("sqlite:1".into()),
        limit: Some(10),
    });
    assert_eq!(
        statement.sql,
        format!(
            "{SELECT_SQL} 1 = 1 AND kind IN (?, ?) AND status IN (?, ?, ?) AND assignee IN (?) \
             AND updated_at >= ? AND native_status = ? AND id > ? ORDER BY id ASC LIMIT ?"
        )
    );
    assert_eq!(
        statement.binds,
        vec![
            text("task"),
            text("issue"),
            text("ready"),
            text("in-progress"),
            text("done"),
            text("alice"),
            text("1970-01-01T00:00:00+00:00"),
            text("Open"),
            text("sqlite:1"),
            BindValue::Int(11),
        ]
    );
}

#[test]
fn a_row_is_read_by_its_id() {
    let statement = SqliteStore::get(&SubjectId::new("sqlite:1"));
    assert_eq!(statement.sql, format!("{SELECT_SQL} id = ?"));
    assert_eq!(statement.binds, vec![text("sqlite:1")]);
    assert!(SqliteStore::ping().binds.is_empty());
    assert_eq!(SqliteStore::ping().sql, "SELECT 1");
}

#[test]
fn a_subject_is_inserted_with_its_columns() {
    let mut custom = CustomFields::new();
    custom.insert("n".into(), JsonValue::of(Value::from(1)));
    let subject = Subject {
        id: SubjectId::new("sqlite:1"),
        kind: "task".into(),
        title: "T".into(),
        description: None,
        status: SubjectStatus::Done,
        priority: Some(3),
        assignee: Some("alice".into()),
        labels: vec!["x".into()],
        parent: None,
        children: vec![],
        url: None,
        created_at: Timestamp::new(0, 0).unwrap(),
        updated_at: Timestamp::new(1, 0).unwrap(),
        custom,
        native_status: None,
        status_metadata: JsonValue::Text("m".into()),
        attachments: vec![],
    };
    let statement = SqliteStore::insert(&subject).unwrap();
    assert_eq!(statement.sql, INSERT_SQL);
    assert_eq!(
        statement.binds,
        vec![
            text("sqlite:1"),
            text("task"),
            text("T"),
            BindValue::Null,
            text("done"),
            BindValue::Int(3),
            text("alice"),
            text("[\"x\"]"),
            BindValue::Null,
            text("{\"n\":1}"),
            BindValue::Null,
            text("\"m\""),
            BindValue::Null,
            text("1970-01-01T00:00:00+00:00"),
            text("1970-01-01T00:00:01+00:00"),
        ]
    );
}

#[test]
fn an_update_writes_the_changed_columns() {
    let statement = SqliteStore::update_row(
        &SubjectId::new("sqlite:1"),
        SubjectStatus::Cancelled,
        None,
        &vec!["x".to_string()],
        Some("body".into()),
        &CustomFields::new(),
        Some("Closed".into()),
        Timestamp::new(60, 0).unwrap(),
    )
    .unwrap();
    assert_eq!(statement.sql, UPDATE_SQL);
    assert_eq!(
        statement.binds,
        vec![
            text("cancelled"),
            BindValue::Null,
            text("[\"x\"]"),
            text("body"),
            text("{}"),
            text("Closed"),
            text("1970-01-01T00:01:00+00:00"),
            text("sqlite:1"),
        ]
    );
}

#[test]
fn a_page_ends_before_the_row_in_excess() {
    let filter = SubjectFilter {
        limit: Some(2),
        ..Default::default()
    };
    let rows = vec![Ok(row("1", "[]")), Ok(row("2", "[]")), Ok(row("3", "[]"))];
    let (subjects, cursor) = SqliteStore::listed(&filter, Ok(rows)).unwrap();
    assert_eq!(ids(&subjects), ["1", "2"]);
    assert_eq!(cursor.as_deref(), Some("2"));

    let rows = vec![Ok(row("1", "[]")), Ok(row("2", "[]"))];
    let (subjects, cursor) = SqliteStore::listed(&filter, Ok(rows)).unwrap();
    assert_eq!(ids(&subjects), ["1", "2"]);
    assert_eq!(cursor, None);
}

#[test]
fn the_cursor_is_the_last_row_even_where_its_subject_is_dropped() {
    let filter = SubjectFilter {
        limit: Some(2),
        labels_all: vec!["x".into()],
        ..Default::default()
    };
    let rows = vec![Ok(row("1", "[\"x\"]")), Ok(row("2", "[]")), Ok(row("3", "[\"x\"]"))];
    let (subjects, cursor) = SqliteStore::listed(&filter, Ok(rows)).unwrap();
    assert_eq!(ids(&subjects), ["1"]);
    assert_eq!(cursor.as_deref(), Some("2"));
}

#[test]
fn a_row_that_cannot_be_read_fails_the_page_only_where_it_belongs_to_it() {
    let filter = SubjectFilter {
        limit: Some(1),
        ..Default::default()
    };
    let rows = vec![Ok(row("1", "[]")), Ok(row("2", "?"))];
    assert!(SqliteStore::listed(&filter, Ok(rows)).is_ok());
    let rows = vec![Ok(row("1", "[]")), Err("bad column".to_string())];
    assert!(SqliteStore::listed(&filter, Ok(rows)).is_ok());
    let rows = vec![Err("bad column".to_string()), Ok(row("2", "[]"))];
    assert_eq!(
        SqliteStore::listed(&filter, Ok(rows)),
        Err(BackendError::Unavailable("bad column".into()))
    );
    let rows = vec![Ok(row("1", "?"))];
    assert!(matches!(
        SqliteStore::listed(&filter, Ok(rows)),
        Err(BackendError::Other(_))
    ));
}

#[test]
fn the_first_error_of_a_page_counts() {
    let filter = SubjectFilter::default();
    let rows = vec![Ok(row("1", "[]")), Err("first".to_string()), Ok(row("2", "?"))];
    assert_eq!(
        SqliteStore::listed(&filter, Ok(rows)),
        Err(BackendError::Unavailable("first".into()))
    );
}

#[test]
fn answers_become_results() {
    let id = SubjectId::new("sqlite:1");
    let failed = || BackendError::Unavailable("locked".into());
    assert_eq!(SqliteStore::inserted(Ok(1)), Ok(()));
    assert_eq!(SqliteStore::inserted(Err("locked".into())), Err(failed()));
    assert_eq!(SqliteStore::updated(&id, Ok(1)), Ok(()));
    assert_eq!(
        SqliteStore::updated(&id, Ok(0)),
        Err(BackendError::NotFound("sqlite:1".into()))
    );
    assert_eq!(SqliteStore::updated(&id, Err("locked".into())), Err(failed()));
    assert_eq!(SqliteStore::pinged(Ok(())), Ok(()));
    assert_eq!(SqliteStore::pinged(Err("locked".into())), Err(failed()));
    assert_eq!(
        SqliteStore::fetched(&id, Ok(None)),
        Err(BackendError::NotFound("sqlite:1".into()))
    );
    assert_eq!(SqliteStore::fetched(&id, Err("locked".into())), Err(failed()));
    assert_eq!(
        SqliteStore::fetched(&id, Ok(Some(row("sqlite:1", "[]")))).unwrap().id,
        id
    );
    assert_eq!(
        SqliteStore::listed(&SubjectFilter::default(), Err("locked".into())),
        Err(failed())
    );
}
