use animus_subject_sqlite::json::{CustomFields, JsonValue};
use animus_subject_sqlite::row::{
    parse_ts, row_to_subject, status_from_str, status_to_str, subject_to_row, FetchedRow,
    SubjectRow,
};
use animus_subject_sqlite::subject::{
    BackendError, Subject, SubjectAttachment, SubjectId, SubjectStatus,
};
use animus_subject_sqlite::time::Timestamp;

fn json(text: &str) -> JsonValue {
    JsonValue::of(serde_json::from_str(text).unwrap())
}

fn read(columns: SubjectRow) -> Result<Subject, BackendError> {
    row_to_subject(&FetchedRow { columns, attachments: Ok(vec![]) })
}

fn plain_row() -> SubjectRow {
    SubjectRow {
        id: "sqlite:1".into(),
        kind: "task".into(),
        title: "T".into(),
        body: None,
        status: "in-progress".into(),
        priority: Some(4),
        assignee: None,
        labels: "[\"a\", \"b\\n\"]".into(),
        parent_id: Some("sqlite:0".into()),
        custom_fields: "{\"n\": 1.5, \"s\": \"x\", \"z\": null}".into(),
        native_status: Some("Open".into()),
        status_metadata: None,
        attachments: None,
        created_at: "2001-09-09T01:46:40Z".into(),
        updated_at: "2001-09-09T03:46:40.25+02:00".into(),
    }
}

fn plain_subject() -> Subject {
    Subject {
        id: SubjectId::new("sqlite:1"),
        kind: "task".into(),
        title: "T".into(),
        description: Some("body".into()),
        status: SubjectStatus::Blocked,
        priority: Some(255),
        assignee: Some("alice".into()),
        labels: vec!["a\"b".into(), "é".into()],
        parent: Some(SubjectId::new("sqlite:0")),
        children: vec![SubjectId::new("sqlite:2")],
        url: Some("https://example.com".into()),
        created_at: Timestamp::new(1_000_000_000, 0).unwrap(),
        updated_at: Timestamp::new(1_000_000_000, 250_000_000).unwrap(),
        custom: CustomFields::new(),
        native_status: None,
        status_metadata: JsonValue::Null,
        attachments: vec![],
    }
}

#[test]
fn a_row_is_read_column_by_column() {
    let subject = read(plain_row()).unwrap();
    assert_eq!(subject.id.as_str(), "sqlite:1");
    assert_eq!(subject.status, SubjectStatus::InProgress);
    assert_eq!(subject.priority, Some(4));
    assert_eq!(subject.labels, vec!["a".to_string(), "b\n".to_string()]);
    assert_eq!(subject.parent, Some(SubjectId::new("sqlite:0")));
    assert_eq!(subject.children, vec![]);
    assert_eq!(subject.url, None);
    assert_eq!(subject.custom.len(), 3);
    assert_eq!(subject.custom.get("n"), Some(&json("1.5")));
    assert_eq!(subject.custom.get("s"), Some(&JsonValue::Text("x".into())));
    assert_eq!(subject.custom.get("z"), Some(&JsonValue::Null));
    assert_eq!(subject.status_metadata, JsonValue::Null);
    assert_eq!(subject.attachments, vec![]);
    assert_eq!(subject.created_at, Timestamp::new(1_000_000_000, 0).unwrap());
    assert_eq!(subject.updated_at, Timestamp::new(1_000_000_000, 250_000_000).unwrap());
}

#[test]
fn a_subject_is_written_column_by_column() {
    let mut subject = plain_subject();
    subject.custom.insert("b".into(), json("[1,2]"));
    subject.custom.insert("a".into(), JsonValue::Text("x\"".into()));
    subject.status_metadata = json("{\"k\":true}");
    subject.attachments = vec![SubjectAttachment {
        kind: "doc".into(),
        encoded: "{\"kind\":\"doc\"}".into(),
    }];
    let row = subject_to_row(&subject).unwrap();
    assert_eq!(row.status, "blocked");
    assert_eq!(row.priority, Some(255));
    assert_eq!(row.body.as_deref(), Some("body"));
    assert_eq!(row.labels, "[\"a\\\"b\",\"é\"]");
    assert_eq!(row.parent_id.as_deref(), Some("sqlite:0"));
    assert_eq!(row.custom_fields, "{\"a\":\"x\\\"\",\"b\":[1,2]}");
    assert_eq!(row.status_metadata.as_deref(), Some("{\"k\":true}"));
    assert_eq!(row.attachments.as_deref(), Some("[{\"kind\":\"doc\"}]"));
    assert_eq!(row.created_at, "2001-09-09T01:46:40+00:00");
    assert_eq!(row.updated_at, "2001-09-09T01:46:40.250+00:00");
}

#[test]
fn what_is_absent_is_null() {
    let mut subject = plain_subject();
    subject.labels = vec![];
    let row = subject_to_row(&subject).unwrap();
    assert_eq!(row.labels, "[]");
    assert_eq!(row.custom_fields, "{}");
    assert_eq!(row.status_metadata, None);
    assert_eq!(row.attachments, None);
    assert_eq!(row.native_status, None);
}

#[test]
fn a_subject_reads_back_but_for_children_and_url() {
    let mut subject = plain_subject();
    subject.custom.insert("list".into(), json("[1,[true],{\"a\":null}]"));
    subject.custom.insert("none".into(), JsonValue::Null);
    subject.status_metadata = JsonValue::Text("because".into());
    subject.attachments = vec![
        SubjectAttachment { kind: "doc".into(), encoded: "{\"n\":1,\"kind\":\"doc\"}".into() },
        SubjectAttachment { kind: "pr".into(), encoded: "{\"kind\":\"pr\"}".into() },
    ];
    let columns = subject_to_row(&subject).unwrap();
    assert_eq!(
        columns.attachments.as_deref(),
        Some("[{\"n\":1,\"kind\":\"doc\"},{\"kind\":\"pr\"}]")
    );
    let fetched = FetchedRow { columns, attachments: Ok(subject.attachments.clone()) };
    subject.children = vec![];
    subject.url = None;
    assert_eq!(row_to_subject(&fetched), Ok(subject));
}

#[test]
fn metadata_as_deep_as_can_be_read_alone_reads_back() {
    let nested = |depth: usize| format!("{}{}", "[".repeat(depth), "]".repeat(depth));
    let mut subject = plain_subject();
    subject.status_metadata = json(&nested(127));
    assert!(!subject.status_metadata.lasts());
    let columns = subject_to_row(&subject).unwrap();
    assert_eq!(columns.status_metadata, Some(nested(127)));
    assert_eq!(read(columns).unwrap().status_metadata, subject.status_metadata);
}

#[test]
fn a_priority_out_of_range_reads_as_none() {
    for (stored, expected) in [(0, Some(0)), (255, Some(255)), (256, None), (-1, None)] {
        let mut row = plain_row();
        row.priority = Some(stored);
        assert_eq!(read(row).unwrap().priority, expected);
    }
}

#[test]
fn statuses_read_back() {
    for (status, text) in [
        (SubjectStatus::Ready, "ready"),
        (SubjectStatus::InProgress, "in-progress"),
        (SubjectStatus::Blocked, "blocked"),
        (SubjectStatus::Done, "done"),
        (SubjectStatus::Cancelled, "cancelled"),
    ] {
        assert_eq!(status_to_str(status), text);
        assert_eq!(status_from_str(text), Ok(status));
    }
    assert_eq!(
        status_from_str("Do\"ne"),
        Err(BackendError::Other(
            "unrecognized status value \"Do\\\"ne\" in database".into()
        ))
    );
}

fn other(result: Result<Subject, BackendError>) -> String {
    match result {
        Err(BackendError::Other(message)) => message,
        _ => panic!("expected another error"),
    }
}

#[test]
fn a_column_that_cannot_be_read_is_named() {
    let mut row = plain_row();
    row.status = "open".into();
    assert_eq!(other(read(row)), "unrecognized status value \"open\" in database");
    let mut row = plain_row();
    row.labels = "[1]".into();
    assert!(other(read(row)).starts_with("invalid labels JSON: invalid type"));
    let mut row = plain_row();
    row.custom_fields = "[]".into();
    assert!(other(read(row)).starts_with("invalid custom_fields JSON: "));
    let mut row = plain_row();
    row.status_metadata = Some("{".into());
    assert!(other(read(row)).starts_with("invalid status_metadata JSON: EOF"));
    let mut row = plain_row();
    row.created_at = "yesterday".into();
    assert_eq!(
        other(read(row)),
        "invalid timestamp \"yesterday\": premature end of input"
    );
    let mut row = plain_row();
    row.updated_at = "".into();
    assert_eq!(other(read(row)), "invalid timestamp \"\": premature end of input");
}

#[test]
fn attachments_are_what_their_reader_makes_of_them() {
    let reason = "invalid type: integer `1`, expected a string at line 1 column 10";
    let mut columns = plain_row();
    columns.attachments = Some("[{\"kind\":1}]".into());
    let fetched = FetchedRow { columns, attachments: Err(reason.into()) };
    assert_eq!(
        other(row_to_subject(&fetched)),
        format!("invalid attachments JSON: {reason}")
    );
    // Without a column the reader has no say.
    let fetched = FetchedRow { columns: plain_row(), attachments: Err(reason.into()) };
    assert_eq!(row_to_subject(&fetched).unwrap().attachments, vec![]);
}

#[test]
fn the_first_wrong_column_counts() {
    let wrong = |status: &str| {
        let mut columns = plain_row();
        columns.status = status.into();
        columns.labels = "?".into();
        columns.attachments = Some("?".into());
        columns.created_at = "?".into();
        FetchedRow { columns, attachments: Err("no".into()) }
    };
    assert!(other(row_to_subject(&wrong("open"))).starts_with("unrecognized status"));
    assert!(other(row_to_subject(&wrong("done"))).starts_with("invalid labels"));
    let mut fetched = wrong("done");
    fetched.columns.labels = "[]".into();
    assert_eq!(other(row_to_subject(&fetched)), "invalid attachments JSON: no");
}

#[test]
fn parse_ts_brings_offsets_to_utc() {
    assert_eq!(parse_ts("1970-01-01T01:00:00+01:00"), Ok(Timestamp::new(0, 0).unwrap()));
    assert_eq!(
        parse_ts("1969-12-31T23:59:59.000000001Z"),
        Ok(Timestamp::new(-1, 1).unwrap())
    );
    assert!(parse_ts("1970-01-01").is_err());
}
