//! Requests from start to end, on a real in-memory SQLite database.

use std::sync::Arc;
use std::time::Duration;

use animus_subject_sqlite::backend::{SqliteBackend, WATCH_CHANNEL_CAPACITY};
use animus_subject_sqlite::config::SqliteConfig;
use animus_subject_sqlite::json::{CustomFields, JsonValue};
use animus_subject_sqlite::migrations;
use animus_subject_sqlite::row::{FetchedRow, SubjectRow};
use animus_subject_sqlite::store::{BindValue, SqliteStore, Statement};
use animus_subject_sqlite::subject::{
    BackendError, ChangeKind, HealthCheckResult, HealthStatus, Subject, SubjectAttachment,
    SubjectChangedEvent, SubjectFilter, SubjectId, SubjectList, SubjectPatch, SubjectStatus,
};
use animus_subject_sqlite::time::Timestamp;
use serde_json::Value;
use sqlx::query::Query;
use sqlx::sqlite::{
    SqliteArguments, SqliteConnectOptions, SqlitePool, SqlitePoolOptions, SqliteRow,
};
use sqlx::{Executor, Row, Sqlite};
use tempfile::TempDir;
use tokio::sync::broadcast;

/// The backend with a connection: it runs the statements that the library hands
/// out and takes the answers back to it.
struct Connected {
    backend: SqliteBackend,
    pool: SqlitePool,
    events: broadcast::Sender<Arc<SubjectChangedEvent>>,
}

fn prepared(statement: &Statement) -> Query<'_, Sqlite, SqliteArguments<'_>> {
    let mut query = sqlx::query(statement.sql.as_str());
    for bind in &statement.binds {
        query = match bind {
            BindValue::Null => query.bind(None::<String>),
            BindValue::Text(text) => query.bind(text.as_str()),
            BindValue::Int(n) => query.bind(*n),
        };
    }
    query
}

/// Reads a list of attachments: objects with a string `kind`.
fn attachments(raw: &str) -> Result<Vec<SubjectAttachment>, String> {
    let values: Vec<Value> = serde_json::from_str(raw).map_err(|e| e.to_string())?;
    values
        .iter()
        .map(|value| match value.get("kind").and_then(Value::as_str) {
            Some(kind) => Ok(SubjectAttachment {
                kind: kind.to_string(),
                encoded: value.to_string(),
            }),
            None => Err("missing field `kind`".to_string()),
        })
        .collect()
}

fn fetched(row: &SqliteRow) -> Result<FetchedRow, sqlx::Error> {
    let columns = columns(row)?;
    let attachments = attachments(columns.attachments.as_deref().unwrap_or("[]"));
    Ok(FetchedRow { columns, attachments })
}

fn columns(row: &SqliteRow) -> Result<SubjectRow, sqlx::Error> {
    Ok(SubjectRow {
        id: row.try_get("id")?,
        kind: row.try_get("kind")?,
        title: row.try_get("title")?,
        body: row.try_get("body")?,
        status: row.try_get("status")?,
        priority: row.try_get("priority")?,
        assignee: row.try_get("assignee")?,
        labels: row.try_get("labels")?,
        parent_id: row.try_get("parent_id")?,
        custom_fields: row.try_get("custom_fields")?,
        native_status: row.try_get("native_status")?,
        status_metadata: row.try_get("status_metadata")?,
        attachments: row.try_get("attachments")?,
        created_at: row.try_get("created_at")?,
        updated_at: row.try_get("updated_at")?,
    })
}

async fn execute(pool: &SqlitePool, statement: &Statement) -> Result<u64, String> {
    match prepared(statement).execute(pool).await {
        Ok(done) => Ok(done.rows_affected()),
        Err(e) => Err(e.to_string()),
    }
}

async fn fetch_row(pool: &SqlitePool, statement: &Statement) -> Result<Option<FetchedRow>, String> {
    let row = prepared(statement)
        .fetch_optional(pool)
        .await
        .map_err(|e| e.to_string())?;
    match row {
        Some(row) => fetched(&row).map(Some).map_err(|e| e.to_string()),
        None => Ok(None),
    }
}

async fn fetch_rows(
    pool: &SqlitePool,
    statement: &Statement,
) -> Result<Vec<Result<FetchedRow, String>>, String> {
    let rows = prepared(statement)
        .fetch_all(pool)
        .await
        .map_err(|e| e.to_string())?;
    Ok(rows
        .iter()
        .map(|row| fetched(row).map_err(|e| e.to_string()))
        .collect())
}

async fn migrate(pool: &SqlitePool) -> Result<(), sqlx::Error> {
    pool.execute(migrations::VERSION_TABLE_SQL).await?;
    let recorded: Option<i64> = sqlx::query_scalar(migrations::CURRENT_VERSION_SQL)
        .fetch_one(pool)
        .await?;
    for migration in migrations::apply(recorded) {
        let mut tx = pool.begin().await?;
        tx.execute(migration.body).await?;
        prepared(&migrations::record(migration.version))
            .execute(&mut *tx)
            .await?;
        tx.commit().await?;
    }
    Ok(())
}

impl Connected {
    async fn open(config: SqliteConfig) -> Result<Self, sqlx::Error> {
        let options = SqliteConnectOptions::new()
            .filename(config.db_path.as_str())
            .create_if_missing(true);
        let pool = SqlitePoolOptions::new()
            .max_connections(8)
            .connect_with(options)
            .await?;
        if config.auto_migrate {
            migrate(&pool).await?;
        }
        Ok(Self::from_pool(pool, config))
    }

    fn from_pool(pool: SqlitePool, config: SqliteConfig) -> Self {
        let (events, _) = broadcast::channel(WATCH_CHANNEL_CAPACITY);
        Connected {
            backend: SqliteBackend::new(config),
            pool,
            events,
        }
    }

    async fn create(&self, subject: Subject) -> Result<Subject, BackendError> {
        let step = self.backend.create(subject)?;
        let reply = execute(&self.pool, &step.statement).await;
        let step = step.inserted(reply)?;
        let reply = fetch_row(&self.pool, &step.statement).await;
        let (stored, event) = step.fetched(reply)?;
        let _ = self.events.send(Arc::new(event));
        Ok(stored)
    }

    async fn get(&self, id: &SubjectId) -> Result<Subject, BackendError> {
        let statement = self.backend.get(id)?;
        SqliteStore::fetched(id, fetch_row(&self.pool, &statement).await)
    }

    async fn update(&self, id: &SubjectId, patch: SubjectPatch) -> Result<Subject, BackendError> {
        let step = self.backend.update(id, patch)?;
        let reply = fetch_row(&self.pool, &step.statement).await;
        let step = step.fetched(reply)?;
        let reply = execute(&self.pool, &step.statement).await;
        let step = step.written(reply)?;
        let reply = fetch_row(&self.pool, &step.statement).await;
        let (stored, event) = step.fetched(reply)?;
        let _ = self.events.send(Arc::new(event));
        Ok(stored)
    }

    async fn list(&self, filter: SubjectFilter) -> Result<SubjectList, BackendError> {
        let statement = self.backend.list(&filter);
        let reply = fetch_rows(&self.pool, &statement).await;
        self.backend.listed(&filter, reply)
    }

    fn watch(&self) -> broadcast::Receiver<Arc<SubjectChangedEvent>> {
        self.events.subscribe()
    }

    async fn health(&self) -> HealthCheckResult {
        let reply = match prepared(&SqliteStore::ping()).fetch_one(&self.pool).await {
            Ok(_) => Ok(()),
            Err(e) => Err(e.to_string()),
        };
        let outcome = SqliteStore::pinged(reply).map_err(|e| format!("{:?}", e));
        self.backend.health(outcome)
    }
}

fn json(text: &str) -> JsonValue {
    JsonValue::of(serde_json::from_str(text).unwrap())
}

fn block_on<F: std::future::Future>(future: F) -> F::Output {
    tokio::runtime::Builder::new_current_thread()
        .enable_all()
        .build()
        .expect("runtime")
        .block_on(future)
}

async fn unmigrated_pool() -> SqlitePool {
    SqlitePoolOptions::new()
        .max_connections(1)
        .connect("sqlite::memory:")
        .await
        .expect("sqlite memory pool")
}

async fn backend(kinds: Vec<&str>) -> Connected {
    let pool = unmigrated_pool().await;
    migrate(&pool).await.expect("migrations");
    let config = SqliteConfig::new("sqlite::memory:")
        .with_kinds(kinds.into_iter().map(String::from).collect());
    Connected::from_pool(pool, config)
}

fn sample_subject(kind: &str, title: &str) -> Subject {
    Subject {
        id: SubjectId::new(""),
        kind: kind.to_string(),
        title: title.to_string(),
        description: Some("body text".to_string()),
        status: SubjectStatus::Ready,
        priority: Some(2),
        assignee: Some("alice@example.com".to_string()),
        labels: vec!["backend".into(), "v0.1.0".into()],
        parent: None,
        children: vec![],
        url: None,
        created_at: Timestamp::now(),
        updated_at: Timestamp::now(),
        custom: CustomFields::new(),
        native_status: None,
        status_metadata: JsonValue::Null,
        attachments: vec![],
    }
}

#[test]
fn apply_is_idempotent() {
    block_on(async {
        let pool = unmigrated_pool().await;
        migrate(&pool).await.unwrap();
        // Second apply must not error or double-insert.
        migrate(&pool).await.unwrap();

        let version: i64 = sqlx::query_scalar("SELECT MAX(version) FROM schema_version")
            .fetch_one(&pool)
            .await
            .unwrap();
        assert_eq!(version, migrations::MIGRATIONS.len() as i64);
        let count: i64 = sqlx::query_scalar("SELECT COUNT(*) FROM schema_version")
            .fetch_one(&pool)
            .await
            .unwrap();
        assert_eq!(count, migrations::MIGRATIONS.len() as i64);
    });
}

#[test]
fn apply_creates_subjects_table() {
    block_on(async {
        let pool = unmigrated_pool().await;
        migrate(&pool).await.unwrap();

        let count: i64 =
            sqlx::query_scalar("SELECT COUNT(*) FROM sqlite_master WHERE name = 'subjects'")
                .fetch_one(&pool)
                .await
                .unwrap();
        assert_eq!(count, 1, "subjects table should exist after migration");
    });
}

#[test]
fn creates_subject_and_round_trips_via_get() {
    block_on(async {
        let backend = backend(vec!["task"]).await;
        let created = backend
            .create(sample_subject("task", "Investigate flaky test"))
            .await
            .expect("create");

        assert!(created.id.as_str().starts_with("sqlite:"));
        assert_eq!(created.title, "Investigate flaky test");
        assert_eq!(created.status, SubjectStatus::Ready);
        assert_eq!(created.priority, Some(2));
        assert_eq!(created.assignee.as_deref(), Some("alice@example.com"));
        assert_eq!(created.labels.len(), 2);

        let fetched = backend.get(&created.id).await.expect("get");
        assert_eq!(fetched, created);
    });
}

#[test]
fn lists_subjects_with_status_filter() {
    block_on(async {
        let backend = backend(vec!["task"]).await;
        let ready = backend
            .create(sample_subject("task", "Ready task"))
            .await
            .unwrap();
        let in_progress = {
            let mut s = sample_subject("task", "In-progress task");
            s.status = SubjectStatus::InProgress;
            backend.create(s).await.unwrap()
        };

        let page = backend
            .list(SubjectFilter {
                status: vec![SubjectStatus::InProgress],
                ..Default::default()
            })
            .await
            .expect("list");

        assert_eq!(page.subjects.len(), 1);
        assert_eq!(page.subjects[0].id, in_progress.id);
        assert_ne!(page.subjects[0].id, ready.id);
    });
}

#[test]
fn lists_subjects_with_kind_filter() {
    block_on(async {
        let backend = backend(vec!["task", "issue", "incident"]).await;
        let task = backend.create(sample_subject("task", "T1")).await.unwrap();
        let issue = backend.create(sample_subject("issue", "I1")).await.unwrap();
        let _incident = backend
            .create(sample_subject("incident", "INC1"))
            .await
            .unwrap();

        let page = backend
            .list(SubjectFilter {
                kind: vec!["task".into(), "issue".into()],
                ..Default::default()
            })
            .await
            .expect("list");

        assert_eq!(page.subjects.len(), 2);
        let ids: Vec<&str> = page.subjects.iter().map(|s| s.id.as_str()).collect();
        assert!(ids.contains(&task.id.as_str()));
        assert!(ids.contains(&issue.id.as_str()));
    });
}

#[test]
fn updates_status_and_native_status() {
    block_on(async {
        let backend = backend(vec!["task"]).await;
        let created = backend.create(sample_subject("task", "T1")).await.unwrap();

        let mut custom = CustomFields::new();
        custom.insert("native_status".into(), JsonValue::Text("In Review".into()));

        let updated = backend
            .update(
                &created.id,
                SubjectPatch {
                    status: Some(SubjectStatus::InProgress),
                    custom,
                    ..Default::default()
                },
            )
            .await
            .expect("update");

        assert_eq!(updated.status, SubjectStatus::InProgress);
        assert_eq!(updated.native_status.as_deref(), Some("In Review"));
        assert!(
            updated.updated_at >= created.updated_at,
            "updated_at should advance"
        );
    });
}

#[test]
fn update_returns_refreshed_subject() {
    block_on(async {
        let backend = backend(vec!["task"]).await;
        let created = backend.create(sample_subject("task", "T1")).await.unwrap();

        let updated = backend
            .update(
                &created.id,
                SubjectPatch {
                    assignee: Some(Some("bob@example.com".into())),
                    labels_add: vec!["urgent".into()],
                    labels_remove: vec!["v0.1.0".into()],
                    ..Default::default()
                },
            )
            .await
            .expect("update");

        assert_eq!(updated.assignee.as_deref(), Some("bob@example.com"));
        assert!(updated.labels.contains(&"urgent".to_string()));
        assert!(!updated.labels.contains(&"v0.1.0".to_string()));

        // And the next get matches what update returned.
        let refetched = backend.get(&created.id).await.unwrap();
        assert_eq!(refetched, updated);
    });
}

#[test]
fn delete_via_status_set_to_cancelled() {
    block_on(async {
        let backend = backend(vec!["task"]).await;
        let created = backend.create(sample_subject("task", "T1")).await.unwrap();

        let updated = backend
            .update(
                &created.id,
                SubjectPatch {
                    status: Some(SubjectStatus::Cancelled),
                    ..Default::default()
                },
            )
            .await
            .expect("update");
        assert_eq!(updated.status, SubjectStatus::Cancelled);

        // A listing without statuses still returns the row: cancelling is a soft
        // delete.
        let all = backend.list(SubjectFilter::default()).await.unwrap();
        assert_eq!(all.subjects.len(), 1);

        // Excluding cancelled drops it from the page.
        let active = backend
            .list(SubjectFilter {
                status: vec![
                    SubjectStatus::Ready,
                    SubjectStatus::InProgress,
                    SubjectStatus::Blocked,
                    SubjectStatus::Done,
                ],
                ..Default::default()
            })
            .await
            .unwrap();
        assert!(active.subjects.is_empty());
    });
}

#[test]
fn watch_emits_event_on_create() {
    block_on(async {
        let backend = backend(vec!["task"]).await;
        let mut stream = backend.watch();

        let created = backend.create(sample_subject("task", "T1")).await.unwrap();

        let event = tokio::time::timeout(Duration::from_millis(200), stream.recv())
            .await
            .expect("timeout waiting for event")
            .expect("stream closed");
        assert_eq!(event.id, created.id);
        assert!(matches!(event.change_kind, ChangeKind::Created));
        assert_eq!(event.subject, created);
    });
}

#[test]
fn watch_emits_event_on_update() {
    block_on(async {
        let backend = backend(vec!["task"]).await;
        let created = backend.create(sample_subject("task", "T1")).await.unwrap();

        let mut stream = backend.watch();

        backend
            .update(
                &created.id,
                SubjectPatch {
                    status: Some(SubjectStatus::InProgress),
                    ..Default::default()
                },
            )
            .await
            .unwrap();

        let event = tokio::time::timeout(Duration::from_millis(200), stream.recv())
            .await
            .expect("timeout waiting for event")
            .expect("stream closed");
        assert_eq!(event.id, created.id);
        assert!(matches!(event.change_kind, ChangeKind::StatusChanged));
        assert_eq!(event.subject.status, SubjectStatus::InProgress);
    });
}

#[test]
fn schema_advertises_supports_create_true() {
    block_on(async {
        let backend = backend(vec!["task", "issue"]).await;
        let schema = backend.backend.schema();
        assert!(schema.supports_create);
        assert!(schema.supports_watch);
        assert!(schema.supports_pagination);
        assert_eq!(schema.kinds, vec!["task".to_string(), "issue".to_string()]);
    });
}

#[test]
fn health_unhealthy_when_db_unreachable() {
    block_on(async {
        // Opening a directory as a database fails when the pool is made.
        let dir = TempDir::new().expect("tempdir");
        let bogus_path = dir.path().to_str().expect("utf-8 path").to_string();
        let result =
            Connected::open(SqliteConfig::new(&bogus_path).with_auto_migrate(false)).await;
        assert!(
            result.is_err(),
            "constructing backend pointed at a directory must fail"
        );

        // A pool that is closed under a backend makes it unhealthy.
        let pool = SqlitePoolOptions::new()
            .max_connections(1)
            .connect_with(SqliteConnectOptions::new().in_memory(true))
            .await
            .unwrap();
        migrate(&pool).await.unwrap();
        let backend = Connected::from_pool(pool.clone(), SqliteConfig::new("sqlite::memory:"));
        pool.close().await;

        let health = backend.health().await;
        assert_eq!(health.status, HealthStatus::Unhealthy);
        assert!(
            health.last_error.is_some(),
            "unhealthy result should carry an error string"
        );
    });
}

#[test]
fn health_is_healthy_while_the_database_answers() {
    block_on(async {
        let backend = backend(vec!["task"]).await;
        let health = backend.health().await;
        assert_eq!(health.status, HealthStatus::Healthy);
        assert_eq!(health.last_error, None);
    });
}

#[test]
fn pagination_returns_cursor_when_more_rows_remain() {
    block_on(async {
        let backend = backend(vec!["task"]).await;
        for i in 0..5 {
            let mut s = sample_subject("task", &format!("T{i}"));
            s.title = format!("Subject {i}");
            backend.create(s).await.unwrap();
        }

        let first = backend
            .list(SubjectFilter {
                limit: Some(2),
                ..Default::default()
            })
            .await
            .unwrap();
        assert_eq!(first.subjects.len(), 2);
        assert!(first.next_cursor.is_some());

        let second = backend
            .list(SubjectFilter {
                limit: Some(2),
                cursor: first.next_cursor.clone(),
                ..Default::default()
            })
            .await
            .unwrap();
        assert_eq!(second.subjects.len(), 2);
        assert!(second.next_cursor.is_some());

        let third = backend
            .list(SubjectFilter {
                limit: Some(2),
                cursor: second.next_cursor.clone(),
                ..Default::default()
            })
            .await
            .unwrap();
        assert_eq!(third.subjects.len(), 1);
        assert!(third.next_cursor.is_none());
    });
}

#[test]
fn following_the_cursors_shows_every_subject_once() {
    block_on(async {
        let backend = backend(vec!["task"]).await;
        let mut made: Vec<String> = Vec::new();
        for i in 0..7 {
            let mut s = sample_subject("task", "T");
            s.id = SubjectId::new(&format!("sqlite:{i}"));
            made.push(backend.create(s).await.unwrap().id.as_str().to_string());
        }
        let mut seen: Vec<String> = Vec::new();
        let mut cursor: Option<String> = None;
        loop {
            let page = backend
                .list(SubjectFilter {
                    limit: Some(3),
                    cursor: cursor.clone(),
                    ..Default::default()
                })
                .await
                .unwrap();
            seen.extend(page.subjects.iter().map(|s| s.id.as_str().to_string()));
            cursor = page.next_cursor;
            if cursor.is_none() {
                break;
            }
        }
        assert_eq!(seen, made);
    });
}

#[test]
fn a_page_without_wanted_subjects_still_leads_on() {
    block_on(async {
        let backend = backend(vec!["task"]).await;
        for i in 0..5 {
            let mut s = sample_subject("task", "T");
            s.id = SubjectId::new(&format!("sqlite:{i}"));
            s.labels = if i < 4 { vec![] } else { vec!["rare".into()] };
            backend.create(s).await.unwrap();
        }
        let asked = |cursor: Option<String>| SubjectFilter {
            limit: Some(2),
            labels_any: vec!["rare".into()],
            cursor,
            ..Default::default()
        };
        let first = backend.list(asked(None)).await.unwrap();
        assert!(first.subjects.is_empty());
        assert_eq!(first.next_cursor.as_deref(), Some("sqlite:1"));
        let second = backend.list(asked(first.next_cursor)).await.unwrap();
        assert!(second.subjects.is_empty());
        assert_eq!(second.next_cursor.as_deref(), Some("sqlite:3"));
        let third = backend.list(asked(second.next_cursor)).await.unwrap();
        assert_eq!(third.subjects.len(), 1);
        assert_eq!(third.subjects[0].id.as_str(), "sqlite:4");
        assert_eq!(third.next_cursor, None);
    });
}

#[test]
fn filters_on_assignee_native_status_and_date() {
    block_on(async {
        let backend = backend(vec!["task"]).await;
        let mut old = sample_subject("task", "old");
        old.updated_at = Timestamp::new(1_000_000_000, 0).unwrap();
        old.assignee = None;
        let old = backend.create(old).await.unwrap();
        let mut new = sample_subject("task", "new");
        new.updated_at = Timestamp::new(1_700_000_000, 500_000_000).unwrap();
        new.native_status = Some("Triage".into());
        let new = backend.create(new).await.unwrap();

        let titles = |page: SubjectList| -> Vec<String> {
            page.subjects.into_iter().map(|s| s.title).collect()
        };
        let by_assignee = SubjectFilter {
            assignee: vec!["alice@example.com".into(), "bob@example.com".into()],
            ..Default::default()
        };
        assert_eq!(titles(backend.list(by_assignee).await.unwrap()), ["new"]);
        let by_native = SubjectFilter {
            native_status: Some("Triage".into()),
            ..Default::default()
        };
        assert_eq!(titles(backend.list(by_native).await.unwrap()), ["new"]);
        for (since, expected) in [
            (old.updated_at, vec!["old", "new"]),
            (Timestamp::new(1_000_000_001, 0).unwrap(), vec!["new"]),
            (new.updated_at, vec!["new"]),
            (Timestamp::new(1_700_000_000, 500_000_001).unwrap(), vec![]),
        ] {
            let by_date = SubjectFilter {
                updated_since: Some(since),
                ..Default::default()
            };
            let mut found = titles(backend.list(by_date).await.unwrap());
            found.sort();
            let mut expected: Vec<&str> = expected;
            expected.sort();
            assert_eq!(found, expected);
        }
    });
}

#[test]
fn filters_on_labels_and_attachments() {
    block_on(async {
        let backend = backend(vec!["task"]).await;
        let mut a = sample_subject("task", "a");
        a.labels = vec!["x".into(), "y".into()];
        backend.create(a).await.unwrap();
        let mut b = sample_subject("task", "b");
        b.labels = vec!["y".into()];
        b.attachments = vec![SubjectAttachment {
            kind: "pr".into(),
            encoded: "{\"kind\":\"pr\",\"number\":7}".into(),
        }];
        backend.create(b).await.unwrap();

        for (any, all, attachment, expected) in [
            (vec!["x"], vec![], None, vec!["a"]),
            (vec!["x", "y"], vec![], None, vec!["a", "b"]),
            (vec![], vec!["x", "y"], None, vec!["a"]),
            (vec![], vec![], Some("pr"), vec!["b"]),
            (vec![], vec![], Some("doc"), vec![]),
        ] {
            let page = backend
                .list(SubjectFilter {
                    labels_any: any.into_iter().map(String::from).collect(),
                    labels_all: all.into_iter().map(String::from).collect(),
                    has_attachment_kind: attachment.map(String::from),
                    ..Default::default()
                })
                .await
                .unwrap();
            let mut found: Vec<&str> = page.subjects.iter().map(|s| s.title.as_str()).collect();
            found.sort();
            assert_eq!(found, expected);
        }
    });
}

#[test]
fn everything_but_children_and_url_is_kept() {
    block_on(async {
        let backend = backend(vec!["task"]).await;
        let mut given = sample_subject("task", "a \"quoted\" title\nof two lines");
        given.id = SubjectId::new("sqlite:mine");
        given.parent = Some(SubjectId::new("sqlite:parent"));
        given.children = vec![SubjectId::new("sqlite:child")];
        given.url = Some("https://example.com".into());
        given.custom.insert("points".into(), json("3"));
        given.custom.insert("empty".into(), JsonValue::Null);
        given
            .custom
            .insert("note".into(), JsonValue::Text("tab\there".into()));
        given.native_status = Some("Open".into());
        given.status_metadata = json("{\"reason\":[1,true,null]}");
        given.attachments = vec![SubjectAttachment {
            kind: "doc".into(),
            encoded: "{\"kind\":\"doc\",\"url\":\"u\"}".into(),
        }];
        let created = backend.create(given.clone()).await.unwrap();
        let mut expected = given;
        expected.children = vec![];
        expected.url = None;
        assert_eq!(created, expected);
        assert_eq!(backend.get(&created.id).await.unwrap(), expected);
    });
}

#[test]
fn a_number_that_loses_digits_leaves_the_rest_alone() {
    block_on(async {
        let backend = backend(vec!["task"]).await;
        let mut given = sample_subject("task", "T");
        given.created_at = Timestamp::new(1_000_000_000, 5).unwrap();
        given.custom.insert("n".into(), json("7"));
        given.custom.insert("x".into(), json("[0.1,1e23,123456.789e3]"));
        let created = backend.create(given.clone()).await.unwrap();
        assert_eq!(created.created_at, given.created_at);
        assert_eq!(created.updated_at, given.updated_at);
        assert_eq!(created.labels, given.labels);
        assert_eq!(created.custom.get("n"), given.custom.get("n"));
        let updated = backend
            .update(
                &created.id,
                SubjectPatch {
                    labels_add: vec!["urgent".into()],
                    ..Default::default()
                },
            )
            .await
            .unwrap();
        assert_eq!(updated.labels, ["backend", "v0.1.0", "urgent"]);
        assert!(updated.updated_at > created.created_at);
        assert_eq!(updated.created_at, given.created_at);
        assert_eq!(updated.custom.get("n"), given.custom.get("n"));
    });
}

#[test]
fn an_id_is_given_once() {
    block_on(async {
        let backend = backend(vec!["task"]).await;
        let mut s = sample_subject("task", "first");
        s.id = SubjectId::new("sqlite:same");
        backend.create(s.clone()).await.unwrap();
        let mut events = backend.watch();
        assert!(matches!(
            backend.create(s).await,
            Err(BackendError::Unavailable(_))
        ));
        assert!(events.try_recv().is_err());
    });
}

#[test]
fn a_change_touches_one_subject_and_what_the_patch_names() {
    block_on(async {
        let backend = backend(vec!["task"]).await;
        let mut s = sample_subject("task", "T1");
        s.custom.insert("keep".into(), JsonValue::Text("k".into()));
        s.custom.insert("drop".into(), JsonValue::Text("d".into()));
        let first = backend.create(s).await.unwrap();
        let second = backend.create(sample_subject("task", "T2")).await.unwrap();

        let mut custom = CustomFields::new();
        custom.insert("drop".into(), JsonValue::Null);
        custom.insert("size".into(), json("5"));
        custom.insert("native_status".into(), json("7"));
        let mut events = backend.watch();
        let updated = backend
            .update(
                &first.id,
                SubjectPatch {
                    assignee: Some(None),
                    comment: Some("new body".into()),
                    custom,
                    ..Default::default()
                },
            )
            .await
            .unwrap();
        let mut expected = first.clone();
        expected.assignee = None;
        expected.description = Some("new body".into());
        expected.custom.remove("drop");
        expected.custom.insert("size".into(), json("5"));
        expected.native_status = Some("7".into());
        expected.updated_at = updated.updated_at;
        assert_eq!(updated, expected);
        assert_eq!(backend.get(&second.id).await.unwrap(), second);

        let event = events.try_recv().unwrap();
        assert_eq!(event.change_kind, ChangeKind::Updated);
        assert_eq!(event.previous_native_status, None);
        assert_eq!(event.subject, updated);
    });
}

#[test]
fn an_empty_patch_changes_only_the_date() {
    block_on(async {
        let backend = backend(vec!["task"]).await;
        let created = backend.create(sample_subject("task", "T1")).await.unwrap();
        let updated = backend
            .update(&created.id, SubjectPatch::default())
            .await
            .unwrap();
        let mut expected = created;
        expected.updated_at = updated.updated_at;
        assert_eq!(updated, expected);
    });
}

#[test]
fn a_subject_that_is_not_there_is_not_found() {
    block_on(async {
        let backend = backend(vec!["task"]).await;
        let id = SubjectId::new("sqlite:nowhere");
        let expected = BackendError::NotFound("sqlite:nowhere".into());
        assert_eq!(backend.get(&id).await, Err(BackendError::NotFound("sqlite:nowhere".into())));
        assert_eq!(backend.update(&id, SubjectPatch::default()).await, Err(expected));
    });
}
