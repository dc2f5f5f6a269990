//! [`SqliteBackend`]: what the backend does with a request.
//!
//! Unlike backends that front an external tracker, this one is the system of
//! record: subjects are created, changed and read in the local database alone.
//! A request that needs the database is a chain of steps. Each step carries the
//! statement to run and takes the database's answer to the next step, so the
//! whole course of a request is decided here, and whoever holds the connection
//! only runs statements.

use crate::config::{ConfigView, SqliteConfig};
use crate::id_gen::{draw_ulid, is_drawn, is_own_id, is_sqlite_id, subject_id_of};
use crate::id_gen::subject_id_text;
use crate::json::{entries_map, lasting_fields, CustomFields, JsonValue, JsonView};
use crate::row::{columns_read_back, row_of, FetchedRow, FetchedView};
use crate::store::{changes_of, changes_read_back, fetched_subject, get_statement};
use crate::store::{insert_statement, list_statement, page_of, page_rows, row_reply, since_sorts};
use crate::store::{answer_error, update_statement, write_error, ChangesView, SqliteStore, Statement, StatementView};
use crate::subject::{subject_views, BackendError, ChangeKind, CustomFieldKind, CustomFieldSpec};
use crate::subject::{ErrorView, EventView, HealthCheckResult, HealthStatus};
use crate::subject::{PatchView, Subject, SubjectChangedEvent, SubjectFilter, SubjectId};
use crate::subject::{SubjectList, SubjectPatch, SubjectSchema, SubjectStatus, SubjectView};
use crate::text::{contains_text, debug_text, opt_text, quoted, same_text, texts};
use crate::time::{is_plain, on_the_clock, Timestamp};
use vstd::prelude::*;

verus! {

/// How many events a watcher may fall behind before it misses some.
pub const WATCH_CHANNEL_CAPACITY: usize = 256;

/// The field of a patch that sets the native status instead of a custom field.
pub const NATIVE_STATUS_KEY: &'static str = "native_status";

/// Answers requests on the subjects in the local database.
#[derive(Debug, PartialEq, Eq)]
pub struct SqliteBackend {
    pub config: SqliteConfig,
}

/// A subject is being inserted.
#[derive(Debug, PartialEq, Eq)]
pub struct CreateStep {
    /// The id of the new subject.
    pub id: SubjectId,
    /// Inserts the subject.
    pub statement: Statement,
}

/// The subject that a patch is for is being read.
#[derive(Debug, PartialEq, Eq)]
pub struct UpdateStep {
    pub id: SubjectId,
    pub patch: SubjectPatch,
    /// Reads the subject.
    pub statement: Statement,
}

/// A patched subject is being written.
#[derive(Debug, PartialEq, Eq)]
pub struct WriteStep {
    pub id: SubjectId,
    pub change_kind: ChangeKind,
    pub previous_native_status: Option<String>,
    /// Writes the changed columns.
    pub statement: Statement,
}

/// A subject that was written is being read back.
#[derive(Debug, PartialEq, Eq)]
pub struct ReadStep {
    pub id: SubjectId,
    pub change_kind: ChangeKind,
    pub previous_native_status: Option<String>,
    /// Reads the subject.
    pub statement: Statement,
}

/// What `Debug` formatting prints for the items of a list of texts.
pub open spec fn quoted_items(list: Seq<Seq<char>>) -> Seq<char>
    decreases list.len(),
{
    if list.len() == 0 {
        Seq::empty()
    } else if list.len() == 1 {
        quoted(list[0])
    } else {
        quoted_items(list.drop_last()) + ", "@ + quoted(list.last())
    }
}

/// The refusal of a subject of a kind that is not served.
pub open spec fn kind_error(kind: Seq<char>, kinds: Seq<Seq<char>>) -> ErrorView {
    ErrorView::InvalidRequest(
        "kind "@ + quoted(kind) + " is not in this backend's served set ["@ + quoted_items(kinds)
            + "]"@,
    )
}

/// The refusal of an id of another backend. The id stands in it as a derived
/// `Debug` prints a struct `SubjectId` of one string; that the protocol's own id
/// type prints alike is taken for granted.
pub open spec fn id_error(id: Seq<char>) -> ErrorView {
    ErrorView::InvalidRequest(
        "subject id SubjectId("@ + quoted(id)
            + ") is not a sqlite id (expected `sqlite:<id>` prefix)"@,
    )
}

/// An instant that the caller gave, or the current one in place of the first
/// second of 1970.
pub open spec fn stamped_at(given: (int, int), now: (int, int)) -> (int, int) {
    if given.0 == 0 {
        now
    } else {
        given
    }
}

/// A new subject as it is stored: under its own id if that is one of this
/// backend, else under a fresh one, and with the dates that the caller left out.
pub open spec fn stamped(subject: SubjectView, ulid: u128, now: (int, int)) -> SubjectView {
    SubjectView {
        id: if is_own_id(subject.id) {
            subject.id
        } else {
            subject_id_text(ulid)
        },
        created_at: stamped_at(subject.created_at, now),
        updated_at: stamped_at(subject.updated_at, now),
        ..subject
    }
}

/// How a request to create `subject` starts when the fresh id has the given
/// ULID and the clock shows `now`: the stored id and the insertion of the row,
/// or the refusal.
pub open spec fn creation(
    config: ConfigView,
    subject: SubjectView,
    ulid: u128,
    now: (int, int),
) -> Result<(Seq<char>, StatementView), ErrorView> {
    if !config.kinds.contains(subject.kind) {
        Err(kind_error(subject.kind, config.kinds))
    } else {
        let stored = stamped(subject, ulid, now);
        Ok((stored.id, insert_statement(row_of(stored))))
    }
}

/// Whether a request to create a subject started as `expected`.
pub open spec fn created_as(
    outcome: Result<CreateStep, BackendError>,
    expected: Result<(Seq<char>, StatementView), ErrorView>,
) -> bool {
    match (outcome, expected) {
        (Ok(step), Ok(start)) => step.id@ == start.0 && step.statement@ == start.1,
        (Err(error), Err(reason)) => error@ == reason,
        _ => false,
    }
}

/// Whether the columns that a new subject is written as, read again, give the
/// stored subject.
pub open spec fn creation_reads_back(subject: SubjectView, ulid: u128, now: (int, int)) -> bool {
    columns_read_back(row_of(stamped(subject, ulid, now)), stamped(subject, ulid, now))
}

/// A list of labels after some were added: each goes to the end, unless it is
/// there.
pub open spec fn labels_with(labels: Seq<Seq<char>>, added: Seq<Seq<char>>) -> Seq<Seq<char>>
    decreases added.len(),
{
    if added.len() == 0 {
        labels
    } else {
        let front = labels_with(labels, added.drop_last());
        if front.contains(added.last()) {
            front
        } else {
            front.push(added.last())
        }
    }
}

/// A list of labels without those that are removed.
pub open spec fn labels_without(labels: Seq<Seq<char>>, removed: Seq<Seq<char>>) -> Seq<Seq<char>> {
    labels.filter(|label: Seq<char>| !removed.contains(label))
}

/// Custom fields after a patch: `null` clears a field, any other value sets it,
/// and the native status is no custom field.
pub open spec fn patched_fields(
    fields: Map<Seq<char>, JsonView>,
    patch: Map<Seq<char>, JsonView>,
) -> Map<Seq<char>, JsonView> {
    Map::new(
        |key: Seq<char>|
            if key != NATIVE_STATUS_KEY@ && patch.contains_key(key) {
                !(patch[key] is Null)
            } else {
                fields.contains_key(key)
            },
        |key: Seq<char>|
            if key != NATIVE_STATUS_KEY@ && patch.contains_key(key) {
                patch[key]
            } else {
                fields[key]
            },
    )
}

/// The native status after a patch: `null` clears it, a string sets it, and any
/// other value sets it to its JSON text.
pub open spec fn patched_native_status(
    native_status: Option<Seq<char>>,
    patch: Map<Seq<char>, JsonView>,
) -> Option<Seq<char>> {
    if patch.contains_key(NATIVE_STATUS_KEY@) {
        match patch[NATIVE_STATUS_KEY@] {
            JsonView::Null => None,
            JsonView::Text(text) => Some(text),
            JsonView::Encoded(text) => Some(text),
        }
    } else {
        native_status
    }
}

/// A subject after a patch at the given time. What the patch does not name
/// stays; a comment takes the place of the description.
pub open spec fn patched(subject: SubjectView, patch: PatchView, now: (int, int)) -> SubjectView {
    SubjectView {
        status: match patch.status {
            Some(status) => status,
            None => subject.status,
        },
        assignee: match patch.assignee {
            Some(assignee) => assignee,
            None => subject.assignee,
        },
        labels: labels_with(labels_without(subject.labels, patch.labels_remove), patch.labels_add),
        description: match patch.comment {
            Some(text) => Some(text),
            None => subject.description,
        },
        custom: patched_fields(subject.custom, patch.custom),
        native_status: patched_native_status(subject.native_status, patch.custom),
        updated_at: now,
        ..subject
    }
}

/// What a patch does to a subject, as watchers are told.
pub open spec fn change_of(subject: SubjectView, patch: PatchView) -> ChangeKind {
    if patch.status is Some && patch.status != Some(subject.status) {
        ChangeKind::StatusChanged
    } else {
        ChangeKind::Updated
    }
}

/// The columns that a patched subject is written as.
pub open spec fn patch_changes(
    subject: SubjectView,
    patch: PatchView,
    now: (int, int),
) -> ChangesView {
    let after = patched(subject, patch, now);
    changes_of(
        after.status,
        after.assignee,
        after.labels,
        after.description,
        after.custom,
        after.native_status,
        after.updated_at,
    )
}

/// Whether a patched subject can be read again once its columns are written, as
/// far as that is up to the patched values: its custom fields outlast being
/// written and read, and its date is plain.
pub open spec fn patch_readable(after: SubjectView) -> bool {
    &&& lasting_fields(after.custom)
    &&& is_plain(after.updated_at)
}

/// The health that follows from whether the database answered, and the error
/// that is reported with it.
pub open spec fn health_of(outcome: Result<(), String>) -> (HealthStatus, Option<Seq<char>>) {
    match outcome {
        Ok(_) => (HealthStatus::Healthy, None),
        Err(reason) => (HealthStatus::Unhealthy, Some(reason@)),
    }
}

/// The event that tells watchers of a change to a stored subject.
pub open spec fn event_of(
    change_kind: ChangeKind,
    subject: SubjectView,
    previous_native_status: Option<Seq<char>>,
) -> EventView {
    EventView {
        id: subject.id,
        change_kind,
        subject,
        previous_native_status,
        previous_dispatch_label: None,
    }
}

/// The refusal of a subject of a kind that is not served.
fn kind_refusal(kind: &str, kinds: &Vec<String>) -> (r: BackendError)
    ensures
        r@ == kind_error(kind@, texts(kinds@)),
{
    let message = "kind ".to_owned().concat(debug_text(kind).as_str()).concat(
        " is not in this backend's served set [",
    ).concat(quote_items(kinds).as_str()).concat("]");
    BackendError::InvalidRequest(message)
}

/// What `Debug` formatting prints for the items of a list of texts.
fn quote_items(list: &Vec<String>) -> (r: String)
    ensures
        r@ == quoted_items(texts(list@)),
{
    let mut r = String::new();
    for i in 0..list.len()
        invariant
            r@ == quoted_items(texts(list@).take(i as int)),
    {
        if i > 0 {
            r.append(", ");
        }
        r.append(debug_text(list[i].as_str()).as_str());
        assert(texts(list@).take(i + 1).drop_last() == texts(list@).take(i as int));
        assert(r@ == quoted_items(texts(list@).take(i + 1)));
    }
    assert(texts(list@).take(list@.len() as int) == texts(list@));
    r
}

/// The refusal of an id of another backend.
fn id_refusal(id: &SubjectId) -> (r: BackendError)
    ensures
        r@ == id_error(id@),
{
    let message = "subject id SubjectId(".to_owned().concat(
        debug_text(id.as_str()).as_str(),
    ).concat(") is not a sqlite id (expected `sqlite:<id>` prefix)");
    BackendError::InvalidRequest(message)
}

impl SqliteBackend {
    /// A backend with the given configuration.
    pub fn new(config: SqliteConfig) -> (r: Self)
        ensures
            r.config == config,
    {
        SqliteBackend { config }
    }

    /// The kinds that the backend serves.
    pub fn served_kinds(&self) -> (r: &Vec<String>)
        ensures
            texts(r@) == self.config@.kinds,
    {
        &self.config.kinds
    }

    /// Starts to create a subject. It may come with an id of this backend; an
    /// empty or foreign id gives way to a fresh one.
    pub fn create(&self, subject: Subject) -> (r: Result<CreateStep, BackendError>)
        ensures
            exists|ulid: u128, now: (int, int)| #[trigger]
                created_as(r, creation(self.config@, subject@, ulid, now)) && is_drawn(ulid)
                    && on_the_clock(now) && (self.config@.kinds.contains(subject@.kind)
                    ==> creation_reads_back(subject@, ulid, now)),
            !self.config@.kinds.contains(subject@.kind) ==> r is Err && r->Err_0@ == kind_error(
                subject@.kind,
                self.config@.kinds,
            ),
            self.config@.kinds.contains(subject@.kind) ==> r is Ok,
            r matches Ok(step) ==> is_own_id(step.id@),
    {
        let ulid: u128 = draw_ulid();
        let now = Timestamp::now();
        self.create_with(subject, ulid, now)
    }

    /// Starts to create a subject, with the ULID of its fresh id and the current
    /// time at hand.
    pub fn create_with(&self, subject: Subject, ulid: u128, now: Timestamp) -> (r: Result<
        CreateStep,
        BackendError,
    >)
        ensures
            created_as(r, creation(self.config@, subject@, ulid, now@)),
            self.config@.kinds.contains(subject@.kind) ==> r is Ok,
            r matches Ok(step) ==> is_own_id(step.id@),
            self.config@.kinds.contains(subject@.kind) ==> creation_reads_back(subject@, ulid, now@),
    {
        if !self.config.accepts_kind(subject.kind.as_str()) {
            return Err(kind_refusal(subject.kind.as_str(), &self.config.kinds));
        }
        let ghost given = subject@;
        let mut subject = subject;
        if !is_sqlite_id(&subject.id) {
            subject.id = subject_id_of(ulid);
        }
        if subject.created_at.timestamp() == 0 {
            subject.created_at = now;
        }
        if subject.updated_at.timestamp() == 0 {
            subject.updated_at = now;
        }
        assert(subject@ =~= stamped(given, ulid, now@));
        match SqliteStore::insert(&subject) {
            Ok(statement) => Ok(CreateStep { id: subject.id, statement }),
            Err(error) => Err(error),
        }
    }

    /// Starts to read a subject; [`SqliteStore::fetched`] takes the answer.
    pub fn get(&self, id: &SubjectId) -> (r: Result<Statement, BackendError>)
        ensures
            match r {
                Ok(statement) => is_own_id(id@) && statement@ == get_statement(id@),
                Err(error) => !is_own_id(id@) && error@ == id_error(id@),
            },
    {
        if !is_sqlite_id(id) {
            return Err(id_refusal(id));
        }
        Ok(SqliteStore::get(id))
    }

    /// Starts to change a subject.
    pub fn update(&self, id: &SubjectId, patch: SubjectPatch) -> (r: Result<
        UpdateStep,
        BackendError,
    >)
        ensures
            match r {
                Ok(step) => {
                    &&& is_own_id(id@)
                    &&& step.id@ == id@
                    &&& step.patch == patch
                    &&& step.statement@ == get_statement(id@)
                },
                Err(error) => !is_own_id(id@) && error@ == id_error(id@),
            },
    {
        if !is_sqlite_id(id) {
            return Err(id_refusal(id));
        }
        Ok(UpdateStep { id: id.clone(), patch, statement: SqliteStore::get(id) })
    }

    /// Starts to list subjects.
    pub fn list(&self, filter: &SubjectFilter) -> (r: Statement)
        ensures
            r@ == list_statement(filter@),
            since_sorts(filter@),
    {
        SqliteStore::list(filter)
    }

    /// The page in the database's answer to a listing.
    pub fn listed(
        &self,
        filter: &SubjectFilter,
        reply: Result<Vec<Result<FetchedRow, String>>, String>,
    ) -> (r: Result<SubjectList, BackendError>)
        ensures
            match reply {
                Ok(rows) => match (r, page_of(filter@, page_rows(rows@))) {
                    (Ok(page), Ok(expected)) => {
                        &&& subject_views(page.subjects@) == expected.0
                        &&& opt_text(page.next_cursor) == expected.1
                        &&& on_the_clock(page.fetched_at@)
                    },
                    (Err(error), Err(expected)) => error@ == expected,
                    _ => false,
                },
                Err(reason) => r is Err && r->Err_0@ == ErrorView::Unavailable(reason@),
            },
    {
        match SqliteStore::listed(filter, reply) {
            Ok((subjects, next_cursor)) => Ok(
                SubjectList { subjects, next_cursor, fetched_at: Timestamp::now() },
            ),
            Err(error) => Err(error),
        }
    }

    /// What the backend offers.
    pub fn schema(&self) -> (r: SubjectSchema)
        ensures
            texts(r.kinds@) == self.config@.kinds,
            r.status_values@ == seq![
                SubjectStatus::Ready,
                SubjectStatus::InProgress,
                SubjectStatus::Blocked,
                SubjectStatus::Done,
                SubjectStatus::Cancelled,
            ],
            r.supports_watch,
            r.supports_create,
            r.supports_pagination,
            r.native_status_values@.len() == 0,
            r.status_dispatch_hints@.len() == 0,
            r.custom_fields@.len() == 2,
            r.custom_fields@[0].key@ == "priority"@,
            r.custom_fields@[0].kind == CustomFieldKind::Number,
            r.custom_fields@[0].values is None,
            r.custom_fields@[1].key@ == NATIVE_STATUS_KEY@,
            r.custom_fields@[1].kind == CustomFieldKind::String,
            r.custom_fields@[1].values is None,
    {
        let kinds = self.config.kinds.clone();
        assert(texts(kinds@) == texts(self.config.kinds@));
        SubjectSchema {
            kinds,
            status_values: vec![
                SubjectStatus::Ready,
                SubjectStatus::InProgress,
                SubjectStatus::Blocked,
                SubjectStatus::Done,
                SubjectStatus::Cancelled,
            ],
            supports_watch: true,
            supports_create: true,
            supports_pagination: true,
            native_status_values: Vec::new(),
            status_dispatch_hints: Vec::new(),
            custom_fields: vec![
                CustomFieldSpec {
                    key: "priority".to_owned(),
                    kind: CustomFieldKind::Number,
                    values: None,
                },
                CustomFieldSpec {
                    key: NATIVE_STATUS_KEY.to_owned(),
                    kind: CustomFieldKind::String,
                    values: None,
                },
            ],
        }
    }

    /// The backend's health, given what [`SqliteStore::pinged`] made of the
    /// database's answer, an error in words. A failure is reported, not returned.
    pub fn health(&self, outcome: Result<(), String>) -> (r: HealthCheckResult)
        ensures
            r.uptime_ms is None,
            r.memory_usage_bytes is None,
            (r.status, opt_text(r.last_error)) == health_of(outcome),
    {
        match outcome {
            Ok(_) => HealthCheckResult {
                status: HealthStatus::Healthy,
                uptime_ms: None,
                memory_usage_bytes: None,
                last_error: None,
            },
            Err(reason) => HealthCheckResult {
                status: HealthStatus::Unhealthy,
                uptime_ms: None,
                memory_usage_bytes: None,
                last_error: Some(reason),
            },
        }
    }
}

/// Whether a step reads the subject with the given id back, with what watchers
/// are to be told.
pub open spec fn reading_back(
    step: ReadStep,
    id: Seq<char>,
    change_kind: ChangeKind,
    previous_native_status: Option<Seq<char>>,
) -> bool {
    &&& step.id@ == id
    &&& step.change_kind == change_kind
    &&& opt_text(step.previous_native_status) == previous_native_status
    &&& step.statement@ == get_statement(id)
}

impl CreateStep {
    /// Goes on when the database has answered the insertion: the row is read
    /// back.
    pub fn inserted(self, reply: Result<u64, String>) -> (r: Result<ReadStep, BackendError>)
        ensures
            match r {
                Ok(step) => {
                    &&& answer_error(reply) is None
                    &&& reading_back(step, self.id@, ChangeKind::Created, None)
                },
                Err(error) => answer_error(reply) == Some(error@),
            },
    {
        match SqliteStore::inserted(reply) {
            Ok(_) => {
                let statement = SqliteStore::get(&self.id);
                Ok(
                    ReadStep {
                        id: self.id,
                        change_kind: ChangeKind::Created,
                        previous_native_status: None,
                        statement,
                    },
                )
            },
            Err(error) => Err(error),
        }
    }
}

/// Whether reading the subject that a patch is for went on as it must: to
/// writing the changed columns, or to the error.
pub open spec fn patching_as(
    outcome: Result<WriteStep, BackendError>,
    id: Seq<char>,
    patch: PatchView,
    reply: Result<Option<FetchedView>, Seq<char>>,
    now: (int, int),
) -> bool {
    match (outcome, fetched_subject(id, reply)) {
        (Ok(step), Ok(current)) => {
            &&& step.id@ == id
            &&& step.change_kind == change_of(current, patch)
            &&& opt_text(step.previous_native_status) == current.native_status
            &&& step.statement@ == update_statement(id, patch_changes(current, patch, now))
        },
        (Err(error), Err(expected)) => error@ == expected,
        _ => false,
    }
}

/// Whether the columns that a patched subject is written as, read again, give
/// the patched values.
pub open spec fn patching_reads_back(
    id: Seq<char>,
    patch: PatchView,
    reply: Result<Option<FetchedView>, Seq<char>>,
    now: (int, int),
) -> bool {
    fetched_subject(id, reply) matches Ok(current) ==> {
        let after = patched(current, patch, now);
        changes_read_back(patch_changes(current, patch, now), after.labels, after.custom, now)
    }
}

impl UpdateStep {
    /// Goes on when the database has answered with the subject: the patch is
    /// applied at the current time, and the result is written.
    pub fn fetched(self, reply: Result<Option<FetchedRow>, String>) -> (r: Result<
        WriteStep,
        BackendError,
    >)
        ensures
            exists|now: (int, int)| #[trigger]
                patching_as(r, self.id@, self.patch@, row_reply(reply), now) && on_the_clock(now) && patching_reads_back(self.id@, self.patch@, row_reply(reply), now),
    {
        let now = Timestamp::now();
        self.fetched_at(reply, now)
    }

    /// Goes on when the database has answered with the subject, with the current
    /// time at hand.
    pub fn fetched_at(self, reply: Result<Option<FetchedRow>, String>, now: Timestamp) -> (r:
        Result<WriteStep, BackendError>)
        ensures
            patching_as(r, self.id@, self.patch@, row_reply(reply), now@),
            patching_reads_back(self.id@, self.patch@, row_reply(reply), now@),
    {
        let current = match SqliteStore::fetched(&self.id, reply) {
            Ok(subject) => subject,
            Err(error) => return Err(error),
        };
        let status = match self.patch.status {
            Some(status) => status,
            None => current.status,
        };
        let change_kind = match self.patch.status {
            Some(status) => if status != current.status {
                ChangeKind::StatusChanged
            } else {
                ChangeKind::Updated
            },
            None => ChangeKind::Updated,
        };
        let assignee = match self.patch.assignee {
            Some(assignee) => assignee,
            None => current.assignee,
        };
        let labels = patch_labels(
            &current.labels,
            &self.patch.labels_remove,
            &self.patch.labels_add,
        );
        let body = match self.patch.comment {
            Some(text) => Some(text),
            None => current.description,
        };
        let previous_native_status = current.native_status.clone();
        let native_status = patch_native_status(current.native_status, &self.patch.custom);
        let custom = patch_fields(current.custom, &self.patch.custom);
        match SqliteStore::update_row(
            &self.id,
            status,
            assignee,
            &labels,
            body,
            &custom,
            native_status,
            now,
        ) {
            Ok(statement) => {
                Ok(WriteStep { id: self.id, change_kind, previous_native_status, statement })
            },
            Err(error) => Err(error),
        }
    }
}

impl WriteStep {
    /// Goes on when the database has answered the update: the row is read back,
    /// unless there was none.
    pub fn written(self, reply: Result<u64, String>) -> (r: Result<ReadStep, BackendError>)
        ensures
            match r {
                Ok(step) => {
                    &&& write_error(self.id@, reply) is None
                    &&& step.previous_native_status == self.previous_native_status
                    &&& reading_back(
                        step,
                        self.id@,
                        self.change_kind,
                        opt_text(self.previous_native_status),
                    )
                },
                Err(error) => write_error(self.id@, reply) == Some(error@),
            },
    {
        match SqliteStore::updated(&self.id, reply) {
            Ok(_) => {
                let statement = SqliteStore::get(&self.id);
                Ok(
                    ReadStep {
                        id: self.id,
                        change_kind: self.change_kind,
                        previous_native_status: self.previous_native_status,
                        statement,
                    },
                )
            },
            Err(error) => Err(error),
        }
    }
}

/// Whether a request ended as it must when the stored subject was read back: with
/// the subject and the event, or with the error.
pub open spec fn finished_as(
    outcome: Result<(Subject, SubjectChangedEvent), BackendError>,
    step: ReadStep,
    reply: Result<Option<FetchedView>, Seq<char>>,
) -> bool {
    match (outcome, fetched_subject(step.id@, reply)) {
        (Ok(done), Ok(stored)) => {
            &&& done.0@ == stored
            &&& done.1@ == event_of(
                step.change_kind,
                stored,
                opt_text(step.previous_native_status),
            )
        },
        (Err(error), Err(expected)) => error@ == expected,
        _ => false,
    }
}

impl ReadStep {
    /// Ends the request when the database has answered with the stored subject:
    /// the subject for the caller, and the event for the watchers.
    pub fn fetched(self, reply: Result<Option<FetchedRow>, String>) -> (r: Result<
        (Subject, SubjectChangedEvent),
        BackendError,
    >)
        ensures
            finished_as(r, self, row_reply(reply)),
    {
        match SqliteStore::fetched(&self.id, reply) {
            Ok(stored) => {
                let event = SubjectChangedEvent {
                    id: stored.id.clone(),
                    change_kind: self.change_kind,
                    subject: stored.clone(),
                    previous_native_status: self.previous_native_status,
                    previous_dispatch_label: None,
                };
                Ok((stored, event))
            },
            Err(error) => Err(error),
        }
    }
}

/// A list of labels after some were removed and some were added.
fn patch_labels(labels: &Vec<String>, removed: &Vec<String>, added: &Vec<String>) -> (r: Vec<
    String,
>)
    ensures
        texts(r@) == labels_with(labels_without(texts(labels@), texts(removed@)), texts(added@)),
{
    let ghost keep = |label: Seq<char>| !texts(removed@).contains(label);
    let mut r: Vec<String> = Vec::new();
    assert(texts(labels@).take(0) == Seq::<Seq<char>>::empty());
    reveal(Seq::filter);
    assert(texts(r@) == texts(labels@).take(0).filter(keep));
    for i in 0..labels.len()
        invariant
            keep == (|label: Seq<char>| !texts(removed@).contains(label)),
            texts(r@) == texts(labels@).take(i as int).filter(keep),
    {
        let ghost before = r@;
        let ghost front = texts(labels@).take(i as int);
        assert(texts(labels@).take(i + 1).drop_last() == front);
        assert(texts(labels@).take(i + 1).last() == labels@[i as int]@);
        reveal(Seq::filter);
        if !contains_text(removed, labels[i].as_str()) {
            r.push(labels[i].clone());
            assert(texts(r@) == texts(before).push(labels@[i as int]@));
        }
        assert(texts(r@) == texts(labels@).take(i + 1).filter(keep));
    }
    assert(texts(labels@).take(labels@.len() as int) == texts(labels@));
    let ghost kept_labels = texts(r@);
    assert(kept_labels == labels_without(texts(labels@), texts(removed@)));
    assert(texts(added@).take(0) == Seq::<Seq<char>>::empty());
    for i in 0..added.len()
        invariant
            texts(r@) == labels_with(kept_labels, texts(added@).take(i as int)),
    {
        let ghost before = r@;
        assert(texts(added@).take(i + 1).drop_last() == texts(added@).take(i as int));
        if !contains_text(&r, added[i].as_str()) {
            r.push(added[i].clone());
            assert(texts(r@) == texts(before).push(added@[i as int]@));
        }
        assert(texts(r@) == labels_with(kept_labels, texts(added@).take(i + 1)));
    }
    assert(texts(added@).take(added@.len() as int) == texts(added@));
    r
}

/// The native status after a patch.
fn patch_native_status(native_status: Option<String>, patch: &CustomFields) -> (r: Option<String>)
    ensures
        opt_text(r) == patched_native_status(opt_text(native_status), patch@),
{
    match patch.get(NATIVE_STATUS_KEY) {
        Some(value) => match value {
            JsonValue::Null => None,
            JsonValue::Text(text) => Some(text.clone()),
            JsonValue::Other(data) => Some(data.text()),
        },
        None => native_status,
    }
}

/// Custom fields after a patch.
fn patch_fields(fields: CustomFields, patch: &CustomFields) -> (r: CustomFields)
    ensures
        r@ == patched_fields(fields@, patch@),
{
    let entries = patch.entries();
    let mut r = fields;
    assert(entries@.take(0) == Seq::<(String, JsonValue)>::empty());
    assert(r@ == patched_fields(fields@, entries_map(entries@.take(0))));
    for i in 0..entries.len()
        invariant
            r@ == patched_fields(fields@, entries_map(entries@.take(i as int))),
    {
        let ghost before = r@;
        let ghost done = entries_map(entries@.take(i as int));
        let ghost key = entries@[i as int].0@;
        let ghost value = entries@[i as int].1@;
        assert(entries@.take(i + 1).drop_last() == entries@.take(i as int));
        assert(entries_map(entries@.take(i + 1)) == done.insert(key, value));
        if !same_text(entries[i].0.as_str(), NATIVE_STATUS_KEY) {
            if entries[i].1.is_null() {
                r.remove(entries[i].0.as_str());
            } else {
                r.insert(entries[i].0.clone(), entries[i].1.clone());
            }
        }
        assert(r@ =~= patched_fields(fields@, done.insert(key, value)));
    }
    assert(entries@.take(entries@.len() as int) == entries@);
    r
}

} // verus!
