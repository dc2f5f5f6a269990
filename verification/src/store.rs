//! The statements that the backend puts to the database, and what it makes of
//! the answers.
//!
//! [`SqliteStore`] makes every statement on the table. It builds a [`Statement`],
//! whoever holds the connection runs it, and the answer comes back to a second
//! function: a row as its columns, a failure as the text of the database's
//! error.

use crate::json::{fields_json, holds_labels, keeps_fields, labels_json};
use crate::json::{labels_to_json, CustomFields, JsonView};
use crate::row::{columns_read_back, row_of, row_to_subject, status_text, status_to_str};
use crate::row::{subject_in, subject_to_row, FetchedRow, FetchedView, RowView};
use crate::sql::{add_any_of, add_conditions, add_just, all_columns, any_of, assigned};
use crate::sql::{assigned_columns, assigned_values, column_name, columns, condition_views};
use crate::sql::{conditions_binds, conditions_text, just, law_assignments_write_their_columns};
use crate::sql::{lemma_rows_are_their_values, marks, name_of, names, names_text, opt_bind};
use crate::sql::{question_marks, setters, setters_text, sound, value_of, Assignment, Column};
use crate::sql::{Condition, ConditionView, Relation};
use crate::subject::{attachment_views, subject_views, AttachmentView, BackendError, ErrorView};
use crate::subject::{FilterView, Subject, SubjectAttachment, SubjectFilter, SubjectId};
use crate::subject::{SubjectStatus, SubjectView};
use crate::text::{contains_text, opt_text, same_text, texts};
use crate::time::{reads_back, representable, rfc3339_text, sorts_by_time, Timestamp};
use vstd::prelude::*;

verus! {

/// The most rows that one page of a listing holds, whatever the caller asks
/// for.
pub const MAX_LIMIT: u32 = 500;

/// How many rows a page holds when the caller does not say.
pub const DEFAULT_LIMIT: u32 = 50;

/// Reads nothing that matters.
pub const PING_SQL: &'static str = "SELECT 1";

/// A value that takes the place of a question mark in a statement.
#[derive(Debug, PartialEq, Eq)]
pub enum BindValue {
    Null,
    Text(String),
    Int(i64),
}

/// What a [`BindValue`] stands for.
pub enum BindView {
    Null,
    Text(Seq<char>),
    Int(i64),
}

impl View for BindValue {
    type V = BindView;

    open spec fn view(&self) -> BindView {
        match self {
            BindValue::Null => BindView::Null,
            BindValue::Text(text) => BindView::Text(text@),
            BindValue::Int(n) => BindView::Int(*n),
        }
    }
}

/// An SQL statement and the values of its question marks, in order.
#[derive(Debug, PartialEq, Eq)]
pub struct Statement {
    pub sql: String,
    pub binds: Vec<BindValue>,
}

/// What a [`Statement`] stands for.
#[verifier::ext_equal]
pub struct StatementView {
    pub sql: Seq<char>,
    pub binds: Seq<BindView>,
}

/// What a list of values stands for.
pub open spec fn bind_views(binds: Seq<BindValue>) -> Seq<BindView> {
    binds.map_values(|b: BindValue| b@)
}

impl View for Statement {
    type V = StatementView;

    open spec fn view(&self) -> StatementView {
        StatementView { sql: self.sql@, binds: bind_views(self.binds@) }
    }
}

/// The assignments that make a row.
pub open spec fn insertion(row: RowView) -> Seq<Assignment> {
    columns().map_values(|c: Column| (c, value_of(row, c)))
}

/// The statement that inserts a row.
pub open spec fn insert_statement(row: RowView) -> StatementView {
    StatementView {
        sql: "INSERT INTO subjects ("@ + names_text(assigned_columns(insertion(row)))
            + ") VALUES ("@ + question_marks(insertion(row).len()) + ")"@,
        binds: assigned_values(insertion(row)),
    }
}

/// What reads every column of rows; a condition follows.
pub open spec fn select_text() -> Seq<char> {
    "SELECT "@ + names_text(columns()) + " FROM subjects WHERE "@
}

/// The condition that picks the row with the id that takes the place of the
/// question mark.
pub open spec fn by_id_text() -> Seq<char> {
    name_of(Column::Id) + " = ?"@
}

/// The statement that reads the row with the given id.
pub open spec fn get_statement(id: Seq<char>) -> StatementView {
    StatementView { sql: select_text() + by_id_text(), binds: seq![BindView::Text(id)] }
}

/// How many rows a page holds at most.
pub open spec fn page_limit(limit: Option<u32>) -> int {
    let asked = match limit {
        Some(n) => n,
        None => DEFAULT_LIMIT,
    };
    if asked < 1 {
        1
    } else if asked > MAX_LIMIT {
        MAX_LIMIT as int
    } else {
        asked as int
    }
}

/// The RFC 3339 text of an optional instant.
pub open spec fn since_text(instant: Option<(int, int)>) -> Option<Seq<char>> {
    match instant {
        Some(t) => Some(rfc3339_text(t.0, t.1)),
        None => None,
    }
}

/// Whether the text that a listing compares dates with sorts among the texts of
/// instants as the filter's date does among them.
pub open spec fn since_sorts(filter: FilterView) -> bool {
    filter.updated_since matches Some(t) ==> representable(t.0, t.1) && sorts_by_time(
        rfc3339_text(t.0, t.1),
        t.0,
        t.1,
    )
}

/// The texts of a list of statuses.
pub open spec fn status_texts(list: Seq<SubjectStatus>) -> Seq<Seq<char>> {
    list.map_values(|s: SubjectStatus| status_text(s))
}

/// The conditions of a listing.
pub open spec fn conditions(filter: FilterView) -> Seq<ConditionView> {
    any_of(Column::Kind, filter.kind) + any_of(Column::Status, status_texts(filter.status))
        + any_of(Column::Assignee, filter.assignee) + just(
        Column::UpdatedAt,
        Relation::AtLeast,
        since_text(filter.updated_since),
    ) + just(Column::NativeStatus, Relation::Equal, filter.native_status) + just(
        Column::Id,
        Relation::Behind,
        filter.cursor,
    )
}

/// The statement that reads a page. It asks for one row more than the page
/// holds, which shows whether there is a next page.
pub open spec fn list_statement(filter: FilterView) -> StatementView {
    StatementView {
        sql: select_text() + "1 = 1"@ + conditions_text(conditions(filter)) + " ORDER BY "@
            + name_of(Column::Id) + " ASC LIMIT ?"@,
        binds: conditions_binds(conditions(filter)).push(
            BindView::Int((page_limit(filter.limit) + 1) as i64),
        ),
    }
}

/// The columns that an update writes.
#[verifier::ext_equal]
pub struct ChangesView {
    pub status: Seq<char>,
    pub assignee: Option<Seq<char>>,
    pub labels: Seq<char>,
    pub body: Option<Seq<char>>,
    pub custom_fields: Seq<char>,
    pub native_status: Option<Seq<char>>,
    pub updated_at: Seq<char>,
}

/// The assignments that write the changed columns.
pub open spec fn assignments(changes: ChangesView) -> Seq<Assignment> {
    seq![
        (Column::Status, BindView::Text(changes.status)),
        (Column::Assignee, opt_bind(changes.assignee)),
        (Column::Labels, BindView::Text(changes.labels)),
        (Column::Body, opt_bind(changes.body)),
        (Column::CustomFields, BindView::Text(changes.custom_fields)),
        (Column::NativeStatus, opt_bind(changes.native_status)),
        (Column::UpdatedAt, BindView::Text(changes.updated_at)),
    ]
}

/// The statement that writes the changed columns of the row with the given id.
pub open spec fn update_statement(id: Seq<char>, changes: ChangesView) -> StatementView {
    StatementView {
        sql: "UPDATE subjects SET "@ + setters_text(assigned_columns(assignments(changes)))
            + " WHERE "@ + by_id_text(),
        binds: assigned_values(assignments(changes)).push(BindView::Text(id)),
    }
}

/// The columns that an update with the given values writes.
pub open spec fn changes_of(
    status: SubjectStatus,
    assignee: Option<Seq<char>>,
    labels: Seq<Seq<char>>,
    body: Option<Seq<char>>,
    custom: Map<Seq<char>, JsonView>,
    native_status: Option<Seq<char>>,
    updated_at: (int, int),
) -> ChangesView {
    ChangesView {
        status: status_text(status),
        assignee,
        labels: labels_json(labels),
        body,
        custom_fields: fields_json(custom),
        native_status,
        updated_at: rfc3339_text(updated_at.0, updated_at.1),
    }
}

/// What a row becomes when the changed columns are written to it.
pub open spec fn changed_row(row: RowView, changes: ChangesView) -> RowView {
    RowView {
        status: changes.status,
        assignee: changes.assignee,
        labels: changes.labels,
        body: changes.body,
        custom_fields: changes.custom_fields,
        native_status: changes.native_status,
        updated_at: changes.updated_at,
        ..row
    }
}

/// The assignments of an insertion make the row, whatever stood in its place.
pub proof fn law_insertion_makes_the_row(blank: RowView, row: RowView)
    ensures
        assigned(blank, insertion(row)) == row,
{
    let list = insertion(row);
    assert(sound(list));
    law_assignments_write_their_columns(blank, list);
    let made = assigned(blank, list);
    assert forall|c: Column| #[trigger] value_of(made, c) == value_of(row, c) by {
        let i = lemma_column_is_listed(c);
        assert(list[i] == (c, value_of(row, c)));
    }
    lemma_rows_are_their_values(made, row);
}

proof fn lemma_column_is_listed(c: Column) -> (i: int)
    ensures
        0 <= i < columns().len(),
        columns()[i] == c,
{
    match c {
        Column::Id => 0,
        Column::Kind => 1,
        Column::Title => 2,
        Column::Body => 3,
        Column::Status => 4,
        Column::Priority => 5,
        Column::Assignee => 6,
        Column::Labels => 7,
        Column::ParentId => 8,
        Column::CustomFields => 9,
        Column::NativeStatus => 10,
        Column::StatusMetadata => 11,
        Column::Attachments => 12,
        Column::CreatedAt => 13,
        Column::UpdatedAt => 14,
    }
}

/// The assignments of an update write the changed columns and no others.
pub proof fn law_update_writes_the_changed_columns(row: RowView, changes: ChangesView)
    ensures
        assigned(row, assignments(changes)) == changed_row(row, changes),
{
    let list = assignments(changes);
    law_assignments_write_their_columns(row, list);
    let made = assigned(row, list);
    let expected = changed_row(row, changes);
    let changed = assigned_columns(list);
    assert(changed == seq![
        Column::Status,
        Column::Assignee,
        Column::Labels,
        Column::Body,
        Column::CustomFields,
        Column::NativeStatus,
        Column::UpdatedAt,
    ]);
    assert forall|c: Column| #[trigger] value_of(made, c) == value_of(expected, c) by {
        if changed.contains(c) {
            let i = choose|i: int| 0 <= i < changed.len() && changed[i] == c;
            assert(list[i].0 == c);
            assert(value_of(expected, c) == list[i].1);
        } else {
            assert(changed[0] != c && changed[1] != c && changed[2] != c && changed[3] != c
                && changed[4] != c && changed[5] != c && changed[6] != c);
            assert(value_of(expected, c) == value_of(row, c));
        }
    }
    lemma_rows_are_their_values(made, expected);
}

/// Whether the changed columns, read again, give the values that were written:
/// the labels always, the fields as far as they outlast being written and read,
/// the date if it is plain.
pub open spec fn changes_read_back(
    changes: ChangesView,
    labels: Seq<Seq<char>>,
    custom: Map<Seq<char>, JsonView>,
    updated_at: (int, int),
) -> bool {
    &&& holds_labels(changes.labels, labels)
    &&& keeps_fields(changes.custom_fields, custom)
    &&& reads_back(changes.updated_at, updated_at.0, updated_at.1)
}

/// The statement that shows whether the database answers.
pub open spec fn ping_statement() -> StatementView {
    StatementView { sql: PING_SQL@, binds: Seq::empty() }
}

/// What an answer to reading one row stands for.
pub open spec fn row_reply(reply: Result<Option<FetchedRow>, String>) -> Result<
    Option<FetchedView>,
    Seq<char>,
> {
    match reply {
        Ok(Some(row)) => Ok(Some(row@)),
        Ok(None) => Ok(None),
        Err(reason) => Err(reason@),
    }
}

/// The subject that an answer to reading the row with the given id holds.
pub open spec fn fetched_subject(
    id: Seq<char>,
    reply: Result<Option<FetchedView>, Seq<char>>,
) -> Result<SubjectView, ErrorView> {
    match reply {
        Ok(Some(row)) => subject_in(row),
        Ok(None) => Err(ErrorView::NotFound(id)),
        Err(reason) => Err(ErrorView::Unavailable(reason)),
    }
}

/// What a row of a page stands for; a row whose columns could not be read is the
/// text of the database's error.
pub open spec fn page_row(row: Result<FetchedRow, String>) -> Result<FetchedView, Seq<char>> {
    match row {
        Ok(columns) => Ok(columns@),
        Err(reason) => Err(reason@),
    }
}

/// What the rows of a page stand for.
pub open spec fn page_rows(rows: Seq<Result<FetchedRow, String>>) -> Seq<
    Result<FetchedView, Seq<char>>,
> {
    rows.map_values(|row: Result<FetchedRow, String>| page_row(row))
}

/// The subject that a row of a page holds.
pub open spec fn page_subject(row: Result<FetchedView, Seq<char>>) -> Result<SubjectView, ErrorView> {
    match row {
        Ok(columns) => subject_in(columns),
        Err(reason) => Err(ErrorView::Unavailable(reason)),
    }
}

/// Whether two lists have a text in common.
pub open spec fn share_text(a: Seq<Seq<char>>, b: Seq<Seq<char>>) -> bool {
    exists|t: Seq<char>| #[trigger] a.contains(t) && b.contains(t)
}

/// Whether `list` holds every text of `needed`.
pub open spec fn hold_texts(list: Seq<Seq<char>>, needed: Seq<Seq<char>>) -> bool {
    forall|t: Seq<char>| #[trigger] needed.contains(t) ==> list.contains(t)
}

/// Whether an attachment is of the given kind.
pub open spec fn has_kind(list: Seq<AttachmentView>, kind: Seq<char>) -> bool {
    exists|i: int| 0 <= i < list.len() && (#[trigger] list[i]).kind == kind
}

/// Whether a subject passes the conditions that are not part of the statement:
/// those on labels and on attachments.
pub open spec fn wanted(filter: FilterView, subject: SubjectView) -> bool {
    &&& filter.labels_any.len() == 0 || share_text(subject.labels, filter.labels_any)
    &&& hold_texts(subject.labels, filter.labels_all)
    &&& filter.has_attachment_kind is None || has_kind(
        subject.attachments,
        filter.has_attachment_kind->0,
    )
}

/// The subjects of a list of rows that pass the filter, in order, or the error
/// of the first row that holds no subject.
pub open spec fn wanted_subjects(
    filter: FilterView,
    rows: Seq<Result<FetchedView, Seq<char>>>,
) -> Result<Seq<SubjectView>, ErrorView>
    decreases rows.len(),
{
    if rows.len() == 0 {
        Ok(Seq::empty())
    } else {
        match wanted_subjects(filter, rows.drop_last()) {
            Ok(front) => match page_subject(rows.last()) {
                Ok(subject) => if wanted(filter, subject) {
                    Ok(front.push(subject))
                } else {
                    Ok(front)
                },
                Err(error) => Err(error),
            },
            Err(error) => Err(error),
        }
    }
}

/// The rows of an answer that belong to the page: all but the one that was
/// asked for in excess.
pub open spec fn rows_of_page(
    filter: FilterView,
    rows: Seq<Result<FetchedView, Seq<char>>>,
) -> Seq<Result<FetchedView, Seq<char>>> {
    if rows.len() > page_limit(filter.limit) {
        rows.take(page_limit(filter.limit))
    } else {
        rows
    }
}

/// The page that an answer makes: its subjects, and, if there are more rows, the
/// id of the last row that belongs to the page. That row counts even when the
/// filter drops its subject, so that no page ends a listing early.
pub open spec fn page_of(
    filter: FilterView,
    rows: Seq<Result<FetchedView, Seq<char>>>,
) -> Result<(Seq<SubjectView>, Option<Seq<char>>), ErrorView> {
    let mine = rows_of_page(filter, rows);
    match wanted_subjects(filter, mine) {
        Ok(subjects) => Ok(
            (
                subjects,
                if rows.len() > page_limit(filter.limit) {
                    Some(mine.last()->Ok_0.columns.id)
                } else {
                    None
                },
            ),
        ),
        Err(error) => Err(error),
    }
}

/// What an answer to an insertion or to [`SqliteStore::ping`] makes of the
/// request, if not a success: a failure makes the backend unavailable.
pub open spec fn answer_error<T>(reply: Result<T, String>) -> Option<ErrorView> {
    match reply {
        Ok(_) => None,
        Err(reason) => Some(ErrorView::Unavailable(reason@)),
    }
}

/// What an answer to an update of the row with the given id makes of the
/// request, if not a success. A row that is not there is not found.
pub open spec fn write_error(id: Seq<char>, reply: Result<u64, String>) -> Option<ErrorView> {
    match reply {
        Ok(rows) => if rows == 0 {
            Some(ErrorView::NotFound(id))
        } else {
            None
        },
        Err(reason) => Some(ErrorView::Unavailable(reason@)),
    }
}

/// Builds the statements on the table of subjects, and reads the answers.
pub struct SqliteStore {}

impl SqliteStore {
    /// The statement that inserts a subject. Whoever runs it then reads the row
    /// back, as [`SqliteStore::get`] does.
    pub fn insert(subject: &Subject) -> (r: Result<Statement, BackendError>)
        ensures
            r matches Ok(statement) && statement@ == insert_statement(row_of(subject@)),
            columns_read_back(row_of(subject@), subject@),
    {
        let row = match subject_to_row(subject) {
            Ok(row) => row,
            Err(error) => return Err(error),
        };
        let ghost view = row@;
        let sql = "INSERT INTO subjects (".to_owned().concat(
            names(&all_columns()).as_str(),
        ).concat(") VALUES (").concat(marks(all_columns().len()).as_str()).concat(")");
        let binds: Vec<BindValue> = vec![
            BindValue::Text(row.id),
            BindValue::Text(row.kind),
            BindValue::Text(row.title),
            bind_opt(row.body),
            BindValue::Text(row.status),
            match row.priority {
                Some(n) => BindValue::Int(n),
                None => BindValue::Null,
            },
            bind_opt(row.assignee),
            BindValue::Text(row.labels),
            bind_opt(row.parent_id),
            BindValue::Text(row.custom_fields),
            bind_opt(row.native_status),
            bind_opt(row.status_metadata),
            bind_opt(row.attachments),
            BindValue::Text(row.created_at),
            BindValue::Text(row.updated_at),
        ];
        assert(assigned_columns(insertion(view)) == columns());
        assert(bind_views(binds@) == insert_statement(view).binds);
        Ok(Statement { sql, binds })
    }

    /// What the database answered to an insertion: a failure makes the backend
    /// unavailable.
    pub fn inserted(reply: Result<u64, String>) -> (r: Result<(), BackendError>)
        ensures
            match r {
                Ok(_) => answer_error(reply) is None,
                Err(error) => answer_error(reply) == Some(error@),
            },
    {
        match reply {
            Ok(_) => Ok(()),
            Err(reason) => Err(BackendError::Unavailable(reason)),
        }
    }

    /// The statement that reads the row with the given id.
    pub fn get(id: &SubjectId) -> (r: Statement)
        ensures
            r@ == get_statement(id@),
    {
        let binds: Vec<BindValue> = vec![BindValue::Text(id.as_str().to_owned())];
        assert(bind_views(binds@) == get_statement(id@).binds);
        let sql = select().concat(by_id().as_str());
        Statement { sql, binds }
    }

    /// The subject in the answer to [`SqliteStore::get`].
    pub fn fetched(id: &SubjectId, reply: Result<Option<FetchedRow>, String>) -> (r: Result<
        Subject,
        BackendError,
    >)
        ensures
            match (r, fetched_subject(id@, row_reply(reply))) {
                (Ok(subject), Ok(expected)) => subject@ == expected,
                (Err(error), Err(expected)) => error@ == expected,
                _ => false,
            },
    {
        match reply {
            Ok(Some(row)) => row_to_subject(&row),
            Ok(None) => Err(BackendError::NotFound(id.as_str().to_owned())),
            Err(reason) => Err(BackendError::Unavailable(reason)),
        }
    }

    /// The statement that reads a page of the subjects that `filter` asks for.
    pub fn list(filter: &SubjectFilter) -> (r: Statement)
        ensures
            r@ == list_statement(filter@),
            since_sorts(filter@),
    {
        let mut conditions: Vec<Condition> = Vec::new();
        assert(condition_views(conditions@) == Seq::<ConditionView>::empty());
        add_any_of(&mut conditions, Column::Kind, &filter.kind);
        let statuses = status_names(&filter.status);
        add_any_of(&mut conditions, Column::Status, &statuses);
        add_any_of(&mut conditions, Column::Assignee, &filter.assignee);
        let since: Option<String> = match &filter.updated_since {
            Some(t) => Some(t.to_rfc3339()),
            None => None,
        };
        add_just(&mut conditions, Column::UpdatedAt, Relation::AtLeast, &since);
        add_just(&mut conditions, Column::NativeStatus, Relation::Equal, &filter.native_status);
        add_just(&mut conditions, Column::Id, Relation::Behind, &filter.cursor);
        assert(condition_views(conditions@) == self::conditions(filter@));
        let mut sql = select().concat("1 = 1");
        let mut binds: Vec<BindValue> = Vec::new();
        assert(bind_views(binds@) == Seq::<BindView>::empty());
        add_conditions(&mut sql, &mut binds, &conditions);
        let order = " ORDER BY ".to_owned().concat(column_name(Column::Id)).concat(" ASC LIMIT ?");
        sql.append(order.as_str());
        let ghost before = binds@;
        binds.push(BindValue::Int(clamped_limit(filter.limit) as i64 + 1));
        assert(bind_views(binds@) == bind_views(before).push(binds@.last()@));
        let r = Statement { sql, binds };
        assert(r@.binds == list_statement(filter@).binds);
        assert(r@.sql == list_statement(filter@).sql);
        r
    }

    /// The page in the answer to [`SqliteStore::list`].
    pub fn listed(
        filter: &SubjectFilter,
        reply: Result<Vec<Result<FetchedRow, String>>, String>,
    ) -> (r: Result<(Vec<Subject>, Option<String>), BackendError>)
        ensures
            match reply {
                Ok(rows) => match (r, page_of(filter@, page_rows(rows@))) {
                    (Ok(page), Ok(expected)) => {
                        &&& subject_views(page.0@) == expected.0
                        &&& opt_text(page.1) == expected.1
                    },
                    (Err(error), Err(expected)) => error@ == expected,
                    _ => false,
                },
                Err(reason) => r is Err && r->Err_0@ == ErrorView::Unavailable(reason@),
            },
    {
        let rows = match reply {
            Ok(rows) => rows,
            Err(reason) => return Err(BackendError::Unavailable(reason)),
        };
        let limit: usize = clamped_limit(filter.limit) as usize;
        let has_more: bool = rows.len() > limit;
        let take: usize = if has_more {
            limit
        } else {
            rows.len()
        };
        let ghost mine = rows_of_page(filter@, page_rows(rows@));
        assert(mine == page_rows(rows@).take(take as int));
        let mut subjects: Vec<Subject> = Vec::new();
        let mut last_id: Option<String> = None;
        assert(mine.take(0) == Seq::<Result<FetchedView, Seq<char>>>::empty());
        assert(subject_views(subjects@) == Seq::<SubjectView>::empty());
        let mut i: usize = 0;
        while i < take
            invariant
                i <= take <= rows@.len(),
                reply == Ok::<Vec<Result<FetchedRow, String>>, String>(rows),
                mine == page_rows(rows@).take(take as int),
                mine == rows_of_page(filter@, page_rows(rows@)),
                wanted_subjects(filter@, mine.take(i as int)) matches Ok(front) && front
                    == subject_views(subjects@),
                i > 0 ==> last_id is Some && mine[i - 1] is Ok && last_id->0@ == mine[i
                    - 1]->Ok_0.columns.id,
            decreases take - i,
        {
            assert(mine.take(i + 1).drop_last() == mine.take(i as int));
            assert(mine[i as int] == page_row(rows@[i as int]));
            let subject = match page_entry(&rows[i]) {
                Ok(found) => {
                    last_id = Some(found.1);
                    found.0
                },
                Err(error) => {
                    proof {
                        lemma_first_error_counts(filter@, mine, i + 1);
                    }
                    return Err(error);
                },
            };
            if is_wanted(filter, &subject) {
                let ghost before = subjects@;
                subjects.push(subject);
                assert(subject_views(subjects@) == subject_views(before).push(subject@));
            }
            i = i + 1;
        }
        assert(mine.take(take as int) == mine);
        if has_more {
            Ok((subjects, last_id))
        } else {
            Ok((subjects, None))
        }
    }

    /// The statement that writes the changed columns of the row with the given
    /// id. The caller works the new values out; they are just written.
    pub fn update_row(
        id: &SubjectId,
        status: SubjectStatus,
        assignee: Option<String>,
        labels: &Vec<String>,
        body: Option<String>,
        custom_fields: &CustomFields,
        native_status: Option<String>,
        updated_at: Timestamp,
    ) -> (r: Result<Statement, BackendError>)
        ensures
            ({
                let changes = changes_of(
                    status,
                    opt_text(assignee),
                    texts(labels@),
                    opt_text(body),
                    custom_fields@,
                    opt_text(native_status),
                    updated_at@,
                );
                &&& r matches Ok(statement) && statement@ == update_statement(id@, changes)
                &&& changes_read_back(changes, texts(labels@), custom_fields@, updated_at@)
            }),
    {
        let labels_text = match labels_to_json(labels) {
            Ok(text) => text,
            Err(reason) => return Err(BackendError::Other(reason)),
        };
        let custom_text = match custom_fields.to_json() {
            Ok(text) => text,
            Err(reason) => return Err(BackendError::Other(reason)),
        };
        let ghost changes = changes_of(
            status,
            opt_text(assignee),
            texts(labels@),
            opt_text(body),
            custom_fields@,
            opt_text(native_status),
            updated_at@,
        );
        let binds: Vec<BindValue> = vec![
            BindValue::Text(status_to_str(status).to_owned()),
            bind_opt(assignee),
            BindValue::Text(labels_text),
            bind_opt(body),
            BindValue::Text(custom_text),
            bind_opt(native_status),
            BindValue::Text(updated_at.to_rfc3339()),
            BindValue::Text(id.as_str().to_owned()),
        ];
        let changed: Vec<Column> = vec![
            Column::Status,
            Column::Assignee,
            Column::Labels,
            Column::Body,
            Column::CustomFields,
            Column::NativeStatus,
            Column::UpdatedAt,
        ];
        let sql = "UPDATE subjects SET ".to_owned().concat(setters(&changed).as_str()).concat(
            " WHERE ",
        ).concat(by_id().as_str());
        assert(changed@ == assigned_columns(assignments(changes)));
        assert(bind_views(binds@) == update_statement(id@, changes).binds);
        Ok(Statement { sql, binds })
    }

    /// What the database answered to an update: the number of rows that it
    /// changed, or its failure. A row that is not there is not found.
    pub fn updated(id: &SubjectId, reply: Result<u64, String>) -> (r: Result<(), BackendError>)
        ensures
            match r {
                Ok(_) => write_error(id@, reply) is None,
                Err(error) => write_error(id@, reply) == Some(error@),
            },
    {
        match reply {
            Ok(rows) => if rows == 0 {
                Err(BackendError::NotFound(id.as_str().to_owned()))
            } else {
                Ok(())
            },
            Err(reason) => Err(BackendError::Unavailable(reason)),
        }
    }

    /// The statement that shows whether the database answers.
    pub fn ping() -> (r: Statement)
        ensures
            r@ == ping_statement(),
    {
        let r = Statement { sql: PING_SQL.to_owned(), binds: Vec::new() };
        assert(r@.binds == Seq::<BindView>::empty());
        r
    }

    /// Whether the database answered [`SqliteStore::ping`].
    pub fn pinged(reply: Result<(), String>) -> (r: Result<(), BackendError>)
        ensures
            match r {
                Ok(_) => answer_error(reply) is None,
                Err(error) => answer_error(reply) == Some(error@),
            },
    {
        match reply {
            Ok(_) => Ok(()),
            Err(reason) => Err(BackendError::Unavailable(reason)),
        }
    }
}

/// How many rows a page holds at most.
fn clamped_limit(limit: Option<u32>) -> (r: u32)
    ensures
        r == page_limit(limit),
        1 <= r <= MAX_LIMIT,
{
    let asked: u32 = match limit {
        Some(n) => n,
        None => DEFAULT_LIMIT,
    };
    if asked < 1 {
        1
    } else if asked > MAX_LIMIT {
        MAX_LIMIT
    } else {
        asked
    }
}

/// An optional text as a value.
fn bind_opt(text: Option<String>) -> (r: BindValue)
    ensures
        r@ == opt_bind(opt_text(text)),
{
    match text {
        Some(t) => BindValue::Text(t),
        None => BindValue::Null,
    }
}

/// The texts of a list of statuses.
fn status_names(list: &Vec<SubjectStatus>) -> (r: Vec<String>)
    ensures
        texts(r@) == status_texts(list@),
{
    let mut r: Vec<String> = Vec::new();
    for i in 0..list.len()
        invariant
            r@.len() == i,
            forall|j: int| 0 <= j < i ==> (#[trigger] r@[j])@ == status_text(list@[j]),
    {
        r.push(status_to_str(list[i]).to_owned());
    }
    assert(texts(r@) == status_texts(list@));
    r
}

/// What reads every column of rows; a condition follows.
fn select() -> (r: String)
    ensures
        r@ == select_text(),
{
    "SELECT ".to_owned().concat(names(&all_columns()).as_str()).concat(" FROM subjects WHERE ")
}

/// The condition that picks the row with a given id.
fn by_id() -> (r: String)
    ensures
        r@ == by_id_text(),
{
    column_name(Column::Id).to_owned().concat(" = ?")
}

/// The subject that a row of a page holds, and the row's id.
fn page_entry(row: &Result<FetchedRow, String>) -> (r: Result<(Subject, String), BackendError>)
    ensures
        match (r, page_subject(page_row(*row))) {
            (Ok(found), Ok(subject)) => {
                &&& found.0@ == subject
                &&& row is Ok
                &&& found.1@ == row->Ok_0@.columns.id
            },
            (Err(error), Err(expected)) => error@ == expected,
            _ => false,
        },
{
    match row {
        Ok(fetched) => match row_to_subject(fetched) {
            Ok(subject) => Ok((subject, fetched.columns.id.clone())),
            Err(error) => Err(error),
        },
        Err(reason) => Err(BackendError::Unavailable(reason.clone())),
    }
}

/// Whether a subject passes the conditions on labels and on attachments.
fn is_wanted(filter: &SubjectFilter, subject: &Subject) -> (r: bool)
    ensures
        r == wanted(filter@, subject@),
{
    if filter.labels_any.len() > 0 && !shares_text(&subject.labels, &filter.labels_any) {
        return false;
    }
    if !holds_texts(&subject.labels, &filter.labels_all) {
        return false;
    }
    match &filter.has_attachment_kind {
        Some(kind) => holds_kind(&subject.attachments, kind.as_str()),
        None => true,
    }
}

/// Whether an attachment is of the given kind.
fn holds_kind(list: &Vec<SubjectAttachment>, kind: &str) -> (r: bool)
    ensures
        r == has_kind(attachment_views(list@), kind@),
{
    for i in 0..list.len()
        invariant
            forall|j: int|
                0 <= j < i ==> (#[trigger] attachment_views(list@)[j]).kind != kind@,
    {
        if same_text(list[i].kind.as_str(), kind) {
            assert(attachment_views(list@)[i as int].kind == kind@);
            return true;
        }
    }
    false
}

/// Whether two lists have a text in common.
fn shares_text(a: &Vec<String>, b: &Vec<String>) -> (r: bool)
    ensures
        r == share_text(texts(a@), texts(b@)),
{
    for i in 0..a.len()
        invariant
            forall|j: int| 0 <= j < i ==> !texts(b@).contains(#[trigger] texts(a@)[j]),
    {
        if contains_text(b, a[i].as_str()) {
            assert(texts(a@).contains(texts(a@)[i as int]));
            return true;
        }
    }
    false
}

/// Whether `list` holds every text of `needed`.
fn holds_texts(list: &Vec<String>, needed: &Vec<String>) -> (r: bool)
    ensures
        r == hold_texts(texts(list@), texts(needed@)),
{
    for i in 0..needed.len()
        invariant
            forall|j: int| 0 <= j < i ==> texts(list@).contains(#[trigger] texts(needed@)[j]),
    {
        if !contains_text(list, needed[i].as_str()) {
            assert(texts(needed@).contains(texts(needed@)[i as int]));
            return false;
        }
    }
    true
}

proof fn lemma_first_error_counts(
    filter: FilterView,
    rows: Seq<Result<FetchedView, Seq<char>>>,
    k: int,
)
    requires
        0 <= k <= rows.len(),
        wanted_subjects(filter, rows.take(k)) is Err,
    ensures
        wanted_subjects(filter, rows) == wanted_subjects(filter, rows.take(k)),
    decreases rows.len(),
{
    if k == rows.len() {
        assert(rows.take(k) == rows);
    } else {
        assert(rows.drop_last().take(k) == rows.take(k));
        lemma_first_error_counts(filter, rows.drop_last(), k);
    }
}

} // verus!
