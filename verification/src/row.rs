//! Rows of the table of subjects, and how subjects are written to and read from
//! them.

use crate::json::{fields_in, fields_json, holds_labels, holds_value, keeps_fields, labels_in};
use crate::json::{labels_from_json, labels_json, labels_to_json, lasting_alone, lasting_fields};
use crate::json::{value_from_json, value_in, value_json, value_to_json};
use crate::json::{lemma_lasting_fields_read_back, same_lasting_fields};
use crate::json::{CustomFields, JsonValue, JsonView};
use crate::subject::{attachment_views, AttachmentView, BackendError, ErrorView, Subject};
use crate::subject::{SubjectAttachment, SubjectId, SubjectStatus, SubjectView};
use crate::text::{debug_text, opt_text, quoted, same_text};
use crate::time::{is_plain, reads_back, rfc3339_instant, rfc3339_text, Timestamp};
use vstd::prelude::*;

verus! {

/// A row of the table of subjects, column by column.
#[derive(Debug, PartialEq, Eq)]
pub struct SubjectRow {
    pub id: String,
    pub kind: String,
    pub title: String,
    pub body: Option<String>,
    pub status: String,
    pub priority: Option<i64>,
    pub assignee: Option<String>,
    /// A JSON array of strings.
    pub labels: String,
    pub parent_id: Option<String>,
    /// A JSON object.
    pub custom_fields: String,
    pub native_status: Option<String>,
    /// JSON.
    pub status_metadata: Option<String>,
    /// A JSON array of objects.
    pub attachments: Option<String>,
    /// An RFC 3339 date and time.
    pub created_at: String,
    /// An RFC 3339 date and time.
    pub updated_at: String,
}

/// What a [`SubjectRow`] stands for.
#[verifier::ext_equal]
pub struct RowView {
    pub id: Seq<char>,
    pub kind: Seq<char>,
    pub title: Seq<char>,
    pub body: Option<Seq<char>>,
    pub status: Seq<char>,
    pub priority: Option<i64>,
    pub assignee: Option<Seq<char>>,
    pub labels: Seq<char>,
    pub parent_id: Option<Seq<char>>,
    pub custom_fields: Seq<char>,
    pub native_status: Option<Seq<char>>,
    pub status_metadata: Option<Seq<char>>,
    pub attachments: Option<Seq<char>>,
    pub created_at: Seq<char>,
    pub updated_at: Seq<char>,
}

impl View for SubjectRow {
    type V = RowView;

    open spec fn view(&self) -> RowView {
        RowView {
            id: self.id@,
            kind: self.kind@,
            title: self.title@,
            body: opt_text(self.body),
            status: self.status@,
            priority: self.priority,
            assignee: opt_text(self.assignee),
            labels: self.labels@,
            parent_id: opt_text(self.parent_id),
            custom_fields: self.custom_fields@,
            native_status: opt_text(self.native_status),
            status_metadata: opt_text(self.status_metadata),
            attachments: opt_text(self.attachments),
            created_at: self.created_at@,
            updated_at: self.updated_at@,
        }
    }
}

/// A row as it was read. The shape of an attachment is the protocol's own: what
/// the protocol's reader makes of the column of the attachments comes with the
/// columns, and is of no account where that column holds nothing.
#[derive(Debug, PartialEq, Eq)]
pub struct FetchedRow {
    pub columns: SubjectRow,
    /// The attachments in their column, or the reason why it holds none.
    pub attachments: Result<Vec<SubjectAttachment>, String>,
}

/// What a [`FetchedRow`] stands for.
#[verifier::ext_equal]
pub struct FetchedView {
    pub columns: RowView,
    pub attachments: Result<Seq<AttachmentView>, Seq<char>>,
}

impl View for FetchedRow {
    type V = FetchedView;

    open spec fn view(&self) -> FetchedView {
        FetchedView {
            columns: self.columns@,
            attachments: match self.attachments {
                Ok(list) => Ok(attachment_views(list@)),
                Err(reason) => Err(reason@),
            },
        }
    }
}

/// What the protocol's reader makes of the text of a list of attachments.
pub type AttachmentReader = spec_fn(Seq<char>) -> Result<Seq<AttachmentView>, Seq<char>>;

/// A row as it is read with the given reader of attachments.
pub open spec fn fetched_with(reader: AttachmentReader, row: RowView) -> FetchedView {
    FetchedView {
        columns: row,
        attachments: match row.attachments {
            Some(text) => reader(text),
            None => Ok(Seq::empty()),
        },
    }
}

/// The text that the database keeps of a status. It is fixed here, so that no
/// change of a wire format reaches the databases that are out there.
pub open spec fn status_text(status: SubjectStatus) -> Seq<char> {
    match status {
        SubjectStatus::Ready => "ready"@,
        SubjectStatus::InProgress => "in-progress"@,
        SubjectStatus::Blocked => "blocked"@,
        SubjectStatus::Done => "done"@,
        SubjectStatus::Cancelled => "cancelled"@,
    }
}

/// The status that the database keeps as `raw`.
pub open spec fn status_in(raw: Seq<char>) -> Option<SubjectStatus> {
    if raw == "ready"@ {
        Some(SubjectStatus::Ready)
    } else if raw == "in-progress"@ {
        Some(SubjectStatus::InProgress)
    } else if raw == "blocked"@ {
        Some(SubjectStatus::Blocked)
    } else if raw == "done"@ {
        Some(SubjectStatus::Done)
    } else if raw == "cancelled"@ {
        Some(SubjectStatus::Cancelled)
    } else {
        None
    }
}

/// The text that the database keeps of a status.
pub fn status_to_str(status: SubjectStatus) -> (r: &'static str)
    ensures
        r@ == status_text(status),
{
    match status {
        SubjectStatus::Ready => "ready",
        SubjectStatus::InProgress => "in-progress",
        SubjectStatus::Blocked => "blocked",
        SubjectStatus::Done => "done",
        SubjectStatus::Cancelled => "cancelled",
    }
}

/// The error of a status that the database cannot have been given.
pub open spec fn status_error(raw: Seq<char>) -> ErrorView {
    ErrorView::Other("unrecognized status value "@ + quoted(raw) + " in database"@)
}

/// The status that the database keeps as `raw`.
pub fn status_from_str(raw: &str) -> (r: Result<SubjectStatus, BackendError>)
    ensures
        match r {
            Ok(status) => status_in(raw@) == Some(status),
            Err(error) => status_in(raw@) is None && error@ == status_error(raw@),
        },
{
    if same_text(raw, "ready") {
        Ok(SubjectStatus::Ready)
    } else if same_text(raw, "in-progress") {
        Ok(SubjectStatus::InProgress)
    } else if same_text(raw, "blocked") {
        Ok(SubjectStatus::Blocked)
    } else if same_text(raw, "done") {
        Ok(SubjectStatus::Done)
    } else if same_text(raw, "cancelled") {
        Ok(SubjectStatus::Cancelled)
    } else {
        let message = "unrecognized status value ".to_owned().concat(
            debug_text(raw).as_str(),
        ).concat(" in database");
        Err(BackendError::Other(message))
    }
}

/// Every status reads back from the text that the database keeps of it, so two
/// statuses never share a text.
pub proof fn law_status_text_reads_back(status: SubjectStatus)
    ensures
        status_in(status_text(status)) == Some(status),
{
    reveal_strlit("ready");
    reveal_strlit("in-progress");
    reveal_strlit("blocked");
    reveal_strlit("done");
    reveal_strlit("cancelled");
    assert("ready"@.len() == 5 && "in-progress"@.len() == 11 && "blocked"@.len() == 7);
    assert("done"@.len() == 4 && "cancelled"@.len() == 9);
}

/// The error of a timestamp that cannot be read.
pub open spec fn timestamp_error(raw: Seq<char>, reason: Seq<char>) -> ErrorView {
    ErrorView::Other("invalid timestamp "@ + quoted(raw) + ": "@ + reason)
}

/// The instant that a column holds.
pub fn parse_ts(raw: &str) -> (r: Result<Timestamp, BackendError>)
    ensures
        match (r, rfc3339_instant(raw@)) {
            (Ok(t), Ok(instant)) => t@ == instant,
            (Err(error), Err(reason)) => error@ == timestamp_error(raw@, reason),
            _ => false,
        },
{
    match Timestamp::parse_from_rfc3339(raw) {
        Ok(t) => Ok(t),
        Err(reason) => {
            let message = "invalid timestamp ".to_owned().concat(debug_text(raw).as_str()).concat(
                ": ",
            ).concat(reason.as_str());
            Err(BackendError::Other(message))
        },
    }
}

/// The items of a JSON array, with commas between them.
pub open spec fn joined(list: Seq<AttachmentView>) -> Seq<char>
    decreases list.len(),
{
    if list.len() == 0 {
        Seq::empty()
    } else if list.len() == 1 {
        list[0].encoded
    } else {
        joined(list.drop_last()) + ","@ + list.last().encoded
    }
}

/// What the column of the status metadata holds: nothing for `null`.
pub open spec fn metadata_column(value: JsonView) -> Option<Seq<char>> {
    if value is Null {
        None
    } else {
        Some(value_json(value))
    }
}

/// What the column of the attachments holds: nothing if there are none, else the
/// JSON array of them.
pub open spec fn attachments_column(list: Seq<AttachmentView>) -> Option<Seq<char>> {
    if list.len() == 0 {
        None
    } else {
        Some("["@ + joined(list) + "]"@)
    }
}

/// The row that a subject is written as. Children and URL are not kept.
pub open spec fn row_of(subject: SubjectView) -> RowView {
    RowView {
        id: subject.id,
        kind: subject.kind,
        title: subject.title,
        body: subject.description,
        status: status_text(subject.status),
        priority: match subject.priority {
            Some(n) => Some(n as i64),
            None => None,
        },
        assignee: subject.assignee,
        labels: labels_json(subject.labels),
        parent_id: subject.parent,
        custom_fields: fields_json(subject.custom),
        native_status: subject.native_status,
        status_metadata: metadata_column(subject.status_metadata),
        attachments: attachments_column(subject.attachments),
        created_at: rfc3339_text(subject.created_at.0, subject.created_at.1),
        updated_at: rfc3339_text(subject.updated_at.0, subject.updated_at.1),
    }
}

/// The error of a column that does not hold the JSON that it should.
pub open spec fn column_error(what: Seq<char>, reason: Seq<char>) -> ErrorView {
    ErrorView::Other(what + reason)
}

/// What is wrong with a row, if anything is. The columns are looked at in turn,
/// and the first that is wrong counts.
pub open spec fn row_error(fetched: FetchedView) -> Option<ErrorView> {
    let row = fetched.columns;
    if status_in(row.status) is None {
        Some(status_error(row.status))
    } else if let Err(reason) = labels_in(row.labels) {
        Some(column_error("invalid labels JSON: "@, reason))
    } else if let Err(reason) = fields_in(row.custom_fields) {
        Some(column_error("invalid custom_fields JSON: "@, reason))
    } else if row.status_metadata is Some && value_in(row.status_metadata->0) is Err {
        Some(
            column_error("invalid status_metadata JSON: "@, value_in(row.status_metadata->0)->Err_0),
        )
    } else if row.attachments is Some && fetched.attachments is Err {
        Some(column_error("invalid attachments JSON: "@, fetched.attachments->Err_0))
    } else if let Err(reason) = rfc3339_instant(row.created_at) {
        Some(timestamp_error(row.created_at, reason))
    } else if let Err(reason) = rfc3339_instant(row.updated_at) {
        Some(timestamp_error(row.updated_at, reason))
    } else {
        None
    }
}

/// The subject that a row with nothing wrong holds.
pub open spec fn row_subject(fetched: FetchedView) -> SubjectView {
    let row = fetched.columns;
    SubjectView {
        id: row.id,
        kind: row.kind,
        title: row.title,
        description: row.body,
        status: status_in(row.status)->0,
        priority: match row.priority {
            Some(n) if 0 <= n <= 255 => Some(n as u8),
            _ => None,
        },
        assignee: row.assignee,
        labels: labels_in(row.labels)->Ok_0,
        parent: row.parent_id,
        children: Seq::empty(),
        url: None,
        created_at: rfc3339_instant(row.created_at)->Ok_0,
        updated_at: rfc3339_instant(row.updated_at)->Ok_0,
        custom: fields_in(row.custom_fields)->Ok_0,
        native_status: row.native_status,
        status_metadata: match row.status_metadata {
            Some(raw) => value_in(raw)->Ok_0,
            None => JsonView::Null,
        },
        attachments: match row.attachments {
            Some(_) => fetched.attachments->Ok_0,
            None => Seq::empty(),
        },
    }
}

/// The subject that a row holds.
pub open spec fn subject_in(fetched: FetchedView) -> Result<SubjectView, ErrorView> {
    match row_error(fetched) {
        Some(error) => Err(error),
        None => Ok(row_subject(fetched)),
    }
}

/// What a read gives back of a subject: everything but its children and its
/// URL, which are not kept.
pub open spec fn kept(subject: SubjectView) -> SubjectView {
    SubjectView { children: Seq::empty(), url: None, ..subject }
}

/// Whether the column of the status metadata, read again, gives `value`.
pub open spec fn holds_metadata(column: Option<Seq<char>>, value: JsonView) -> bool {
    match column {
        Some(raw) => holds_value(raw, value),
        None => value is Null,
    }
}

/// Whether the columns of a row, read again, give what was written of `subject`:
/// the status and the labels always, the custom fields and the status metadata
/// as far as they outlast being written and read, each date if it is
/// plain. The columns that are plain text hold what was written.
pub open spec fn columns_read_back(row: RowView, subject: SubjectView) -> bool {
    &&& status_in(row.status) == Some(subject.status)
    &&& holds_labels(row.labels, subject.labels)
    &&& keeps_fields(row.custom_fields, subject.custom)
    &&& lasting_alone(subject.status_metadata) ==> holds_metadata(
        row.status_metadata,
        subject.status_metadata,
    )
    &&& subject.status_metadata matches JsonView::Encoded(text) ==> row.status_metadata == Some(
        text,
    )
    &&& reads_back(row.created_at, subject.created_at.0, subject.created_at.1)
    &&& reads_back(row.updated_at, subject.updated_at.0, subject.updated_at.1)
}

/// Whether what was written of a subject can be read again: its JSON values
/// outlast it, and its dates are plain.
pub open spec fn readable(subject: SubjectView) -> bool {
    &&& lasting_fields(subject.custom)
    &&& lasting_alone(subject.status_metadata)
    &&& is_plain(subject.created_at)
    &&& is_plain(subject.updated_at)
}

/// Whether the reader of attachments reads a list back from its text.
pub open spec fn reader_keeps(reader: AttachmentReader, list: Seq<AttachmentView>) -> bool {
    list.len() > 0 ==> (reader(attachments_column(list)->0) matches Ok(read) && read == list)
}

/// Whether a row, read as a subject, gives `subject`.
pub open spec fn holds_subject(fetched: FetchedView, subject: SubjectView) -> bool {
    subject_in(fetched) matches Ok(read) && read == subject
}

/// The row that a subject is written as, column by column.
pub fn subject_to_row(subject: &Subject) -> (r: Result<SubjectRow, BackendError>)
    ensures
        r matches Ok(row) && row@ == row_of(subject@) && columns_read_back(row@, subject@),
{
    let labels = match labels_to_json(&subject.labels) {
        Ok(text) => text,
        Err(reason) => return Err(BackendError::Other(reason)),
    };
    let custom_fields = match subject.custom.to_json() {
        Ok(text) => text,
        Err(reason) => return Err(BackendError::Other(reason)),
    };
    let status_metadata = if subject.status_metadata.is_null() {
        None
    } else {
        match value_to_json(&subject.status_metadata) {
            Ok(text) => Some(text),
            Err(reason) => return Err(BackendError::Other(reason)),
        }
    };
    let attachments = if subject.attachments.len() == 0 {
        None
    } else {
        Some("[".to_owned().concat(join(&subject.attachments).as_str()).concat("]"))
    };
    let row =
        SubjectRow {
            id: subject.id.as_str().to_owned(),
            kind: subject.kind.clone(),
            title: subject.title.clone(),
            body: subject.description.clone(),
            status: status_to_str(subject.status).to_owned(),
            priority: match subject.priority {
                Some(n) => Some(n as i64),
                None => None,
            },
            assignee: subject.assignee.clone(),
            labels,
            parent_id: match &subject.parent {
                Some(id) => Some(id.as_str().to_owned()),
                None => None,
            },
            custom_fields,
            native_status: subject.native_status.clone(),
            status_metadata,
            attachments,
            created_at: subject.created_at.to_rfc3339(),
            updated_at: subject.updated_at.to_rfc3339(),
        };
    proof {
        law_status_text_reads_back(subject.status);
    }
    assert(row@ =~= row_of(subject@));
    Ok(row)
}

/// The items of a JSON array, with commas between them.
fn join(list: &Vec<SubjectAttachment>) -> (r: String)
    ensures
        r@ == joined(attachment_views(list@)),
{
    let mut r = String::new();
    let ghost views = attachment_views(list@);
    for i in 0..list.len()
        invariant
            views == attachment_views(list@),
            r@ == joined(views.take(i as int)),
    {
        if i > 0 {
            r.append(",");
        }
        r.append(list[i].encoded.as_str());
        assert(views.take(i + 1).drop_last() == views.take(i as int));
        assert(r@ == joined(views.take(i + 1)));
    }
    assert(views.take(list@.len() as int) == views);
    r
}

/// A subject that is written and read again is the same, but for what is not
/// kept, if its parts can be read again.
pub proof fn law_rows_read_back(subject: SubjectView, reader: AttachmentReader)
    requires
        columns_read_back(row_of(subject), subject),
        readable(subject),
        reader_keeps(reader, subject.attachments),
    ensures
        holds_subject(fetched_with(reader, row_of(subject)), kept(subject)),
{
    lemma_lasting_fields_read_back(row_of(subject).custom_fields, subject.custom);
    let fetched = fetched_with(reader, row_of(subject));
    if subject.attachments.len() == 0 {
        assert(subject.attachments =~= Seq::empty());
    }
    assert(row_subject(fetched) =~= kept(subject));
}

/// Whether `read` is what reading the row of `subject` can give: all that is kept
/// but the custom fields, the status metadata and the attachments is the same,
/// and so are those of them that outlast being written and read, and the dates
/// if they are plain.
pub open spec fn read_of(read: SubjectView, subject: SubjectView) -> bool {
    &&& read == SubjectView {
        custom: read.custom,
        status_metadata: read.status_metadata,
        attachments: read.attachments,
        created_at: read.created_at,
        updated_at: read.updated_at,
        ..kept(subject)
    }
    &&& same_lasting_fields(read.custom, subject.custom)
    &&& lasting_alone(subject.status_metadata) ==> read.status_metadata == subject.status_metadata
    &&& is_plain(subject.created_at) ==> read.created_at == subject.created_at
    &&& is_plain(subject.updated_at) ==> read.updated_at == subject.updated_at
}

/// Whatever in a subject cannot be read again, if its row is read at all, the
/// rest of the subject is as it was written.
pub proof fn law_rows_keep_the_rest(subject: SubjectView, reader: AttachmentReader)
    requires
        columns_read_back(row_of(subject), subject),
    ensures
        subject_in(fetched_with(reader, row_of(subject))) matches Ok(read) ==> read_of(
            read,
            subject,
        ) && (reader_keeps(reader, subject.attachments) ==> read.attachments
            == subject.attachments),
{
    if subject.attachments.len() == 0 {
        assert(subject.attachments =~= Seq::empty());
    }
}

/// Every part of a subject that is kept stands in its own column: plain parts as
/// they are, the status and the dates by their texts, the rest as JSON; `null`
/// metadata and an empty list of attachments leave their columns empty.
pub proof fn law_parts_stand_in_their_columns(subject: SubjectView)
    ensures
        ({
            let row = row_of(subject);
            &&& row.id == subject.id && row.kind == subject.kind && row.title == subject.title
            &&& row.body == subject.description && row.assignee == subject.assignee
            &&& row.parent_id == subject.parent && row.native_status == subject.native_status
            &&& subject.priority matches Some(n) ==> row.priority == Some(n as i64)
            &&& subject.priority is None ==> row.priority is None
            &&& row.status == status_text(subject.status)
            &&& row.labels == labels_json(subject.labels)
            &&& row.custom_fields == fields_json(subject.custom)
            &&& row.status_metadata is None <==> subject.status_metadata is Null
            &&& row.status_metadata matches Some(text) ==> text == value_json(
                subject.status_metadata,
            )
            &&& row.attachments is None <==> subject.attachments.len() == 0
            &&& row.created_at == rfc3339_text(subject.created_at.0, subject.created_at.1)
            &&& row.updated_at == rfc3339_text(subject.updated_at.0, subject.updated_at.1)
        }),
{
}

/// Attachments are written one by one, as they are given, with commas between
/// them and brackets round them.
pub proof fn law_attachments_are_joined(
    a: Seq<AttachmentView>,
    b: Seq<AttachmentView>,
    one: AttachmentView,
)
    ensures
        joined(seq![one]) == one.encoded,
        a.len() > 0 && b.len() > 0 ==> joined(a + b) == joined(a) + ","@ + joined(b),
        a.len() > 0 ==> attachments_column(a) == Some("["@ + joined(a) + "]"@),
    decreases b.len(),
{
    assert(seq![one][0] == one);
    if a.len() > 0 && b.len() > 0 {
        let front = b.drop_last();
        assert((a + b).drop_last() == a + front);
        assert((a + b).last() == b.last());
        if b.len() == 1 {
            assert(a + front == a);
        } else {
            law_attachments_are_joined(a, front, one);
            assert(joined(a + b) == joined(a) + ","@ + joined(b));
        }
    }
}

/// A subject that is read has every part from its own column; a priority out of
/// range is none, and children and URL come from nowhere.
pub proof fn law_parts_come_from_their_columns(fetched: FetchedView)
    ensures
        subject_in(fetched) matches Ok(subject) ==> {
            let row = fetched.columns;
            &&& subject.id == row.id && subject.kind == row.kind && subject.title == row.title
            &&& subject.description == row.body && subject.assignee == row.assignee
            &&& subject.parent == row.parent_id && subject.native_status == row.native_status
            &&& subject.children.len() == 0 && subject.url is None
            &&& status_text(subject.status) == row.status
            &&& row.priority matches Some(n) ==> (subject.priority is Some <==> 0 <= n <= 255)
            &&& subject.priority matches Some(p) ==> row.priority == Some(p as i64)
            &&& row.priority is None ==> subject.priority is None
            &&& holds_labels(row.labels, subject.labels)
            &&& fields_in(row.custom_fields) matches Ok(fields) && fields == subject.custom
            &&& row.status_metadata is None ==> subject.status_metadata is Null
            &&& row.status_metadata matches Some(raw) ==> holds_value(raw, subject.status_metadata)
            &&& row.attachments is None ==> subject.attachments.len() == 0
            &&& row.attachments is Some ==> (fetched.attachments matches Ok(list) && list
                == subject.attachments)
            &&& rfc3339_instant(row.created_at) matches Ok(t) && t == subject.created_at
            &&& rfc3339_instant(row.updated_at) matches Ok(t) && t == subject.updated_at
        },
{
}

/// A row holds a subject if and only if each of its columns can be read; if not,
/// the error names the first column that cannot be, in a fixed order, and says
/// why.
pub proof fn law_row_fails_by_its_first_bad_column(fetched: FetchedView)
    ensures
        ({
            let row = fetched.columns;
            let status = exists|s: SubjectStatus| row.status == #[trigger] status_text(s);
            let labels = labels_in(row.labels);
            let fields = fields_in(row.custom_fields);
            let metadata_bad = row.status_metadata is Some && value_in(row.status_metadata->0) is Err;
            let attachments_bad = row.attachments is Some && fetched.attachments is Err;
            let created = rfc3339_instant(row.created_at);
            let updated = rfc3339_instant(row.updated_at);
            let read = subject_in(fetched);
            let expected = if !status {
                Some("unrecognized status value "@ + quoted(row.status) + " in database"@)
            } else if labels is Err {
                Some("invalid labels JSON: "@ + labels->Err_0)
            } else if fields is Err {
                Some("invalid custom_fields JSON: "@ + fields->Err_0)
            } else if metadata_bad {
                Some(
                    "invalid status_metadata JSON: "@ + value_in(row.status_metadata->0)->Err_0,
                )
            } else if attachments_bad {
                Some("invalid attachments JSON: "@ + fetched.attachments->Err_0)
            } else if created is Err {
                Some("invalid timestamp "@ + quoted(row.created_at) + ": "@ + created->Err_0)
            } else if updated is Err {
                Some("invalid timestamp "@ + quoted(row.updated_at) + ": "@ + updated->Err_0)
            } else {
                None
            };
            &&& read is Ok <==> expected is None
            &&& read matches Err(error) ==> error == ErrorView::Other(expected->0)
        }),
{
    let row = fetched.columns;
    if status_in(row.status) is Some {
        assert(row.status == status_text(status_in(row.status)->0));
    }
    if exists|s: SubjectStatus| row.status == #[trigger] status_text(s) {
        let s = choose|s: SubjectStatus| row.status == #[trigger] status_text(s);
        law_status_text_reads_back(s);
    }
}

/// An error with a message that starts with `what`.
fn column_failure(what: &str, reason: &str) -> (r: BackendError)
    ensures
        r@ == column_error(what@, reason@),
{
    BackendError::Other(what.to_owned().concat(reason))
}

/// The attachments that were read with a row.
fn attachment_copies(list: &Vec<SubjectAttachment>) -> (r: Vec<SubjectAttachment>)
    ensures
        attachment_views(r@) == attachment_views(list@),
{
    let mut r: Vec<SubjectAttachment> = Vec::new();
    for i in 0..list.len()
        invariant
            r@.len() == i,
            forall|j: int| 0 <= j < i ==> (#[trigger] r@[j])@ == list@[j]@,
    {
        r.push(list[i].clone());
    }
    assert(attachment_views(r@) == attachment_views(list@));
    r
}

/// The subject that a row holds.
pub fn row_to_subject(fetched: &FetchedRow) -> (r: Result<Subject, BackendError>)
    ensures
        match (r, subject_in(fetched@)) {
            (Ok(subject), Ok(expected)) => subject@ == expected,
            (Err(error), Err(expected)) => error@ == expected,
            _ => false,
        },
{
    let row = &fetched.columns;
    let status = match status_from_str(row.status.as_str()) {
        Ok(status) => status,
        Err(error) => return Err(error),
    };
    let labels = match labels_from_json(row.labels.as_str()) {
        Ok(labels) => labels,
        Err(reason) => return Err(column_failure("invalid labels JSON: ", reason.as_str())),
    };
    let custom = match CustomFields::from_json(row.custom_fields.as_str()) {
        Ok(custom) => custom,
        Err(reason) => return Err(column_failure("invalid custom_fields JSON: ", reason.as_str())),
    };
    let status_metadata = match &row.status_metadata {
        Some(raw) => match value_from_json(raw.as_str()) {
            Ok(value) => value,
            Err(reason) => return Err(
                column_failure("invalid status_metadata JSON: ", reason.as_str()),
            ),
        },
        None => JsonValue::Null,
    };
    let attachments = match &row.attachments {
        Some(_) => match &fetched.attachments {
            Ok(list) => attachment_copies(list),
            Err(reason) => return Err(
                column_failure("invalid attachments JSON: ", reason.as_str()),
            ),
        },
        None => Vec::new(),
    };
    let created_at = match parse_ts(row.created_at.as_str()) {
        Ok(t) => t,
        Err(error) => return Err(error),
    };
    let updated_at = match parse_ts(row.updated_at.as_str()) {
        Ok(t) => t,
        Err(error) => return Err(error),
    };
    let subject = Subject {
        id: SubjectId::new(row.id.as_str()),
        kind: row.kind.clone(),
        title: row.title.clone(),
        description: row.body.clone(),
        status,
        priority: match row.priority {
            Some(n) => if 0 <= n && n <= 255 {
                Some(n as u8)
            } else {
                None
            },
            None => None,
        },
        assignee: row.assignee.clone(),
        labels,
        parent: match &row.parent_id {
            Some(id) => Some(SubjectId::new(id.as_str())),
            None => None,
        },
        children: Vec::new(),
        url: None,
        created_at,
        updated_at,
        custom,
        native_status: row.native_status.clone(),
        status_metadata,
        attachments,
    };
    assert(subject@ =~= row_subject(fetched@));
    Ok(subject)
}

} // verus!
