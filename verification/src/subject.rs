//! Subjects, and what callers and the backend say to each other about them.

use crate::json::{CustomFields, JsonValue, JsonView};
use crate::text::{opt_text, texts};
use crate::time::Timestamp;
use vstd::prelude::*;

verus! {

/// Identifies a subject across all backends.
#[derive(Debug, PartialEq, Eq, Hash)]
pub struct SubjectId {
    value: String,
}

impl View for SubjectId {
    type V = Seq<char>;

    closed spec fn view(&self) -> Seq<char> {
        self.value@
    }
}

impl Clone for SubjectId {
    fn clone(&self) -> (r: Self)
        ensures
            r@ == self@,
    {
        SubjectId { value: self.value.clone() }
    }
}

impl SubjectId {
    /// The id with the given text.
    pub fn new(value: &str) -> (r: Self)
        ensures
            r@ == value@,
    {
        SubjectId { value: value.to_owned() }
    }

    /// The id's text.
    pub fn as_str(&self) -> (r: &str)
        ensures
            r@ == self@,
    {
        self.value.as_str()
    }
}

/// The text of an optional id.
pub open spec fn opt_id(id: Option<SubjectId>) -> Option<Seq<char>> {
    match id {
        Some(i) => Some(i@),
        None => None,
    }
}

/// Where a subject stands in its life.
#[derive(Clone, Copy, Debug, PartialEq, Eq, Structural)]
pub enum SubjectStatus {
    Ready,
    InProgress,
    Blocked,
    Done,
    Cancelled,
}

/// Something attached to a subject.
#[derive(Debug, PartialEq, Eq)]
pub struct SubjectAttachment {
    /// What sort of thing is attached.
    pub kind: String,
    /// The whole attachment, as the protocol writes it in JSON.
    pub encoded: String,
}

/// What a [`SubjectAttachment`] stands for.
pub struct AttachmentView {
    pub kind: Seq<char>,
    pub encoded: Seq<char>,
}

impl View for SubjectAttachment {
    type V = AttachmentView;

    open spec fn view(&self) -> AttachmentView {
        AttachmentView { kind: self.kind@, encoded: self.encoded@ }
    }
}

impl Clone for SubjectAttachment {
    fn clone(&self) -> (r: Self)
        ensures
            r@ == self@,
    {
        SubjectAttachment { kind: self.kind.clone(), encoded: self.encoded.clone() }
    }
}

/// A unit of dispatchable work.
#[derive(Debug, PartialEq, Eq)]
pub struct Subject {
    pub id: SubjectId,
    pub kind: String,
    pub title: String,
    pub description: Option<String>,
    pub status: SubjectStatus,
    pub priority: Option<u8>,
    pub assignee: Option<String>,
    pub labels: Vec<String>,
    pub parent: Option<SubjectId>,
    pub children: Vec<SubjectId>,
    pub url: Option<String>,
    pub created_at: Timestamp,
    pub updated_at: Timestamp,
    pub custom: CustomFields,
    pub native_status: Option<String>,
    pub status_metadata: JsonValue,
    pub attachments: Vec<SubjectAttachment>,
}

/// What a [`Subject`] stands for.
#[verifier::ext_equal]
pub struct SubjectView {
    pub id: Seq<char>,
    pub kind: Seq<char>,
    pub title: Seq<char>,
    pub description: Option<Seq<char>>,
    pub status: SubjectStatus,
    pub priority: Option<u8>,
    pub assignee: Option<Seq<char>>,
    pub labels: Seq<Seq<char>>,
    pub parent: Option<Seq<char>>,
    pub children: Seq<Seq<char>>,
    pub url: Option<Seq<char>>,
    pub created_at: (int, int),
    pub updated_at: (int, int),
    pub custom: Map<Seq<char>, JsonView>,
    pub native_status: Option<Seq<char>>,
    pub status_metadata: JsonView,
    pub attachments: Seq<AttachmentView>,
}

/// The texts of a list of ids.
pub open spec fn id_texts(ids: Seq<SubjectId>) -> Seq<Seq<char>> {
    ids.map_values(|id: SubjectId| id@)
}

/// What a list of attachments stands for.
pub open spec fn attachment_views(list: Seq<SubjectAttachment>) -> Seq<AttachmentView> {
    list.map_values(|a: SubjectAttachment| a@)
}

/// What a list of subjects stands for.
pub open spec fn subject_views(list: Seq<Subject>) -> Seq<SubjectView> {
    list.map_values(|s: Subject| s@)
}

impl View for Subject {
    type V = SubjectView;

    open spec fn view(&self) -> SubjectView {
        SubjectView {
            id: self.id@,
            kind: self.kind@,
            title: self.title@,
            description: opt_text(self.description),
            status: self.status,
            priority: self.priority,
            assignee: opt_text(self.assignee),
            labels: texts(self.labels@),
            parent: opt_id(self.parent),
            children: id_texts(self.children@),
            url: opt_text(self.url),
            created_at: self.created_at@,
            updated_at: self.updated_at@,
            custom: self.custom@,
            native_status: opt_text(self.native_status),
            status_metadata: self.status_metadata@,
            attachments: attachment_views(self.attachments@),
        }
    }
}

impl Clone for Subject {
    fn clone(&self) -> (r: Self)
        ensures
            r@ == self@,
    {
        let r = Subject {
            id: self.id.clone(),
            kind: self.kind.clone(),
            title: self.title.clone(),
            description: self.description.clone(),
            status: self.status,
            priority: self.priority,
            assignee: self.assignee.clone(),
            labels: self.labels.clone(),
            parent: self.parent.clone(),
            children: self.children.clone(),
            url: self.url.clone(),
            created_at: self.created_at,
            updated_at: self.updated_at,
            custom: self.custom.clone(),
            native_status: self.native_status.clone(),
            status_metadata: self.status_metadata.clone(),
            attachments: self.attachments.clone(),
        };
        assert(texts(r.labels@) == texts(self.labels@));
        assert(id_texts(r.children@) == id_texts(self.children@));
        assert(attachment_views(r.attachments@) == attachment_views(self.attachments@));
        r
    }
}

/// Changes to a subject; what is absent stays.
#[derive(Debug, PartialEq, Eq)]
pub struct SubjectPatch {
    pub status: Option<SubjectStatus>,
    /// `Some(None)` takes the assignee away.
    pub assignee: Option<Option<String>>,
    pub labels_add: Vec<String>,
    pub labels_remove: Vec<String>,
    pub comment: Option<String>,
    pub custom: CustomFields,
}

/// What a [`SubjectPatch`] stands for.
#[verifier::ext_equal]
pub struct PatchView {
    pub status: Option<SubjectStatus>,
    pub assignee: Option<Option<Seq<char>>>,
    pub labels_add: Seq<Seq<char>>,
    pub labels_remove: Seq<Seq<char>>,
    pub comment: Option<Seq<char>>,
    pub custom: Map<Seq<char>, JsonView>,
}

impl View for SubjectPatch {
    type V = PatchView;

    open spec fn view(&self) -> PatchView {
        PatchView {
            status: self.status,
            assignee: match self.assignee {
                Some(a) => Some(opt_text(a)),
                None => None,
            },
            labels_add: texts(self.labels_add@),
            labels_remove: texts(self.labels_remove@),
            comment: opt_text(self.comment),
            custom: self.custom@,
        }
    }
}

/// The patch that changes nothing.
pub open spec fn empty_patch() -> PatchView {
    PatchView {
        status: None,
        assignee: None,
        labels_add: Seq::empty(),
        labels_remove: Seq::empty(),
        comment: None,
        custom: Map::empty(),
    }
}

impl Default for SubjectPatch {
    fn default() -> (r: Self)
        ensures
            r@ == empty_patch(),
    {
        let r = SubjectPatch {
            status: None,
            assignee: None,
            labels_add: Vec::new(),
            labels_remove: Vec::new(),
            comment: None,
            custom: CustomFields::new(),
        };
        assert(r@ =~= empty_patch());
        r
    }
}

/// Which subjects a listing asks for; an empty list or an absent value asks
/// for nothing in particular.
#[derive(Debug, PartialEq, Eq)]
pub struct SubjectFilter {
    pub kind: Vec<String>,
    pub status: Vec<SubjectStatus>,
    pub assignee: Vec<String>,
    pub labels_any: Vec<String>,
    pub labels_all: Vec<String>,
    pub updated_since: Option<Timestamp>,
    pub native_status: Option<String>,
    pub has_attachment_kind: Option<String>,
    /// Where the page starts: behind the row with this id.
    pub cursor: Option<String>,
    pub limit: Option<u32>,
}

/// What a [`SubjectFilter`] stands for.
#[verifier::ext_equal]
pub struct FilterView {
    pub kind: Seq<Seq<char>>,
    pub status: Seq<SubjectStatus>,
    pub assignee: Seq<Seq<char>>,
    pub labels_any: Seq<Seq<char>>,
    pub labels_all: Seq<Seq<char>>,
    pub updated_since: Option<(int, int)>,
    pub native_status: Option<Seq<char>>,
    pub has_attachment_kind: Option<Seq<char>>,
    pub cursor: Option<Seq<char>>,
    pub limit: Option<u32>,
}

impl View for SubjectFilter {
    type V = FilterView;

    open spec fn view(&self) -> FilterView {
        FilterView {
            kind: texts(self.kind@),
            status: self.status@,
            assignee: texts(self.assignee@),
            labels_any: texts(self.labels_any@),
            labels_all: texts(self.labels_all@),
            updated_since: match self.updated_since {
                Some(t) => Some(t@),
                None => None,
            },
            native_status: opt_text(self.native_status),
            has_attachment_kind: opt_text(self.has_attachment_kind),
            cursor: opt_text(self.cursor),
            limit: self.limit,
        }
    }
}

/// The filter that asks for nothing in particular.
pub open spec fn empty_filter() -> FilterView {
    FilterView {
        kind: Seq::empty(),
        status: Seq::empty(),
        assignee: Seq::empty(),
        labels_any: Seq::empty(),
        labels_all: Seq::empty(),
        updated_since: None,
        native_status: None,
        has_attachment_kind: None,
        cursor: None,
        limit: None,
    }
}

impl Default for SubjectFilter {
    fn default() -> (r: Self)
        ensures
            r@ == empty_filter(),
    {
        let r = SubjectFilter {
            kind: Vec::new(),
            status: Vec::new(),
            assignee: Vec::new(),
            labels_any: Vec::new(),
            labels_all: Vec::new(),
            updated_since: None,
            native_status: None,
            has_attachment_kind: None,
            cursor: None,
            limit: None,
        };
        assert(r@ =~= empty_filter());
        r
    }
}

/// One page of a listing.
#[derive(Debug, PartialEq, Eq)]
pub struct SubjectList {
    pub subjects: Vec<Subject>,
    /// Where the next page starts, if there is one.
    pub next_cursor: Option<String>,
    pub fetched_at: Timestamp,
}

/// What happened to a subject.
#[derive(Clone, Copy, Debug, PartialEq, Eq, Structural)]
pub enum ChangeKind {
    Created,
    StatusChanged,
    Updated,
}

/// Tells watchers of a change.
#[derive(Debug, PartialEq, Eq)]
pub struct SubjectChangedEvent {
    pub id: SubjectId,
    pub change_kind: ChangeKind,
    pub subject: Subject,
    pub previous_native_status: Option<String>,
    pub previous_dispatch_label: Option<String>,
}

/// What a [`SubjectChangedEvent`] stands for.
#[verifier::ext_equal]
pub struct EventView {
    pub id: Seq<char>,
    pub change_kind: ChangeKind,
    pub subject: SubjectView,
    pub previous_native_status: Option<Seq<char>>,
    pub previous_dispatch_label: Option<Seq<char>>,
}

impl View for SubjectChangedEvent {
    type V = EventView;

    open spec fn view(&self) -> EventView {
        EventView {
            id: self.id@,
            change_kind: self.change_kind,
            subject: self.subject@,
            previous_native_status: opt_text(self.previous_native_status),
            previous_dispatch_label: opt_text(self.previous_dispatch_label),
        }
    }
}

/// The type of a custom field.
#[derive(Clone, Copy, Debug, PartialEq, Eq, Structural)]
pub enum CustomFieldKind {
    Number,
    String,
}

/// A custom field that the backend knows of.
#[derive(Debug, PartialEq, Eq)]
pub struct CustomFieldSpec {
    pub key: String,
    pub kind: CustomFieldKind,
    pub values: Option<Vec<String>>,
}

/// What the backend offers.
#[derive(Debug, PartialEq, Eq)]
pub struct SubjectSchema {
    pub kinds: Vec<String>,
    pub status_values: Vec<SubjectStatus>,
    pub supports_watch: bool,
    pub supports_create: bool,
    pub supports_pagination: bool,
    pub native_status_values: Vec<String>,
    pub status_dispatch_hints: Vec<String>,
    pub custom_fields: Vec<CustomFieldSpec>,
}

/// Whether the backend is well.
#[derive(Clone, Copy, Debug, PartialEq, Eq, Structural)]
pub enum HealthStatus {
    Healthy,
    Unhealthy,
}

/// The outcome of a health check.
#[derive(Debug, PartialEq, Eq)]
pub struct HealthCheckResult {
    pub status: HealthStatus,
    pub uptime_ms: Option<u64>,
    pub memory_usage_bytes: Option<u64>,
    pub last_error: Option<String>,
}

/// Why a request failed.
#[derive(Debug, PartialEq, Eq)]
pub enum BackendError {
    /// The request itself is wrong.
    InvalidRequest(String),
    /// There is no subject with this id.
    NotFound(String),
    /// The database cannot be reached or refused the statement.
    Unavailable(String),
    /// Anything else.
    Other(String),
}

/// What a [`BackendError`] stands for.
pub enum ErrorView {
    InvalidRequest(Seq<char>),
    NotFound(Seq<char>),
    Unavailable(Seq<char>),
    Other(Seq<char>),
}

impl View for BackendError {
    type V = ErrorView;

    open spec fn view(&self) -> ErrorView {
        match self {
            BackendError::InvalidRequest(m) => ErrorView::InvalidRequest(m@),
            BackendError::NotFound(m) => ErrorView::NotFound(m@),
            BackendError::Unavailable(m) => ErrorView::Unavailable(m@),
            BackendError::Other(m) => ErrorView::Other(m@),
        }
    }
}

} // verus!
