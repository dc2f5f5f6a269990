//! Laws of single requests: what a caller who knows subjects, patches and filters
//! can rely on, said part by part.

use crate::backend::{change_of, created_as, creation, creation_reads_back, event_of, finished_as};
use crate::backend::health_of;
use crate::backend::{id_error, kind_error, labels_with, patch_changes, patch_readable, patched};
use crate::backend::{patching_as, patching_reads_back, quoted_items, reading_back, stamped};
use crate::backend::{CreateStep, ReadStep, WriteStep};
use crate::config::ConfigView;
use crate::database::{after_insert, after_update, get, read, Table};
use crate::database::{law_get_returns_what_create_stored, law_get_returns_what_update_stored};
use crate::id_gen::{is_own_id, law_ids_sort_by_creation_time, subject_id_text, ulid_millis};
use crate::id_gen::{ulid_text, ID_PREFIX};
use crate::json::{fields_json, labels_json, JsonView};
use crate::row::{readable, reader_keeps, row_of, status_text, subject_in};
use crate::row::{AttachmentReader, FetchedView, RowView};
use crate::store::{answer_error, fetched_subject, get_statement, insert_statement};
use crate::store::{update_statement, write_error, ChangesView};
use crate::subject::{BackendError, ChangeKind, ErrorView, HealthStatus, PatchView};
use crate::subject::{Subject, SubjectChangedEvent, SubjectView};
use crate::time::rfc3339_text;
use crate::text::{opt_text, quoted, text_less};
use vstd::prelude::*;

verus! {

/// What a patch names is what the subject has after it, whatever it had before;
/// what a patch does not name stays.
pub proof fn law_patch_sets_what_it_names(subject: SubjectView, patch: PatchView, now: (int, int))
    ensures
        ({
            let after = patched(subject, patch, now);
            &&& patch.status matches Some(s) ==> after.status == s
            &&& patch.status is None ==> after.status == subject.status
            &&& patch.assignee matches Some(a) ==> after.assignee == a
            &&& patch.assignee is None ==> after.assignee == subject.assignee
            &&& patch.comment matches Some(t) ==> after.description == Some(t)
            &&& patch.comment is None ==> after.description == subject.description
            &&& after.updated_at == now
        }),
{
}

/// The field `native_status` of a patch sets the native status: a string to
/// itself, another value to its JSON text, `null` clears it, and without the
/// field it stays.
pub proof fn law_patch_sets_the_native_status(
    subject: SubjectView,
    patch: PatchView,
    now: (int, int),
)
    ensures
        ({
            let key = "native_status"@;
            let after = patched(subject, patch, now).native_status;
            &&& !patch.custom.contains_key(key) ==> after == subject.native_status
            &&& patch.custom.contains_key(key) ==> match patch.custom[key] {
                JsonView::Null => after is None,
                JsonView::Text(t) => after == Some(t),
                JsonView::Encoded(t) => after == Some(t),
            }
        }),
{
}

/// What no patch can name stays as it is.
pub proof fn law_patch_leaves_the_rest(subject: SubjectView, patch: PatchView, now: (int, int))
    ensures
        ({
            let after = patched(subject, patch, now);
            &&& after.id == subject.id && after.kind == subject.kind
            &&& after.title == subject.title && after.priority == subject.priority
            &&& after.parent == subject.parent && after.children == subject.children
            &&& after.url == subject.url && after.created_at == subject.created_at
            &&& after.status_metadata == subject.status_metadata
            &&& after.attachments == subject.attachments
        }),
{
}

/// The labels after a patch are the former ones that were not removed, in their
/// order, and behind them those that were added and are not among them, each
/// once, in the order in which they were first given.
pub proof fn law_patched_labels_in_order(subject: SubjectView, patch: PatchView, now: (int, int))
    ensures
        ({
            let stay = subject.labels.filter(|l: Seq<char>| !patch.labels_remove.contains(l));
            let added = patch.labels_add;
            let after = patched(subject, patch, now).labels;
            &&& stay.len() <= after.len() && after.take(stay.len() as int) == stay
            &&& forall|i: int|
                stay.len() <= i < after.len() ==> added.contains(#[trigger] after[i])
                    && !stay.contains(after[i])
            &&& forall|i: int, j: int|
                stay.len() <= i < j < after.len() ==> comes_first(
                    added,
                    #[trigger] after[i],
                    #[trigger] after[j],
                )
            &&& forall|l: Seq<char>| added.contains(l) ==> #[trigger] after.contains(l)
        }),
{
    let stay = subject.labels.filter(|l: Seq<char>| !patch.labels_remove.contains(l));
    lemma_added_labels(stay, patch.labels_add);
}

/// Whether some occurrence of `a` in a list lies before every occurrence of `b`.
pub open spec fn comes_first(list: Seq<Seq<char>>, a: Seq<char>, b: Seq<char>) -> bool {
    exists|p: int|
        0 <= p < list.len() && #[trigger] list[p] == a && forall|q: int|
            0 <= q < list.len() && #[trigger] list[q] == b ==> p < q
}

proof fn lemma_added_labels(stay: Seq<Seq<char>>, added: Seq<Seq<char>>)
    ensures
        ({
            let after = labels_with(stay, added);
            &&& stay.len() <= after.len() && after.take(stay.len() as int) == stay
            &&& forall|i: int|
                stay.len() <= i < after.len() ==> added.contains(#[trigger] after[i])
                    && !stay.contains(after[i])
            &&& forall|i: int, j: int|
                stay.len() <= i < j < after.len() ==> comes_first(
                    added,
                    #[trigger] after[i],
                    #[trigger] after[j],
                )
            &&& forall|l: Seq<char>| added.contains(l) ==> #[trigger] after.contains(l)
        }),
    decreases added.len(),
{
    let after = labels_with(stay, added);
    if added.len() == 0 {
        assert(after.take(stay.len() as int) == stay);
    } else {
        let front = added.drop_last();
        let n = added.len() - 1;
        let before = labels_with(stay, front);
        lemma_added_labels(stay, front);
        assert forall|l: Seq<char>| front.contains(l) implies added.contains(l) by {
            let i = choose|i: int| 0 <= i < front.len() && front[i] == l;
            assert(added[i] == l);
        }
        assert(added[n] == added.last());
        assert(before.take(stay.len() as int) == stay);
        assert(after.take(stay.len() as int) == stay) by {
            assert(before.len() <= after.len());
            assert forall|i: int| 0 <= i < stay.len() implies after[i] == stay[i] by {
                assert(before.take(stay.len() as int)[i] == before[i]);
            }
        }
        assert forall|l: Seq<char>| added.contains(l) implies #[trigger] after.contains(l) by {
            let i = choose|i: int| 0 <= i < added.len() && added[i] == l;
            if i < n {
                assert(front[i] == l);
                assert(before.contains(l));
                let k = choose|k: int| 0 <= k < before.len() && before[k] == l;
                assert(after[k] == l);
            } else if before.contains(l) {
                assert(after == before);
            } else {
                assert(after[after.len() - 1] == l);
            }
        }
        assert forall|i: int| stay.len() <= i < after.len() implies added.contains(
            #[trigger] after[i],
        ) && !stay.contains(after[i]) by {
            if i < before.len() {
                assert(after[i] == before[i]);
            } else {
                assert(after[i] == added.last());
                if stay.contains(after[i]) {
                    let k = choose|k: int| 0 <= k < stay.len() && stay[k] == after[i];
                    assert(before.take(stay.len() as int)[k] == before[k]);
                    assert(before[k] == added.last());
                }
            }
        }
        assert forall|i: int, j: int| stay.len() <= i < j < after.len() implies comes_first(
            added,
            #[trigger] after[i],
            #[trigger] after[j],
        ) by {
            assert(after[i] == before[i]);
            if j < before.len() {
                assert(after[j] == before[j]);
                assert(comes_first(front, before[i], before[j]));
                let p = choose|p: int|
                    0 <= p < front.len() && #[trigger] front[p] == before[i] && forall|q: int|
                        0 <= q < front.len() && #[trigger] front[q] == before[j] ==> p < q;
                assert(added[p] == after[i]);
                assert forall|q: int| 0 <= q < added.len() && #[trigger] added[q] == after[j] implies p
                    < q by {
                    if q < n {
                        assert(front[q] == before[j]);
                    }
                }
            } else {
                assert(after[j] == added.last());
                assert(front.contains(before[i]));
                let p = choose|p: int| 0 <= p < front.len() && front[p] == before[i];
                assert(added[p] == after[i]);
                assert forall|q: int| 0 <= q < added.len() && #[trigger] added[q] == after[j] implies p
                    < q by {
                    if q < n {
                        assert(front[q] == added.last());
                        assert(front.contains(added.last()));
                        assert(before.contains(added.last()));
                    }
                }
            }
        }
    }
}

/// A change is told as one of the status if and only if the status is another
/// one after it, and else as an update.
pub proof fn law_change_is_told_by_the_status(
    subject: SubjectView,
    patch: PatchView,
    now: (int, int),
)
    ensures
        change_of(subject, patch) == ChangeKind::StatusChanged <==> patched(
            subject,
            patch,
            now,
        ).status != subject.status,
        change_of(subject, patch) == ChangeKind::Updated <==> patched(subject, patch, now).status
            == subject.status,
{
}

/// A request to change a subject goes on to a write if and only if the subject
/// was read; the write is for that subject, and it takes along what watchers are
/// told: whether the status changes, and the native status before.
pub proof fn law_update_goes_on_with_what_was_read(
    outcome: Result<WriteStep, BackendError>,
    id: Seq<char>,
    patch: PatchView,
    reply: Result<Option<FetchedView>, Seq<char>>,
    now: (int, int),
)
    requires
        patching_as(outcome, id, patch, reply, now),
    ensures
        outcome is Ok <==> fetched_subject(id, reply) is Ok,
        outcome matches Ok(step) ==> {
            let before = fetched_subject(id, reply)->Ok_0;
            let after = patched(before, patch, now);
            &&& step.id@ == id
            &&& opt_text(step.previous_native_status) == before.native_status
            &&& step.change_kind == ChangeKind::StatusChanged <==> after.status != before.status
            &&& step.change_kind == ChangeKind::Updated <==> after.status == before.status
        },
        outcome matches Err(error) ==> fetched_subject(id, reply) matches Err(e) && e == error@,
{
}

/// A request to change a subject, run on a table in which the subject is stored,
/// leaves the subject as the patch says: what the patch names has the value that
/// it names, and the rest is as it was.
pub proof fn law_update_does_what_the_patch_says(
    table: Table,
    reader: AttachmentReader,
    outcome: Result<WriteStep, BackendError>,
    id: Seq<char>,
    patch: PatchView,
    now: (int, int),
)
    requires
        patching_as(outcome, id, patch, Ok(read(table, reader, id)), now),
        patching_reads_back(id, patch, Ok(read(table, reader, id)), now),
        get(table, reader, id) is Ok,
        patch_readable(patched(get(table, reader, id)->Ok_0, patch, now)),
    ensures
        outcome is Ok,
        exists|changes: ChangesView|
            {
                let before = get(table, reader, id)->Ok_0;
                &&& outcome->Ok_0.statement@ == #[trigger] update_statement(id, changes)
                &&& get(after_update(table, id, changes), reader, id) matches Ok(after) && {
                    &&& after.status == match patch.status {
                        Some(s) => s,
                        None => before.status,
                    }
                    &&& after.assignee == match patch.assignee {
                        Some(a) => a,
                        None => before.assignee,
                    }
                    &&& after.description == match patch.comment {
                        Some(t) => Some(t),
                        None => before.description,
                    }
                    &&& after.title == before.title && after.kind == before.kind
                    &&& after.id == before.id && after.updated_at == now
                    &&& after == patched(before, patch, now)
                }
            },
{
    let before = get(table, reader, id)->Ok_0;
    law_get_returns_what_update_stored(table, reader, id, patch, now);
    assert(outcome->Ok_0.statement@ == update_statement(id, patch_changes(before, patch, now)));
}

/// A subject is created as it was given, but for its id and its dates: an id that
/// starts with `sqlite:` is kept, and any other gives way to `sqlite:` and the
/// ULID; each date is kept unless it lies in the first second of 1970, which
/// stands for none and gives way to the time of creation.
pub proof fn law_subject_is_created_as_given(subject: SubjectView, ulid: u128, now: (int, int))
    ensures
        ({
            let stored = stamped(subject, ulid, now);
            &&& "sqlite:"@.is_prefix_of(subject.id) ==> stored.id == subject.id
            &&& !"sqlite:"@.is_prefix_of(subject.id) ==> stored.id == "sqlite:"@ + ulid_text(ulid)
            &&& subject.created_at.0 != 0 ==> stored.created_at == subject.created_at
            &&& subject.created_at.0 == 0 ==> stored.created_at == now
            &&& subject.updated_at.0 != 0 ==> stored.updated_at == subject.updated_at
            &&& subject.updated_at.0 == 0 ==> stored.updated_at == now
            &&& stored.kind == subject.kind && stored.title == subject.title
            &&& stored.description == subject.description && stored.status == subject.status
            &&& stored.priority == subject.priority && stored.assignee == subject.assignee
            &&& stored.labels == subject.labels && stored.parent == subject.parent
            &&& stored.children == subject.children && stored.url == subject.url
            &&& stored.custom == subject.custom && stored.native_status == subject.native_status
            &&& stored.status_metadata == subject.status_metadata
            &&& stored.attachments == subject.attachments
        }),
{
}

/// A subject is refused if and only if its kind is none of those served.
pub proof fn law_creation_is_refused_for_the_kind_alone(
    config: ConfigView,
    subject: SubjectView,
    ulid: u128,
    now: (int, int),
)
    ensures
        creation(config, subject, ulid, now) is Ok <==> exists|i: int|
            0 <= i < config.kinds.len() && #[trigger] config.kinds[i] == subject.kind,
        creation(config, subject, ulid, now) matches Err(error) ==> error
            == kind_error(subject.kind, config.kinds),
{
}

/// Subjects without an id of this backend get ids that sort in the order of
/// creation, if they were created in different milliseconds.
pub proof fn law_created_ids_sort_by_creation(
    config: ConfigView,
    first: SubjectView,
    second: SubjectView,
    ulid: u128,
    later: u128,
    now: (int, int),
    then: (int, int),
)
    requires
        creation(config, first, ulid, now) is Ok,
        creation(config, second, later, then) is Ok,
        !"sqlite:"@.is_prefix_of(first.id),
        !"sqlite:"@.is_prefix_of(second.id),
        ulid_millis(ulid) < ulid_millis(later),
    ensures
        text_less(
            creation(config, first, ulid, now)->Ok_0.0,
            creation(config, second, later, then)->Ok_0.0,
        ),
{
    law_ids_sort_by_creation_time(ulid, later);
}

/// A request to create a subject, run on a table without its id, stores the
/// subject as it was given and filled in, under the id that the step names.
pub proof fn law_create_stores_what_was_given(
    table: Table,
    reader: AttachmentReader,
    config: ConfigView,
    subject: SubjectView,
    ulid: u128,
    now: (int, int),
    outcome: Result<CreateStep, BackendError>,
)
    requires
        created_as(outcome, creation(config, subject, ulid, now)),
        creation_reads_back(subject, ulid, now),
        readable(stamped(subject, ulid, now)),
        reader_keeps(reader, subject.attachments),
        outcome is Ok,
        !table.contains_key(outcome->Ok_0.id@),
    ensures
        exists|row: RowView|
            {
                let id = outcome->Ok_0.id@;
                &&& outcome->Ok_0.statement@ == #[trigger] insert_statement(row)
                &&& row.id == id
                &&& after_insert(table, row) matches Some(after) && get(after, reader, id) matches Ok(
                    stored,
                ) && {
                    &&& stored.id == id && stored.kind == subject.kind
                    &&& stored.title == subject.title
                    &&& stored.description == subject.description
                    &&& stored.status == subject.status && stored.priority == subject.priority
                    &&& stored.assignee == subject.assignee && stored.labels == subject.labels
                    &&& stored.parent == subject.parent && stored.custom == subject.custom
                    &&& stored.native_status == subject.native_status
                    &&& stored.status_metadata == subject.status_metadata
                    &&& stored.attachments == subject.attachments
                }
            },
{
    law_get_returns_what_create_stored(table, reader, subject, ulid, now);
    let row = row_of(stamped(subject, ulid, now));
    assert(outcome->Ok_0.statement@ == insert_statement(row));
}

/// An event names the stored subject by its id, carries it whole, and says what
/// it was told to say of the change.
pub proof fn law_event_carries_the_stored_subject(
    change_kind: ChangeKind,
    stored: SubjectView,
    previous: Option<Seq<char>>,
)
    ensures
        ({
            let event = event_of(change_kind, stored, previous);
            &&& event.id == stored.id
            &&& event.subject == stored
            &&& event.change_kind == change_kind
            &&& event.previous_native_status == previous
            &&& event.previous_dispatch_label is None
        }),
{
}

/// A request that wrote a subject ends with the subject as it is stored, and
/// watchers are told of that very subject, with the kind of change and the native
/// status before that the step took along; if it cannot be read, nobody is told.
pub proof fn law_watchers_are_told_of_what_is_stored(
    outcome: Result<(Subject, SubjectChangedEvent), BackendError>,
    step: ReadStep,
    reply: Result<Option<FetchedView>, Seq<char>>,
)
    requires
        finished_as(outcome, step, reply),
    ensures
        outcome is Ok <==> fetched_subject(step.id@, reply) is Ok,
        outcome matches Ok(done) ==> {
            let stored = fetched_subject(step.id@, reply)->Ok_0;
            &&& done.0@ == stored
            &&& done.1@.subject == stored && done.1@.id == stored.id
            &&& done.1@.change_kind == step.change_kind
            &&& done.1@.previous_native_status == opt_text(step.previous_native_status)
            &&& done.1@.previous_dispatch_label is None
        },
        outcome matches Err(error) ==> fetched_subject(step.id@, reply) matches Err(e) && e
            == error@,
{
}

/// A request to create a subject starts if and only if its kind is served; the
/// step names the id that the subject is stored under.
pub proof fn law_create_starts_with_the_stored_id(
    outcome: Result<CreateStep, BackendError>,
    config: ConfigView,
    subject: SubjectView,
    ulid: u128,
    now: (int, int),
)
    requires
        created_as(outcome, creation(config, subject, ulid, now)),
    ensures
        outcome is Ok <==> config.kinds.contains(subject.kind),
        outcome matches Ok(step) ==> {
            &&& "sqlite:"@.is_prefix_of(subject.id) ==> step.id@ == subject.id
            &&& !"sqlite:"@.is_prefix_of(subject.id) ==> step.id@ == "sqlite:"@ + ulid_text(ulid)
            &&& step.statement@ == insert_statement(row_of(stamped(subject, ulid, now)))
        },
        outcome matches Err(error) ==> error@ == kind_error(subject.kind, config.kinds),
{
}

/// A patched subject is written with the status, assignee, labels, description,
/// custom fields, native status and date that it has.
pub proof fn law_changes_are_those_of_the_patched_subject(
    subject: SubjectView,
    patch: PatchView,
    now: (int, int),
)
    ensures
        ({
            let after = patched(subject, patch, now);
            let changes = patch_changes(subject, patch, now);
            &&& changes.status == status_text(after.status)
            &&& changes.assignee == after.assignee
            &&& changes.labels == labels_json(after.labels)
            &&& changes.body == after.description
            &&& changes.custom_fields == fields_json(after.custom)
            &&& changes.native_status == after.native_status
            &&& changes.updated_at == rfc3339_text(after.updated_at.0, after.updated_at.1)
        }),
{
}

/// What is read back after a write is the row with the id that was written to,
/// and what watchers are told is taken along unchanged.
pub proof fn law_what_was_written_is_read_back(
    step: ReadStep,
    id: Seq<char>,
    change_kind: ChangeKind,
    previous: Option<Seq<char>>,
)
    requires
        reading_back(step, id, change_kind, previous),
    ensures
        step.id@ == id,
        step.statement@ == get_statement(id),
        step.change_kind == change_kind,
        opt_text(step.previous_native_status) == previous,
{
}

/// A write succeeds if and only if it changed a row; without one the subject is
/// not found, and a database that fails makes the backend unavailable, with the
/// database's own words.
pub proof fn law_write_needs_a_row(id: Seq<char>, rows: u64, reason: String)
    ensures
        write_error(id, Ok(rows)) is None <==> rows >= 1,
        rows == 0 ==> write_error(id, Ok(rows)) == Some(ErrorView::NotFound(id)),
        write_error(id, Err(reason)) == Some(ErrorView::Unavailable(reason@)),
        answer_error(Ok::<u64, String>(rows)) is None,
        answer_error(Err::<u64, String>(reason)) == Some(ErrorView::Unavailable(reason@)),
        answer_error(Ok::<(), String>(())) is None,
        answer_error(Err::<(), String>(reason)) == Some(ErrorView::Unavailable(reason@)),
{
}

/// A read finds the subject of the row that was answered; without a row it is not
/// found, and a database that fails makes the backend unavailable.
pub proof fn law_read_answers(id: Seq<char>, fetched: FetchedView, reason: Seq<char>)
    ensures
        fetched_subject(id, Ok(Some(fetched))) == subject_in(fetched),
        fetched_subject(id, Ok(None)) == Err::<SubjectView, ErrorView>(ErrorView::NotFound(id)),
        fetched_subject(id, Err(reason)) == Err::<SubjectView, ErrorView>(
            ErrorView::Unavailable(reason),
        ),
{
}

/// The backend is healthy if and only if the database answered, and reports the
/// error if and only if there was one.
pub proof fn law_health_follows_the_database(outcome: Result<(), String>)
    ensures
        health_of(outcome).0 == HealthStatus::Healthy <==> outcome is Ok,
        health_of(outcome).0 == HealthStatus::Unhealthy <==> outcome is Err,
        outcome is Ok ==> health_of(outcome).1 is None,
        outcome matches Err(reason) ==> health_of(outcome).1 == Some(reason@),
{
}

/// An id is one of this backend if and only if something stands behind the prefix
/// `sqlite:`, be it nothing.
pub proof fn law_own_ids_start_with_the_prefix(id: Seq<char>)
    ensures
        is_own_id(id) <==> exists|rest: Seq<char>| id == #[trigger] ("sqlite:"@ + rest),
{
    if is_own_id(id) {
        let rest = id.skip(ID_PREFIX@.len() as int);
        assert(id == "sqlite:"@ + rest);
    }
    if exists|rest: Seq<char>| id == #[trigger] ("sqlite:"@ + rest) {
        let rest = choose|rest: Seq<char>| id == #[trigger] ("sqlite:"@ + rest);
        assert("sqlite:"@.is_prefix_of("sqlite:"@ + rest));
    }
}

/// An id that the backend makes is `sqlite:` and 26 characters.
pub proof fn law_made_ids_are_the_prefix_and_the_ulid(ulid: u128)
    ensures
        subject_id_text(ulid) == "sqlite:"@ + ulid_text(ulid),
        is_own_id(subject_id_text(ulid)),
{
}

/// Kinds are quoted one by one, with commas between them.
pub proof fn law_quoted_kinds_are_joined(a: Seq<Seq<char>>, b: Seq<Seq<char>>, kind: Seq<char>)
    ensures
        quoted_items(seq![kind]) == quoted(kind),
        a.len() > 0 && b.len() > 0 ==> quoted_items(a + b) == quoted_items(a) + ", "@
            + quoted_items(b),
    decreases b.len(),
{
    assert(seq![kind][0] == kind);
    if a.len() > 0 && b.len() > 0 {
        let front = b.drop_last();
        assert((a + b).drop_last() == a + front);
        assert((a + b).last() == b.last());
        if b.len() == 1 {
            assert(front == Seq::<Seq<char>>::empty());
            assert(a + front == a);
        } else {
            law_quoted_kinds_are_joined(a, front, kind);
            assert(quoted_items(a + b) == quoted_items(a) + ", "@ + quoted_items(b));
        }
    }
}

/// Refusals of the same sort differ only in what they name.
pub proof fn law_refusals_name_what_they_refuse(
    id: Seq<char>,
    kind: Seq<char>,
    kinds: Seq<Seq<char>>,
)
    ensures
        id_error(id) == ErrorView::InvalidRequest(
            "subject id SubjectId("@ + quoted(id)
                + ") is not a sqlite id (expected `sqlite:<id>` prefix)"@,
        ),
        kind_error(kind, kinds) == ErrorView::InvalidRequest(
            "kind "@ + quoted(kind) + " is not in this backend's served set ["@ + quoted_items(kinds)
                + "]"@,
        ),
{
}

} // verus!
