//! What the statements of the store mean on the table of subjects, and the laws
//! that the backend keeps on it.
//!
//! A table maps ids to rows. The functions here say what SQLite does with the
//! four statements of the store; the laws say what a caller who only sees
//! requests and answers can rely on.

use crate::backend::{change_of, creation, creation_reads_back, labels_with, labels_without};
use crate::backend::{patch_changes, patch_readable, patched, patched_fields, patching_reads_back};
use crate::backend::stamped;
use crate::config::ConfigView;
use crate::id_gen::{is_own_id, subject_id_text};
use crate::json::{lemma_lasting_fields_read_back, same_lasting_fields};
use crate::row::{fetched_with, kept, law_rows_keep_the_rest, law_rows_read_back};
use crate::row::{law_status_text_reads_back, read_of, readable, reader_keeps, row_of, row_subject};
use crate::row::{status_text, AttachmentReader, FetchedView, RowView};
use crate::store::{changed_row, fetched_subject, page_limit, page_of, page_subject, rows_of_page};
use crate::sql::{all_hold, any_of, assigned, just, lemma_all_hold_joined, lemma_single_conditions};
use crate::sql::{Column, Relation};
use crate::store::{assignments, conditions, insertion, law_insertion_makes_the_row};
use crate::store::law_update_writes_the_changed_columns;
use crate::store::{since_sorts, since_text, status_texts, wanted, wanted_subjects};
use crate::store::{ChangesView, MAX_LIMIT};
use crate::subject::{empty_filter, empty_patch, ChangeKind, ErrorView, FilterView};
use crate::subject::{PatchView, SubjectStatus, SubjectView};
use crate::text::text_less;
use crate::time::{earlier, is_plain, representable, rfc3339_text};
use vstd::prelude::*;

verus! {

/// The table of subjects: rows by id.
pub type Table = Map<Seq<char>, RowView>;

/// Whether every row is found under its own id.
pub open spec fn well_keyed(table: Table) -> bool {
    forall|id: Seq<char>| #[trigger] table.contains_key(id) ==> table[id].id == id
}

/// Whether every id is one of this backend and every kind is served.
pub open spec fn serves(table: Table, config: ConfigView) -> bool {
    forall|id: Seq<char>| #[trigger]
        table.contains_key(id) ==> is_own_id(id) && config.kinds.contains(table[id].kind)
}

/// A row with nothing in it.
pub open spec fn blank_row() -> RowView {
    RowView {
        id: Seq::empty(),
        kind: Seq::empty(),
        title: Seq::empty(),
        body: None,
        status: Seq::empty(),
        priority: None,
        assignee: None,
        labels: Seq::empty(),
        parent_id: None,
        custom_fields: Seq::empty(),
        native_status: None,
        status_metadata: None,
        attachments: None,
        created_at: Seq::empty(),
        updated_at: Seq::empty(),
    }
}

/// The table after a row was inserted; the id of the row must be new.
pub open spec fn after_insert(table: Table, row: RowView) -> Option<Table> {
    if table.contains_key(row.id) {
        None
    } else {
        Some(table.insert(row.id, assigned(blank_row(), insertion(row))))
    }
}

/// The row with the given id.
pub open spec fn select(table: Table, id: Seq<char>) -> Option<RowView> {
    if table.contains_key(id) {
        Some(table[id])
    } else {
        None
    }
}

/// The table after the changed columns of the row with the given id were
/// written.
pub open spec fn after_update(table: Table, id: Seq<char>, changes: ChangesView) -> Table {
    if table.contains_key(id) {
        table.insert(id, assigned(table[id], assignments(changes)))
    } else {
        table
    }
}

/// How many rows writing to the row with the given id changes.
pub open spec fn rows_affected(table: Table, id: Seq<char>) -> nat {
    if table.contains_key(id) {
        1
    } else {
        0
    }
}

/// The row with the given id, as it is read.
pub open spec fn read(table: Table, reader: AttachmentReader, id: Seq<char>) -> Option<FetchedView> {
    match select(table, id) {
        Some(row) => Some(fetched_with(reader, row)),
        None => None,
    }
}

/// The answer to reading the subject with the given id.
pub open spec fn get(table: Table, reader: AttachmentReader, id: Seq<char>) -> Result<
    SubjectView,
    ErrorView,
> {
    fetched_subject(id, Ok(read(table, reader, id)))
}

/// Whether two tables answer alike to reading any subject but the one with the
/// given id.
pub open spec fn agree_but_for(a: Table, b: Table, reader: AttachmentReader, id: Seq<char>) -> bool {
    forall|other: Seq<char>|
        other != id ==> #[trigger] get(a, reader, other) == get(b, reader, other)
}

/// Whether a row meets the conditions of a listing's statement.
pub open spec fn selects(filter: FilterView, row: RowView) -> bool {
    all_hold(conditions(filter), row)
}

/// What the conditions of a listing ask of a row, one by one.
pub proof fn law_listing_asks_for(filter: FilterView, row: RowView)
    ensures
        selects(filter, row) <==> {
            &&& filter.kind.len() == 0 || filter.kind.contains(row.kind)
            &&& filter.status.len() == 0 || exists|i: int|
                0 <= i < filter.status.len() && row.status == status_text(#[trigger] filter.status[i])
            &&& filter.assignee.len() == 0 || (row.assignee is Some && filter.assignee.contains(
                row.assignee->0,
            ))
            &&& filter.updated_since matches Some(t) ==> !text_less(
                row.updated_at,
                rfc3339_text(t.0, t.1),
            )
            &&& filter.native_status is None || row.native_status == filter.native_status
            &&& filter.cursor is None || text_less(filter.cursor->0, row.id)
        },
{
    let statuses = status_texts(filter.status);
    let since = since_text(filter.updated_since);
    let a = any_of(Column::Kind, filter.kind);
    let b = any_of(Column::Status, statuses);
    let c = any_of(Column::Assignee, filter.assignee);
    let d = just(Column::UpdatedAt, Relation::AtLeast, since);
    let e = just(Column::NativeStatus, Relation::Equal, filter.native_status);
    let f = just(Column::Id, Relation::Behind, filter.cursor);
    lemma_all_hold_joined(a, b, row);
    lemma_all_hold_joined(a + b, c, row);
    lemma_all_hold_joined(a + b + c, d, row);
    lemma_all_hold_joined(a + b + c + d, e, row);
    lemma_all_hold_joined(a + b + c + d + e, f, row);
    lemma_single_conditions(Column::Kind, Relation::Equal, filter.kind, None, row);
    lemma_single_conditions(Column::Status, Relation::Equal, statuses, None, row);
    lemma_single_conditions(Column::Assignee, Relation::Equal, filter.assignee, None, row);
    lemma_single_conditions(Column::UpdatedAt, Relation::AtLeast, seq![], since, row);
    lemma_single_conditions(
        Column::NativeStatus,
        Relation::Equal,
        seq![],
        filter.native_status,
        row,
    );
    lemma_single_conditions(Column::Id, Relation::Behind, seq![], filter.cursor, row);
    if statuses.contains(row.status) {
        let i = choose|i: int| 0 <= i < statuses.len() && statuses[i] == row.status;
        assert(row.status == status_text(filter.status[i]));
    }
    if exists|i: int|
        0 <= i < filter.status.len() && row.status == status_text(#[trigger] filter.status[i]) {
        let i = choose|i: int|
            0 <= i < filter.status.len() && row.status == status_text(#[trigger] filter.status[i]);
        assert(statuses[i] == row.status);
    }
}

/// A listing by status takes a row of a status if and only if it asks for that
/// status.
pub proof fn law_listing_by_status(filter: FilterView, row: RowView, status: SubjectStatus)
    requires
        filter.status.len() > 0,
        row.status == status_text(status),
    ensures
        selects(filter, row) <==> filter.status.contains(status) && selects(
            FilterView { status: seq![], ..filter },
            row,
        ),
{
    law_listing_asks_for(filter, row);
    law_listing_asks_for(FilterView { status: seq![], ..filter }, row);
    assert forall|i: int| 0 <= i < filter.status.len() && row.status == status_text(
        #[trigger] filter.status[i],
    ) implies filter.status[i] == status by {
        law_status_text_reads_back(filter.status[i]);
        law_status_text_reads_back(status);
    }
    if filter.status.contains(status) {
        let i = choose|i: int| 0 <= i < filter.status.len() && filter.status[i] == status;
        assert(row.status == status_text(filter.status[i]));
    }
}

/// Whether rows come in the order of their ids, none twice.
pub open spec fn in_id_order(rows: Seq<RowView>) -> bool {
    forall|i: int, j: int|
        0 <= i < j < rows.len() ==> text_less((#[trigger] rows[i]).id, (#[trigger] rows[j]).id)
}

/// Whether `rows` is what a listing's statement reads: of the rows that meet the
/// conditions the first ones in the order of ids, one more than a page holds.
pub open spec fn is_answer(table: Table, filter: FilterView, rows: Seq<RowView>) -> bool {
    &&& in_id_order(rows)
    &&& rows.len() <= page_limit(filter.limit) + 1
    &&& forall|i: int|
        0 <= i < rows.len() ==> select(table, (#[trigger] rows[i]).id) == Some(rows[i]) && selects(
            filter,
            rows[i],
        )
    &&& forall|id: Seq<char>| #[trigger]
        table.contains_key(id) && selects(filter, table[id]) ==> {
            ||| rows.contains(table[id])
            ||| rows.len() == page_limit(filter.limit) + 1 && text_less(rows.last().id, id)
        }
}

/// A subject that was created reads back as it was stored: all that the caller
/// gave but children and URL, with the id and the dates that were filled in. No
/// other subject is touched. `SqliteBackend::create_with` shows that the columns
/// it writes read back.
pub proof fn law_get_returns_what_create_stored(
    table: Table,
    reader: AttachmentReader,
    subject: SubjectView,
    ulid: u128,
    now: (int, int),
)
    requires
        creation_reads_back(subject, ulid, now),
        readable(stamped(subject, ulid, now)),
        reader_keeps(reader, subject.attachments),
        !table.contains_key(stamped(subject, ulid, now).id),
    ensures
        ({
            let stored = stamped(subject, ulid, now);
            after_insert(table, row_of(stored)) matches Some(after) && {
                &&& get(after, reader, stored.id) matches Ok(read) && read == kept(stored)
                &&& agree_but_for(after, table, reader, stored.id)
            }
        }),
{
    law_rows_read_back(stamped(subject, ulid, now), reader);
    law_insertion_makes_the_row(blank_row(), row_of(stamped(subject, ulid, now)));
}

/// Whatever in a created subject cannot be read again, if the subject is read at
/// all, the rest of it is as it was stored: a date that was given is kept, and
/// one that was left out is the time of creation.
pub proof fn law_get_keeps_the_rest_of_what_create_stored(
    table: Table,
    reader: AttachmentReader,
    subject: SubjectView,
    ulid: u128,
    now: (int, int),
)
    requires
        creation_reads_back(subject, ulid, now),
        !table.contains_key(stamped(subject, ulid, now).id),
    ensures
        ({
            let stored = stamped(subject, ulid, now);
            after_insert(table, row_of(stored)) matches Some(after) && {
                &&& get(after, reader, stored.id) matches Ok(read) ==> read_of(read, stored)
                &&& agree_but_for(after, table, reader, stored.id)
            }
        }),
{
    law_rows_keep_the_rest(stamped(subject, ulid, now), reader);
    law_insertion_makes_the_row(blank_row(), row_of(stamped(subject, ulid, now)));
}

/// An id that is taken cannot be given to a second subject.
pub proof fn law_ids_are_given_once(table: Table, row: RowView)
    requires
        table.contains_key(row.id),
    ensures
        after_insert(table, row) is None,
{
}

/// A subject that was changed reads back as patched, and the change touches one
/// row alone. `UpdateStep::fetched_at` shows that the columns it writes read
/// back.
pub proof fn law_get_returns_what_update_stored(
    table: Table,
    reader: AttachmentReader,
    id: Seq<char>,
    patch: PatchView,
    now: (int, int),
)
    requires
        get(table, reader, id) is Ok,
        patch_readable(patched(get(table, reader, id)->Ok_0, patch, now)),
        patching_reads_back(id, patch, Ok(read(table, reader, id)), now),
    ensures
        ({
            let current = get(table, reader, id)->Ok_0;
            let after = after_update(table, id, patch_changes(current, patch, now));
            &&& rows_affected(table, id) == 1
            &&& get(after, reader, id) matches Ok(read) && read == patched(current, patch, now)
            &&& agree_but_for(after, table, reader, id)
        }),
{
    let current = get(table, reader, id)->Ok_0;
    let expected = patched(current, patch, now);
    let changes = patch_changes(current, patch, now);
    law_status_text_reads_back(expected.status);
    lemma_lasting_fields_read_back(changes.custom_fields, expected.custom);
    let row = changed_row(table[id], changes);
    law_update_writes_the_changed_columns(table[id], changes);
    assert(row_subject(fetched_with(reader, row)) =~= expected);
}

/// Whatever custom field of a changed subject cannot be read again, if the
/// subject is read at all, the rest of it is as patched: status, assignee,
/// labels, description, native status, the custom fields that can be read again,
/// and the time of the change.
pub proof fn law_get_keeps_the_rest_of_what_update_stored(
    table: Table,
    reader: AttachmentReader,
    id: Seq<char>,
    patch: PatchView,
    now: (int, int),
)
    requires
        get(table, reader, id) is Ok,
        is_plain(now),
        patching_reads_back(id, patch, Ok(read(table, reader, id)), now),
    ensures
        ({
            let current = get(table, reader, id)->Ok_0;
            let expected = patched(current, patch, now);
            let after = after_update(table, id, patch_changes(current, patch, now));
            &&& rows_affected(table, id) == 1
            &&& get(after, reader, id) matches Ok(read) ==> {
                &&& read == (SubjectView { custom: read.custom, ..expected })
                &&& same_lasting_fields(read.custom, expected.custom)
            }
            &&& agree_but_for(after, table, reader, id)
        }),
{
    let current = get(table, reader, id)->Ok_0;
    law_status_text_reads_back(patched(current, patch, now).status);
    law_update_writes_the_changed_columns(table[id], patch_changes(current, patch, now));
}

/// Creating and changing subjects keeps the table in order: every row under its
/// own id, every id one of this backend, every kind served.
pub proof fn law_table_stays_in_order(
    table: Table,
    config: ConfigView,
    subject: SubjectView,
    ulid: u128,
    now: (int, int),
    id: Seq<char>,
    changes: ChangesView,
)
    requires
        well_keyed(table),
        serves(table, config),
    ensures
        well_keyed(after_update(table, id, changes)),
        serves(after_update(table, id, changes), config),
        creation(config, subject, ulid, now) is Ok ==> (after_insert(
            table,
            row_of(stamped(subject, ulid, now)),
        ) matches Some(after) ==> well_keyed(after) && serves(after, config)),
{
    assert(is_own_id(subject_id_text(ulid)));
    law_update_writes_the_changed_columns(table[id], changes);
    if let Some(after) = after_insert(table, row_of(stamped(subject, ulid, now))) {
        law_insertion_makes_the_row(blank_row(), row_of(stamped(subject, ulid, now)));
    }
}

/// Whether every row holds a subject.
pub open spec fn legible(table: Table, reader: AttachmentReader) -> bool {
    forall|id: Seq<char>| #[trigger] table.contains_key(id) ==> get(table, reader, id) is Ok
}

proof fn lemma_stays_legible(
    table: Table,
    after: Table,
    reader: AttachmentReader,
    id: Seq<char>,
)
    requires
        legible(table, reader),
        get(after, reader, id) is Ok,
        forall|other: Seq<char>| #[trigger]
            after.contains_key(other) && other != id ==> table.contains_key(other),
        agree_but_for(after, table, reader, id),
    ensures
        legible(after, reader),
{
    assert forall|other: Seq<char>| #[trigger] after.contains_key(other) implies get(
        after,
        reader,
        other,
    ) is Ok by {
        if other != id {
            assert(get(after, reader, other) == get(table, reader, other));
        }
    }
}

/// Creating a subject that can be read again keeps every row legible.
pub proof fn law_creating_keeps_the_table_legible(
    table: Table,
    reader: AttachmentReader,
    subject: SubjectView,
    ulid: u128,
    now: (int, int),
)
    requires
        legible(table, reader),
        creation_reads_back(subject, ulid, now),
        readable(stamped(subject, ulid, now)),
        reader_keeps(reader, subject.attachments),
    ensures
        after_insert(table, row_of(stamped(subject, ulid, now))) matches Some(after) ==> legible(
            after,
            reader,
        ),
{
    let stored = stamped(subject, ulid, now);
    if let Some(after) = after_insert(table, row_of(stored)) {
        law_get_returns_what_create_stored(table, reader, subject, ulid, now);
        lemma_stays_legible(table, after, reader, stored.id);
    }
}

/// Changing a subject so that it can be read again keeps every row legible.
pub proof fn law_changing_keeps_the_table_legible(
    table: Table,
    reader: AttachmentReader,
    id: Seq<char>,
    patch: PatchView,
    now: (int, int),
)
    requires
        legible(table, reader),
        table.contains_key(id),
        patch_readable(patched(get(table, reader, id)->Ok_0, patch, now)),
        patching_reads_back(id, patch, Ok(read(table, reader, id)), now),
    ensures
        legible(
            after_update(table, id, patch_changes(get(table, reader, id)->Ok_0, patch, now)),
            reader,
        ),
{
    assert(get(table, reader, id) is Ok);
    let changes = patch_changes(get(table, reader, id)->Ok_0, patch, now);
    law_get_returns_what_update_stored(table, reader, id, patch, now);
    lemma_stays_legible(table, after_update(table, id, changes), reader, id);
}

/// A change leaves alone what no patch can name: id, kind, title, priority,
/// parent, creation date, status metadata and attachments.
pub proof fn law_patch_keeps_what_it_cannot_name(
    subject: SubjectView,
    patch: PatchView,
    now: (int, int),
)
    ensures
        ({
            let after = patched(subject, patch, now);
            &&& after.id == subject.id
            &&& after.kind == subject.kind
            &&& after.title == subject.title
            &&& after.priority == subject.priority
            &&& after.parent == subject.parent
            &&& after.created_at == subject.created_at
            &&& after.status_metadata == subject.status_metadata
            &&& after.attachments == subject.attachments
            &&& after.updated_at == now
        }),
{
}

/// The empty patch changes nothing but the date of the last change.
pub proof fn law_empty_patch_changes_only_the_date(subject: SubjectView, now: (int, int))
    ensures
        patched(subject, empty_patch(), now) == (SubjectView { updated_at: now, ..subject }),
        change_of(subject, empty_patch()) == ChangeKind::Updated,
{
    lemma_filter_nothing(subject.labels, Seq::empty());
    assert(patched_fields(subject.custom, Map::empty()) =~= subject.custom);
}

proof fn lemma_filter_nothing(labels: Seq<Seq<char>>, removed: Seq<Seq<char>>)
    requires
        removed.len() == 0,
    ensures
        labels_without(labels, removed) == labels,
    decreases labels.len(),
{
    reveal(Seq::filter);
    if labels.len() > 0 {
        lemma_filter_nothing(labels.drop_last(), removed);
        assert(labels.drop_last().push(labels.last()) == labels);
    }
}

/// After a change a subject has every label that was added, and of its former
/// labels exactly those that were not removed; a label that is removed and not
/// added is gone.
pub proof fn law_patched_labels(
    subject: SubjectView,
    patch: PatchView,
    now: (int, int),
    label: Seq<char>,
)
    ensures
        patched(subject, patch, now).labels.contains(label) <==> {
            ||| patch.labels_add.contains(label)
            ||| subject.labels.contains(label) && !patch.labels_remove.contains(label)
        },
{
    lemma_labels_without(subject.labels, patch.labels_remove, label);
    lemma_labels_with(
        labels_without(subject.labels, patch.labels_remove),
        patch.labels_add,
        label,
    );
}

proof fn lemma_push_contains(list: Seq<Seq<char>>, last: Seq<char>, item: Seq<char>)
    ensures
        list.push(last).contains(item) <==> list.contains(item) || item == last,
{
    let longer = list.push(last);
    if list.contains(item) {
        let i = choose|i: int| 0 <= i < list.len() && list[i] == item;
        assert(longer[i] == item);
    }
    if item == last {
        assert(longer[longer.len() - 1] == item);
    }
    if longer.contains(item) && item != last {
        let i = choose|i: int| 0 <= i < longer.len() && longer[i] == item;
        assert(list[i] == item);
    }
}

proof fn lemma_labels_without(labels: Seq<Seq<char>>, removed: Seq<Seq<char>>, label: Seq<char>)
    ensures
        labels_without(labels, removed).contains(label) <==> labels.contains(label)
            && !removed.contains(label),
    decreases labels.len(),
{
    reveal(Seq::filter);
    if labels.len() > 0 {
        let front = labels.drop_last();
        lemma_labels_without(front, removed, label);
        lemma_push_contains(front, labels.last(), label);
        lemma_push_contains(labels_without(front, removed), labels.last(), label);
        assert(front.push(labels.last()) == labels);
    }
}

proof fn lemma_labels_with(labels: Seq<Seq<char>>, added: Seq<Seq<char>>, label: Seq<char>)
    ensures
        labels_with(labels, added).contains(label) <==> labels.contains(label) || added.contains(
            label,
        ),
    decreases added.len(),
{
    if added.len() > 0 {
        let front = added.drop_last();
        lemma_labels_with(labels, front, label);
        lemma_push_contains(front, added.last(), label);
        lemma_push_contains(labels_with(labels, front), added.last(), label);
        assert(front.push(added.last()) == added);
    }
}

/// After a change a custom field that was patched with `null` is gone, one that
/// was patched with another value has it, and one that was not patched is as it
/// was.
pub proof fn law_patched_fields(
    subject: SubjectView,
    patch: PatchView,
    now: (int, int),
    key: Seq<char>,
)
    requires
        key != "native_status"@,
    ensures
        ({
            let before = subject.custom;
            let after = patched(subject, patch, now).custom;
            &&& patch.custom.contains_key(key) && patch.custom[key] is Null
                ==> !after.contains_key(key)
            &&& patch.custom.contains_key(key) && !(patch.custom[key] is Null)
                ==> after.contains_key(key) && after[key] == patch.custom[key]
            &&& !patch.custom.contains_key(key) ==> (after.contains_key(key)
                <==> before.contains_key(key)) && (before.contains_key(key) ==> after[key]
                == before[key])
        }),
{
}

/// Patching the native status never makes or clears a custom field of that
/// name.
pub proof fn law_native_status_is_no_custom_field(
    subject: SubjectView,
    patch: PatchView,
    now: (int, int),
)
    ensures
        ({
            let before = subject.custom;
            let after = patched(subject, patch, now).custom;
            &&& after.contains_key("native_status"@) <==> before.contains_key("native_status"@)
            &&& before.contains_key("native_status"@) ==> after["native_status"@]
                == before["native_status"@]
        }),
{
}

/// Cancelling is a soft delete: the row stays in a listing that does not ask for
/// statuses, and drops out of one that asks for others.
pub proof fn law_cancelled_rows_are_listed_unless_excluded(filter: FilterView, row: RowView)
    requires
        row.status == status_text(SubjectStatus::Cancelled),
    ensures
        selects(empty_filter(), row),
        filter.status.len() > 0 && !filter.status.contains(SubjectStatus::Cancelled)
            ==> !selects(filter, row),
{
    law_listing_asks_for(empty_filter(), row);
    law_listing_asks_for(filter, row);
    if filter.status.len() > 0 {
        law_listing_by_status(filter, row, SubjectStatus::Cancelled);
    }
}

/// A listing by date goes by time: of the rows that were written with plain dates
/// it leaves out those that changed before the filter's
/// date, and no others. `SqliteStore::list` shows that the filter's date sorts by
/// time.
pub proof fn law_listing_by_date_goes_by_time(
    filter: FilterView,
    row: RowView,
    updated_at: (int, int),
)
    requires
        since_sorts(filter),
        filter.updated_since matches Some(t) && is_plain(t),
        representable(updated_at.0, updated_at.1),
        is_plain(updated_at),
        row.updated_at == rfc3339_text(updated_at.0, updated_at.1),
    ensures
        selects(filter, row) <==> !earlier(updated_at, filter.updated_since->0) && selects(
            FilterView { updated_since: None, ..filter },
            row,
        ),
{
    law_listing_asks_for(filter, row);
    law_listing_asks_for(FilterView { updated_since: None, ..filter }, row);
}

/// A page holds at least one row's worth and at most the maximum, whatever the
/// caller asks for, and never more subjects than that.
pub proof fn law_pages_are_bounded(filter: FilterView, rows: Seq<Result<FetchedView, Seq<char>>>)
    ensures
        1 <= page_limit(filter.limit) <= MAX_LIMIT,
        page_of(filter, rows) matches Ok(page) ==> page.0.len() <= page_limit(filter.limit),
{
    lemma_wanted_are_no_more(filter, rows_of_page(filter, rows));
}

proof fn lemma_wanted_are_no_more(filter: FilterView, rows: Seq<Result<FetchedView, Seq<char>>>)
    ensures
        wanted_subjects(filter, rows) matches Ok(list) ==> list.len() <= rows.len(),
    decreases rows.len(),
{
    if rows.len() > 0 {
        lemma_wanted_are_no_more(filter, rows.drop_last());
    }
}

/// A page holds the subjects of its rows that pass the filter, and no others.
pub proof fn law_page_holds_the_wanted_subjects(
    filter: FilterView,
    rows: Seq<Result<FetchedView, Seq<char>>>,
    subject: SubjectView,
)
    requires
        page_of(filter, rows) is Ok,
    ensures
        page_of(filter, rows)->Ok_0.0.contains(subject) <==> wanted(filter, subject) && exists|i: int|
            0 <= i < rows_of_page(filter, rows).len() && page_subject(
                #[trigger] rows_of_page(filter, rows)[i],
            ) == Ok::<SubjectView, ErrorView>(subject),
{
    lemma_wanted_membership(filter, rows_of_page(filter, rows), subject);
}

proof fn lemma_wanted_membership(
    filter: FilterView,
    rows: Seq<Result<FetchedView, Seq<char>>>,
    subject: SubjectView,
)
    requires
        wanted_subjects(filter, rows) is Ok,
    ensures
        wanted_subjects(filter, rows)->Ok_0.contains(subject) <==> wanted(filter, subject)
            && exists|i: int|
            0 <= i < rows.len() && page_subject(#[trigger] rows[i]) == Ok::<
                SubjectView,
                ErrorView,
            >(subject),
    decreases rows.len(),
{
    if rows.len() > 0 {
        let front = rows.drop_last();
        lemma_wanted_membership(filter, front, subject);
        let before = wanted_subjects(filter, front)->Ok_0;
        let after = wanted_subjects(filter, rows)->Ok_0;
        let last = page_subject(rows.last())->Ok_0;
        if wanted(filter, last) {
            assert(after == before.push(last));
            if before.contains(subject) {
                let i = choose|i: int| 0 <= i < before.len() && before[i] == subject;
                assert(after[i] == subject);
            }
            if last == subject {
                assert(after[after.len() - 1] == subject);
            }
            if after.contains(subject) && last != subject {
                let i = choose|i: int| 0 <= i < after.len() && after[i] == subject;
                assert(before[i] == subject);
            }
        }
        if exists|i: int|
            0 <= i < front.len() && page_subject(#[trigger] front[i]) == Ok::<
                SubjectView,
                ErrorView,
            >(subject) {
            let i = choose|i: int|
                0 <= i < front.len() && page_subject(#[trigger] front[i]) == Ok::<
                    SubjectView,
                    ErrorView,
                >(subject);
            assert(rows[i] == front[i]);
        }
        if exists|i: int|
            0 <= i < rows.len() && page_subject(#[trigger] rows[i]) == Ok::<
                SubjectView,
                ErrorView,
            >(subject) {
            let i = choose|i: int|
                0 <= i < rows.len() && page_subject(#[trigger] rows[i]) == Ok::<
                    SubjectView,
                    ErrorView,
                >(subject);
            if i < front.len() {
                assert(front[i] == rows[i]);
            }
        }
        if last == subject {
            assert(page_subject(rows[rows.len() - 1]) == Ok::<
                SubjectView,
                ErrorView,
            >(subject));
        }
    }
}

} // verus!
