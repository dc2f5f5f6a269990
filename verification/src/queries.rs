//! Laws of statements and of pages, said without the parts that they are built
//! from.

use crate::row::{status_text, subject_in, FetchedView, RowView};
use crate::sql::{columns, condition_text, names_text, question_marks, text_binds};
use crate::sql::{conditions_binds, conditions_text, any_of, just, name_of};
use crate::sql::{assigned_columns, Column, ConditionView, Relation};
use crate::store::{assignments, conditions, get_statement, hold_texts, insert_statement, insertion};
use crate::store::{list_statement, page_limit, page_of, page_subject, rows_of_page, since_text};
use crate::store::{status_texts, update_statement, wanted, wanted_subjects, BindView, ChangesView};
use crate::subject::{ErrorView, FilterView, SubjectView};
use crate::time::rfc3339_text;
use vstd::prelude::*;

verus! {

/// `text` if it is called for.
pub open spec fn text_if(there: bool, text: Seq<char>) -> Seq<char> {
    if there {
        text
    } else {
        Seq::empty()
    }
}

/// The value of an optional text, if there is one.
pub open spec fn value_if(text: Option<Seq<char>>) -> Seq<BindView> {
    match text {
        Some(t) => seq![BindView::Text(t)],
        None => Seq::empty(),
    }
}

/// A listing asks for each list of the filter that is not empty and for each
/// value that is given, in a fixed order, then for order and limit; its values
/// are those of the filter in the same order, and one more than a page holds.
pub proof fn law_listing_says_what_the_filter_says(filter: FilterView)
    ensures
        list_statement(filter).sql == "SELECT "@ + names_text(columns())
            + " FROM subjects WHERE 1 = 1"@ + (text_if(
            filter.kind.len() > 0,
            " AND kind IN ("@ + question_marks(filter.kind.len()) + ")"@,
        ) + text_if(
            filter.status.len() > 0,
            " AND status IN ("@ + question_marks(filter.status.len()) + ")"@,
        ) + text_if(
            filter.assignee.len() > 0,
            " AND assignee IN ("@ + question_marks(filter.assignee.len()) + ")"@,
        ) + text_if(filter.updated_since is Some, " AND updated_at >= ?"@) + text_if(
            filter.native_status is Some,
            " AND native_status = ?"@,
        ) + text_if(filter.cursor is Some, " AND id > ?"@)) + " ORDER BY id ASC LIMIT ?"@,
        list_statement(filter).binds == (Seq::new(
            filter.kind.len(),
            |i: int| BindView::Text(filter.kind[i]),
        ) + Seq::new(filter.status.len(), |i: int| BindView::Text(status_text(filter.status[i])))
            + Seq::new(filter.assignee.len(), |i: int| BindView::Text(filter.assignee[i]))
            + value_if(
            match filter.updated_since {
                Some(t) => Some(rfc3339_text(t.0, t.1)),
                None => None,
            },
        ) + value_if(filter.native_status) + value_if(filter.cursor)).push(
            BindView::Int((page_limit(filter.limit) + 1) as i64),
        ),
{
    lemma_listing_texts(filter);
    lemma_listing_values(filter);
    lemma_condition_words();
    let head = "SELECT "@ + names_text(columns());
    let text = conditions_text(conditions(filter));
    lemma_joined_thrice(head, " FROM subjects WHERE "@, "1 = 1"@);
    let start = head + " FROM subjects WHERE 1 = 1"@ + text;
    lemma_joined_thrice(start, " ORDER BY "@, "id"@);
    lemma_joined_thrice(start, " ORDER BY "@ + "id"@, " ASC LIMIT ?"@);
}

proof fn lemma_joined_thrice(a: Seq<char>, b: Seq<char>, c: Seq<char>)
    ensures
        a + b + c == a + (b + c),
{
    assert(a + b + c =~= a + (b + c));
}

proof fn lemma_listing_texts(filter: FilterView)
    ensures
        conditions_text(conditions(filter)) == text_if(
            filter.kind.len() > 0,
            " AND kind IN ("@ + question_marks(filter.kind.len()) + ")"@,
        ) + text_if(
            filter.status.len() > 0,
            " AND status IN ("@ + question_marks(filter.status.len()) + ")"@,
        ) + text_if(
            filter.assignee.len() > 0,
            " AND assignee IN ("@ + question_marks(filter.assignee.len()) + ")"@,
        ) + text_if(filter.updated_since is Some, " AND updated_at >= ?"@) + text_if(
            filter.native_status is Some,
            " AND native_status = ?"@,
        ) + text_if(filter.cursor is Some, " AND id > ?"@),
{
    let statuses = status_texts(filter.status);
    let since = since_text(filter.updated_since);
    lemma_six_conditions(filter);
    lemma_any_of_text(Column::Kind, filter.kind);
    lemma_any_of_text(Column::Status, statuses);
    lemma_any_of_text(Column::Assignee, filter.assignee);
    lemma_just_text(Column::UpdatedAt, Relation::AtLeast, since);
    lemma_just_text(Column::NativeStatus, Relation::Equal, filter.native_status);
    lemma_just_text(Column::Id, Relation::Behind, filter.cursor);
    lemma_condition_words();
}

proof fn lemma_listing_values(filter: FilterView)
    ensures
        conditions_binds(conditions(filter)) == Seq::new(
            filter.kind.len(),
            |i: int| BindView::Text(filter.kind[i]),
        ) + Seq::new(filter.status.len(), |i: int| BindView::Text(status_text(filter.status[i])))
            + Seq::new(filter.assignee.len(), |i: int| BindView::Text(filter.assignee[i]))
            + value_if(
            match filter.updated_since {
                Some(t) => Some(rfc3339_text(t.0, t.1)),
                None => None,
            },
        ) + value_if(filter.native_status) + value_if(filter.cursor),
{
    let statuses = status_texts(filter.status);
    let since = since_text(filter.updated_since);
    lemma_six_conditions(filter);
    lemma_any_of_text(Column::Kind, filter.kind);
    lemma_any_of_text(Column::Status, statuses);
    lemma_any_of_text(Column::Assignee, filter.assignee);
    lemma_just_text(Column::UpdatedAt, Relation::AtLeast, since);
    lemma_just_text(Column::NativeStatus, Relation::Equal, filter.native_status);
    lemma_just_text(Column::Id, Relation::Behind, filter.cursor);
    assert(text_binds(filter.kind) == Seq::new(
        filter.kind.len(),
        |i: int| BindView::Text(filter.kind[i]),
    ));
    assert(text_binds(statuses) == Seq::new(
        filter.status.len(),
        |i: int| BindView::Text(status_text(filter.status[i])),
    ));
    assert(text_binds(filter.assignee) == Seq::new(
        filter.assignee.len(),
        |i: int| BindView::Text(filter.assignee[i]),
    ));
}

proof fn lemma_six_conditions(filter: FilterView)
    ensures
        ({
            let a = any_of(Column::Kind, filter.kind);
            let b = any_of(Column::Status, status_texts(filter.status));
            let c = any_of(Column::Assignee, filter.assignee);
            let d = just(Column::UpdatedAt, Relation::AtLeast, since_text(filter.updated_since));
            let e = just(Column::NativeStatus, Relation::Equal, filter.native_status);
            let f = just(Column::Id, Relation::Behind, filter.cursor);
            let all = conditions(filter);
            &&& conditions_text(all) == conditions_text(a) + conditions_text(b) + conditions_text(c)
                + conditions_text(d) + conditions_text(e) + conditions_text(f)
            &&& conditions_binds(all) == conditions_binds(a) + conditions_binds(b)
                + conditions_binds(c) + conditions_binds(d) + conditions_binds(e)
                + conditions_binds(f)
        }),
{
    let a = any_of(Column::Kind, filter.kind);
    let b = any_of(Column::Status, status_texts(filter.status));
    let c = any_of(Column::Assignee, filter.assignee);
    let d = just(Column::UpdatedAt, Relation::AtLeast, since_text(filter.updated_since));
    let e = just(Column::NativeStatus, Relation::Equal, filter.native_status);
    let f = just(Column::Id, Relation::Behind, filter.cursor);
    lemma_joined_conditions(a, b);
    lemma_joined_conditions(a + b, c);
    lemma_joined_conditions(a + b + c, d);
    lemma_joined_conditions(a + b + c + d, e);
    lemma_joined_conditions(a + b + c + d + e, f);
}

proof fn lemma_joined_conditions(a: Seq<ConditionView>, b: Seq<ConditionView>)
    ensures
        conditions_text(a + b) == conditions_text(a) + conditions_text(b),
        conditions_binds(a + b) == conditions_binds(a) + conditions_binds(b),
    decreases b.len(),
{
    if b.len() == 0 {
        assert(a + b == a);
        assert(conditions_text(a) + conditions_text(b) == conditions_text(a));
        assert(conditions_binds(a) + conditions_binds(b) == conditions_binds(a));
    } else {
        lemma_joined_conditions(a, b.drop_last());
        assert((a + b).drop_last() == a + b.drop_last());
        assert((a + b).last() == b.last());
        assert(conditions_text(a + b) == conditions_text(a) + conditions_text(b));
        assert(conditions_binds(a + b) == conditions_binds(a) + conditions_binds(b));
    }
}

proof fn lemma_one_condition(c: ConditionView)
    ensures
        conditions_text(seq![c]) == condition_text(c),
        conditions_binds(seq![c]) == text_binds(c.values),
{
    reveal_with_fuel(conditions_text, 2);
    reveal_with_fuel(conditions_binds, 2);
    assert(seq![c].drop_last() == Seq::<ConditionView>::empty());
    assert(seq![c].last() == c);
    assert(conditions_text(seq![c]) == Seq::<char>::empty() + condition_text(c));
    assert(conditions_binds(seq![c]) == Seq::<BindView>::empty() + text_binds(c.values));
}

proof fn lemma_any_of_text(column: Column, values: Seq<Seq<char>>)
    ensures
        conditions_text(any_of(column, values)) == text_if(
            values.len() > 0,
            " AND "@ + name_of(column) + " IN ("@ + question_marks(values.len()) + ")"@,
        ),
        conditions_binds(any_of(column, values)) == text_binds(values),
{
    if values.len() > 0 {
        let c = ConditionView { column, relation: Relation::OneOf, values };
        lemma_one_condition(c);
        assert(condition_text(c) == " AND "@ + name_of(column) + " IN ("@ + question_marks(
            values.len(),
        ) + ")"@);
    } else {
        assert(text_binds(values) == Seq::<BindView>::empty());
    }
}

proof fn lemma_just_text(column: Column, relation: Relation, value: Option<Seq<char>>)
    ensures
        conditions_text(just(column, relation, value)) == text_if(
            value is Some,
            condition_text(ConditionView { column, relation, values: seq![value->0] }),
        ),
        conditions_binds(just(column, relation, value)) == value_if(value),
{
    if let Some(v) = value {
        lemma_one_condition(ConditionView { column, relation, values: seq![v] });
        assert(text_binds(seq![v]) == seq![BindView::Text(v)]);
    }
}

proof fn lemma_condition_words()
    ensures
        " AND "@ + "kind"@ + " IN ("@ == " AND kind IN ("@,
        " AND "@ + "status"@ + " IN ("@ == " AND status IN ("@,
        " AND "@ + "assignee"@ + " IN ("@ == " AND assignee IN ("@,
        " AND "@ + "updated_at"@ + " >= ?"@ == " AND updated_at >= ?"@,
        " AND "@ + "native_status"@ + " = ?"@ == " AND native_status = ?"@,
        " AND "@ + "id"@ + " > ?"@ == " AND id > ?"@,
        " FROM subjects WHERE "@ + "1 = 1"@ == " FROM subjects WHERE 1 = 1"@,
        " ORDER BY "@ + "id"@ + " ASC LIMIT ?"@ == " ORDER BY id ASC LIMIT ?"@,
{
    reveal_strlit(" AND ");
    reveal_strlit("kind");
    reveal_strlit(" IN (");
    reveal_strlit(" AND kind IN (");
    reveal_strlit("status");
    reveal_strlit(" AND status IN (");
    reveal_strlit("assignee");
    reveal_strlit(" AND assignee IN (");
    reveal_strlit("updated_at");
    reveal_strlit(" >= ?");
    reveal_strlit(" AND updated_at >= ?");
    reveal_strlit("native_status");
    reveal_strlit(" = ?");
    reveal_strlit(" AND native_status = ?");
    reveal_strlit("id");
    reveal_strlit(" > ?");
    reveal_strlit(" AND id > ?");
    reveal_strlit(" FROM subjects WHERE ");
    reveal_strlit("1 = 1");
    reveal_strlit(" FROM subjects WHERE 1 = 1");
    reveal_strlit(" ORDER BY ");
    reveal_strlit(" ASC LIMIT ?");
    reveal_strlit(" ORDER BY id ASC LIMIT ?");
}

/// The texts of the statements on one row do not depend on the row; their values
/// are those of the row's columns, or of the changed ones, in a fixed order.
pub proof fn law_statements_on_one_row(
    row: RowView,
    another: RowView,
    id: Seq<char>,
    other: Seq<char>,
    changes: ChangesView,
    more: ChangesView,
)
    ensures
        insert_statement(row).sql == insert_statement(another).sql,
        get_statement(id).sql == get_statement(other).sql,
        update_statement(id, changes).sql == update_statement(other, more).sql,
        get_statement(id).binds == seq![BindView::Text(id)],
        update_statement(id, changes).binds == seq![
            BindView::Text(changes.status),
            nullable(changes.assignee),
            BindView::Text(changes.labels),
            nullable(changes.body),
            BindView::Text(changes.custom_fields),
            nullable(changes.native_status),
            BindView::Text(changes.updated_at),
            BindView::Text(id),
        ],
        insert_statement(row).binds == seq![
            BindView::Text(row.id),
            BindView::Text(row.kind),
            BindView::Text(row.title),
            nullable(row.body),
            BindView::Text(row.status),
            match row.priority {
                Some(n) => BindView::Int(n),
                None => BindView::Null,
            },
            nullable(row.assignee),
            BindView::Text(row.labels),
            nullable(row.parent_id),
            BindView::Text(row.custom_fields),
            nullable(row.native_status),
            nullable(row.status_metadata),
            nullable(row.attachments),
            BindView::Text(row.created_at),
            BindView::Text(row.updated_at),
        ],
{
    assert(assigned_columns(insertion(row)) == columns());
    assert(assigned_columns(insertion(another)) == columns());
    assert(assigned_columns(assignments(changes)) == assigned_columns(assignments(more)));
}

/// A text, or nothing.
pub open spec fn nullable(text: Option<Seq<char>>) -> BindView {
    match text {
        Some(t) => BindView::Text(t),
        None => BindView::Null,
    }
}

/// A page holds as many rows as are asked for, but at least one and at most 500;
/// if nothing is asked for, 50.
pub proof fn law_page_holds_what_is_asked_for(asked: u32, more: u32)
    ensures
        1 <= asked <= 500 ==> page_limit(Some(asked)) == asked,
        page_limit(Some(0u32)) == 1,
        asked > 500 ==> page_limit(Some(asked)) == 500,
        asked <= more ==> page_limit(Some(asked)) <= page_limit(Some(more)),
        page_limit(None) == 50,
{
}

/// A listing narrows to a subject if and only if the subject has one of the
/// labels of which one is asked for, all of those of which all are asked for, and
/// an attachment of the kind that is asked for.
pub proof fn law_subject_is_wanted(filter: FilterView, subject: SubjectView)
    ensures
        wanted(filter, subject) <==> {
            &&& filter.labels_any.len() > 0 ==> exists|i: int, j: int|
                0 <= i < filter.labels_any.len() && 0 <= j < subject.labels.len()
                    && #[trigger] filter.labels_any[i] == #[trigger] subject.labels[j]
            &&& forall|i: int|
                0 <= i < filter.labels_all.len() ==> exists|j: int|
                    0 <= j < subject.labels.len() && #[trigger] subject.labels[j]
                        == #[trigger] filter.labels_all[i]
            &&& filter.has_attachment_kind matches Some(kind) ==> exists|i: int|
                0 <= i < subject.attachments.len() && (#[trigger] subject.attachments[i]).kind
                    == kind
        },
{
    if wanted(filter, subject) {
        if filter.labels_any.len() > 0 {
            let t = choose|t: Seq<char>| #[trigger]
                subject.labels.contains(t) && filter.labels_any.contains(t);
            let j = choose|j: int| 0 <= j < subject.labels.len() && subject.labels[j] == t;
            let i = choose|i: int| 0 <= i < filter.labels_any.len() && filter.labels_any[i] == t;
            assert(filter.labels_any[i] == subject.labels[j]);
        }
        assert forall|i: int| 0 <= i < filter.labels_all.len() implies exists|j: int|
            0 <= j < subject.labels.len() && #[trigger] subject.labels[j]
                == #[trigger] filter.labels_all[i] by {
            assert(filter.labels_all.contains(filter.labels_all[i]));
            assert(subject.labels.contains(filter.labels_all[i]));
        }
    }
    if forall|i: int|
        0 <= i < filter.labels_all.len() ==> exists|j: int|
            0 <= j < subject.labels.len() && #[trigger] subject.labels[j]
                == #[trigger] filter.labels_all[i] {
        assert forall|t: Seq<char>| #[trigger]
            filter.labels_all.contains(t) implies subject.labels.contains(t) by {
            let i = choose|i: int| 0 <= i < filter.labels_all.len() && filter.labels_all[i] == t;
            let j = choose|j: int|
                0 <= j < subject.labels.len() && #[trigger] subject.labels[j]
                    == filter.labels_all[i];
            assert(subject.labels[j] == t);
        }
    }
    if exists|i: int, j: int|
        0 <= i < filter.labels_any.len() && 0 <= j < subject.labels.len()
            && #[trigger] filter.labels_any[i] == #[trigger] subject.labels[j] {
        let (i, j) = choose|i: int, j: int|
            0 <= i < filter.labels_any.len() && 0 <= j < subject.labels.len()
                && #[trigger] filter.labels_any[i] == #[trigger] subject.labels[j];
        let t = subject.labels[j];
        assert(filter.labels_any[i] == t);
        assert(subject.labels.contains(t) && filter.labels_any.contains(t));
    }
}

/// A further label never drops a subject from a listing.
pub proof fn law_further_labels_do_no_harm(
    filter: FilterView,
    subject: SubjectView,
    more: Seq<Seq<char>>,
)
    requires
        wanted(filter, subject),
    ensures
        wanted(filter, SubjectView { labels: subject.labels + more, ..subject }),
{
    let richer = SubjectView { labels: subject.labels + more, ..subject };
    assert forall|t: Seq<char>| subject.labels.contains(t) implies #[trigger] richer.labels.contains(
        t,
    ) by {
        let j = choose|j: int| 0 <= j < subject.labels.len() && subject.labels[j] == t;
        assert(richer.labels[j] == t);
    }
    if filter.labels_any.len() > 0 {
        let t = choose|t: Seq<char>| #[trigger]
            subject.labels.contains(t) && filter.labels_any.contains(t);
        assert(richer.labels.contains(t) && filter.labels_any.contains(t));
    }
    assert(hold_texts(richer.labels, filter.labels_all));
}

/// The rows of a page are the first ones of the answer, as many as a page holds;
/// its subjects are those of its rows that are wanted, in the same order and none
/// left out; its cursor is the id of its last row, if there are more rows.
pub proof fn law_page_is_its_rows_narrowed(
    filter: FilterView,
    rows: Seq<FetchedView>,
    subjects: Seq<SubjectView>,
)
    requires
        subjects.len() == rows.len(),
        forall|i: int|
            0 <= i < rows.len() ==> subject_in(#[trigger] rows[i]) == Ok::<SubjectView, ErrorView>(
                subjects[i],
            ),
    ensures
        ({
            let n = if rows.len() > page_limit(filter.limit) {
                page_limit(filter.limit)
            } else {
                rows.len() as int
            };
            page_of(filter, all_read(rows)) == Ok::<
                (Seq<SubjectView>, Option<Seq<char>>),
                ErrorView,
            >(
                (
                    subjects.take(n).filter(|s: SubjectView| wanted(filter, s)),
                    if rows.len() > n {
                        Some(rows[n - 1].columns.id)
                    } else {
                        None
                    },
                ),
            )
        }),
{
    let n = if rows.len() > page_limit(filter.limit) {
        page_limit(filter.limit)
    } else {
        rows.len() as int
    };
    assert(rows_of_page(filter, all_read(rows)) == all_read(rows.take(n)));
    lemma_narrowed(filter, rows.take(n), subjects.take(n));
}

/// Rows of an answer, all of which could be read.
pub open spec fn all_read(rows: Seq<FetchedView>) -> Seq<Result<FetchedView, Seq<char>>> {
    rows.map_values(|row: FetchedView| Ok::<FetchedView, Seq<char>>(row))
}

proof fn lemma_narrowed(filter: FilterView, rows: Seq<FetchedView>, subjects: Seq<SubjectView>)
    requires
        subjects.len() == rows.len(),
        forall|i: int|
            0 <= i < rows.len() ==> subject_in(#[trigger] rows[i]) == Ok::<SubjectView, ErrorView>(
                subjects[i],
            ),
    ensures
        wanted_subjects(filter, all_read(rows)) == Ok::<Seq<SubjectView>, ErrorView>(
            subjects.filter(|s: SubjectView| wanted(filter, s)),
        ),
    decreases rows.len(),
{
    reveal(Seq::filter);
    let keep = |s: SubjectView| wanted(filter, s);
    if rows.len() == 0 {
        assert(subjects.filter(keep) == Seq::<SubjectView>::empty());
    } else {
        let n = rows.len() - 1;
        lemma_narrowed(filter, rows.drop_last(), subjects.drop_last());
        assert(all_read(rows).drop_last() == all_read(rows.drop_last()));
        assert(all_read(rows).last() == Ok::<FetchedView, Seq<char>>(rows[n]));
        assert(subjects.last() == subjects[n]);
    }
}

/// A page with a row that holds no subject fails, with the error of the first
/// such row.
pub proof fn law_page_fails_with_its_first_bad_row(
    filter: FilterView,
    rows: Seq<Result<FetchedView, Seq<char>>>,
    bad: int,
)
    requires
        0 <= bad < rows.len(),
        bad < page_limit(filter.limit),
        page_subject(rows[bad]) is Err,
        forall|i: int| 0 <= i < bad ==> page_subject(#[trigger] rows[i]) is Ok,
    ensures
        page_of(filter, rows) matches Err(error) && error == page_subject(rows[bad])->Err_0,
{
    let own = rows_of_page(filter, rows);
    assert(own[bad] == rows[bad]);
    assert forall|i: int| 0 <= i < bad implies page_subject(#[trigger] own[i]) is Ok by {
        assert(own[i] == rows[i]);
    }
    lemma_first_bad_row(filter, own, bad);
}

proof fn lemma_first_bad_row(
    filter: FilterView,
    rows: Seq<Result<FetchedView, Seq<char>>>,
    bad: int,
)
    requires
        0 <= bad < rows.len(),
        page_subject(rows[bad]) is Err,
        forall|i: int| 0 <= i < bad ==> page_subject(#[trigger] rows[i]) is Ok,
    ensures
        wanted_subjects(filter, rows) matches Err(error) && error == page_subject(
            rows[bad],
        )->Err_0,
    decreases rows.len(),
{
    let front = rows.drop_last();
    if bad < rows.len() - 1 {
        assert(front[bad] == rows[bad]);
        lemma_first_bad_row(filter, front, bad);
    } else {
        lemma_good_rows(filter, front);
    }
}

proof fn lemma_good_rows(filter: FilterView, rows: Seq<Result<FetchedView, Seq<char>>>)
    requires
        forall|i: int| 0 <= i < rows.len() ==> page_subject(#[trigger] rows[i]) is Ok,
    ensures
        wanted_subjects(filter, rows) is Ok,
    decreases rows.len(),
{
    if rows.len() > 0 {
        lemma_good_rows(filter, rows.drop_last());
        assert(page_subject(rows[rows.len() - 1]) is Ok);
    }
}

/// A row of a page that could not be read makes the backend unavailable, with the
/// database's own words; any other is read as a row.
pub proof fn law_rows_of_a_page_are_read_as_rows(fetched: FetchedView, reason: Seq<char>)
    ensures
        page_subject(Ok(fetched)) == subject_in(fetched),
        page_subject(Err(reason)) == Err::<SubjectView, ErrorView>(ErrorView::Unavailable(reason)),
{
}

} // verus!
