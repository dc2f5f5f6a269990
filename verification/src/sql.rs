//! The columns of the table of subjects, and the conditions and assignments that
//! statements are made of.
//!
//! A condition or an assignment is said once, as data. Its SQL text, the values
//! of its question marks, and what it means for a row are read off that.

use crate::row::RowView;
use crate::store::{bind_views, BindValue, BindView};
use crate::text::{opt_text, text_less, texts};
use vstd::prelude::*;

verus! {

/// A column of the table of subjects.
#[derive(Clone, Copy, Debug, PartialEq, Eq, Structural)]
pub enum Column {
    Id,
    Kind,
    Title,
    Body,
    Status,
    Priority,
    Assignee,
    Labels,
    ParentId,
    CustomFields,
    NativeStatus,
    StatusMetadata,
    Attachments,
    CreatedAt,
    UpdatedAt,
}

/// The name of a column.
pub open spec fn name_of(column: Column) -> Seq<char> {
    match column {
        Column::Id => "id"@,
        Column::Kind => "kind"@,
        Column::Title => "title"@,
        Column::Body => "body"@,
        Column::Status => "status"@,
        Column::Priority => "priority"@,
        Column::Assignee => "assignee"@,
        Column::Labels => "labels"@,
        Column::ParentId => "parent_id"@,
        Column::CustomFields => "custom_fields"@,
        Column::NativeStatus => "native_status"@,
        Column::StatusMetadata => "status_metadata"@,
        Column::Attachments => "attachments"@,
        Column::CreatedAt => "created_at"@,
        Column::UpdatedAt => "updated_at"@,
    }
}

/// The name of a column.
pub fn column_name(column: Column) -> (r: &'static str)
    ensures
        r@ == name_of(column),
{
    match column {
        Column::Id => "id",
        Column::Kind => "kind",
        Column::Title => "title",
        Column::Body => "body",
        Column::Status => "status",
        Column::Priority => "priority",
        Column::Assignee => "assignee",
        Column::Labels => "labels",
        Column::ParentId => "parent_id",
        Column::CustomFields => "custom_fields",
        Column::NativeStatus => "native_status",
        Column::StatusMetadata => "status_metadata",
        Column::Attachments => "attachments",
        Column::CreatedAt => "created_at",
        Column::UpdatedAt => "updated_at",
    }
}

/// The columns, in the order in which rows are written and read.
pub open spec fn columns() -> Seq<Column> {
    seq![
        Column::Id,
        Column::Kind,
        Column::Title,
        Column::Body,
        Column::Status,
        Column::Priority,
        Column::Assignee,
        Column::Labels,
        Column::ParentId,
        Column::CustomFields,
        Column::NativeStatus,
        Column::StatusMetadata,
        Column::Attachments,
        Column::CreatedAt,
        Column::UpdatedAt,
    ]
}

/// The columns, in the order in which rows are written and read.
pub fn all_columns() -> (r: Vec<Column>)
    ensures
        r@ == columns(),
{
    vec![
        Column::Id,
        Column::Kind,
        Column::Title,
        Column::Body,
        Column::Status,
        Column::Priority,
        Column::Assignee,
        Column::Labels,
        Column::ParentId,
        Column::CustomFields,
        Column::NativeStatus,
        Column::StatusMetadata,
        Column::Attachments,
        Column::CreatedAt,
        Column::UpdatedAt,
    ]
}

/// An optional text as a value.
pub open spec fn opt_bind(text: Option<Seq<char>>) -> BindView {
    match text {
        Some(t) => BindView::Text(t),
        None => BindView::Null,
    }
}

/// An optional number as a value.
pub open spec fn opt_int(number: Option<i64>) -> BindView {
    match number {
        Some(n) => BindView::Int(n),
        None => BindView::Null,
    }
}

/// The value that a row has in a column.
pub open spec fn value_of(row: RowView, column: Column) -> BindView {
    match column {
        Column::Id => BindView::Text(row.id),
        Column::Kind => BindView::Text(row.kind),
        Column::Title => BindView::Text(row.title),
        Column::Body => opt_bind(row.body),
        Column::Status => BindView::Text(row.status),
        Column::Priority => opt_int(row.priority),
        Column::Assignee => opt_bind(row.assignee),
        Column::Labels => BindView::Text(row.labels),
        Column::ParentId => opt_bind(row.parent_id),
        Column::CustomFields => BindView::Text(row.custom_fields),
        Column::NativeStatus => opt_bind(row.native_status),
        Column::StatusMetadata => opt_bind(row.status_metadata),
        Column::Attachments => opt_bind(row.attachments),
        Column::CreatedAt => BindView::Text(row.created_at),
        Column::UpdatedAt => BindView::Text(row.updated_at),
    }
}

/// Whether a column can hold a value: some hold text alone, the priority a
/// number or nothing, the others text or nothing.
pub open spec fn fits(column: Column, value: BindView) -> bool {
    match column {
        Column::Id | Column::Kind | Column::Title | Column::Status | Column::Labels
        | Column::CustomFields | Column::CreatedAt | Column::UpdatedAt => value is Text,
        Column::Priority => !(value is Text),
        _ => !(value is Int),
    }
}

/// The optional text that a value is.
pub open spec fn text_in(value: BindView) -> Option<Seq<char>> {
    match value {
        BindView::Text(t) => Some(t),
        _ => None,
    }
}

/// The optional number that a value is.
pub open spec fn int_in(value: BindView) -> Option<i64> {
    match value {
        BindView::Int(n) => Some(n),
        _ => None,
    }
}

/// A row after a value that fits was written to a column.
pub open spec fn with_value(row: RowView, column: Column, value: BindView) -> RowView {
    match column {
        Column::Id => RowView { id: text_in(value)->0, ..row },
        Column::Kind => RowView { kind: text_in(value)->0, ..row },
        Column::Title => RowView { title: text_in(value)->0, ..row },
        Column::Body => RowView { body: text_in(value), ..row },
        Column::Status => RowView { status: text_in(value)->0, ..row },
        Column::Priority => RowView { priority: int_in(value), ..row },
        Column::Assignee => RowView { assignee: text_in(value), ..row },
        Column::Labels => RowView { labels: text_in(value)->0, ..row },
        Column::ParentId => RowView { parent_id: text_in(value), ..row },
        Column::CustomFields => RowView { custom_fields: text_in(value)->0, ..row },
        Column::NativeStatus => RowView { native_status: text_in(value), ..row },
        Column::StatusMetadata => RowView { status_metadata: text_in(value), ..row },
        Column::Attachments => RowView { attachments: text_in(value), ..row },
        Column::CreatedAt => RowView { created_at: text_in(value)->0, ..row },
        Column::UpdatedAt => RowView { updated_at: text_in(value)->0, ..row },
    }
}

/// A column and the value that is written to it.
pub type Assignment = (Column, BindView);

/// The columns of a list of assignments.
pub open spec fn assigned_columns(list: Seq<Assignment>) -> Seq<Column> {
    list.map_values(|a: Assignment| a.0)
}

/// The values of a list of assignments.
pub open spec fn assigned_values(list: Seq<Assignment>) -> Seq<BindView> {
    list.map_values(|a: Assignment| a.1)
}

/// A row after a list of assignments.
pub open spec fn assigned(row: RowView, list: Seq<Assignment>) -> RowView
    decreases list.len(),
{
    if list.len() == 0 {
        row
    } else {
        with_value(assigned(row, list.drop_last()), list.last().0, list.last().1)
    }
}

/// Whether every value fits its column, and no column is written twice.
pub open spec fn sound(list: Seq<Assignment>) -> bool {
    &&& forall|i: int| 0 <= i < list.len() ==> fits((#[trigger] list[i]).0, list[i].1)
    &&& forall|i: int, j: int|
        0 <= i < j < list.len() ==> (#[trigger] list[i]).0 != (#[trigger] list[j]).0
}

/// A sound list of assignments gives each of its columns its value, and leaves
/// the other columns alone.
pub proof fn law_assignments_write_their_columns(row: RowView, list: Seq<Assignment>)
    requires
        sound(list),
    ensures
        forall|i: int|
            0 <= i < list.len() ==> value_of(assigned(row, list), (#[trigger] list[i]).0)
                == list[i].1,
        forall|c: Column|
            !assigned_columns(list).contains(c) ==> #[trigger] value_of(assigned(row, list), c)
                == value_of(row, c),
    decreases list.len(),
{
    if list.len() > 0 {
        let front = list.drop_last();
        let before = assigned(row, front);
        let n = list.len() - 1;
        law_assignments_write_their_columns(row, front);
        assert forall|i: int| 0 <= i < list.len() implies value_of(
            assigned(row, list),
            (#[trigger] list[i]).0,
        ) == list[i].1 by {
            lemma_one_value(before, list[n].0, list[n].1, list[i].0);
            if i < n {
                assert(front[i] == list[i]);
            }
        }
        assert forall|c: Column| !assigned_columns(list).contains(c) implies #[trigger] value_of(
            assigned(row, list),
            c,
        ) == value_of(row, c) by {
            lemma_one_value(before, list[n].0, list[n].1, c);
            assert(assigned_columns(list)[n] == list[n].0);
            if assigned_columns(front).contains(c) {
                let i = choose|i: int|
                    0 <= i < assigned_columns(front).len() && assigned_columns(front)[i] == c;
                assert(assigned_columns(list)[i] == c);
            }
        }
    }
}

proof fn lemma_one_value(row: RowView, column: Column, value: BindView, c: Column)
    requires
        fits(column, value),
    ensures
        value_of(with_value(row, column, value), c) == if c == column {
            value
        } else {
            value_of(row, c)
        },
{
}

/// Rows with the same value in every column are the same.
pub proof fn lemma_rows_are_their_values(a: RowView, b: RowView)
    requires
        forall|c: Column| #[trigger] value_of(a, c) == value_of(b, c),
    ensures
        a == b,
{
    assert(value_of(a, Column::Id) == value_of(b, Column::Id));
    assert(value_of(a, Column::Kind) == value_of(b, Column::Kind));
    assert(value_of(a, Column::Title) == value_of(b, Column::Title));
    assert(value_of(a, Column::Body) == value_of(b, Column::Body));
    assert(value_of(a, Column::Status) == value_of(b, Column::Status));
    assert(value_of(a, Column::Priority) == value_of(b, Column::Priority));
    assert(value_of(a, Column::Assignee) == value_of(b, Column::Assignee));
    assert(value_of(a, Column::Labels) == value_of(b, Column::Labels));
    assert(value_of(a, Column::ParentId) == value_of(b, Column::ParentId));
    assert(value_of(a, Column::CustomFields) == value_of(b, Column::CustomFields));
    assert(value_of(a, Column::NativeStatus) == value_of(b, Column::NativeStatus));
    assert(value_of(a, Column::StatusMetadata) == value_of(b, Column::StatusMetadata));
    assert(value_of(a, Column::Attachments) == value_of(b, Column::Attachments));
    assert(value_of(a, Column::CreatedAt) == value_of(b, Column::CreatedAt));
    assert(value_of(a, Column::UpdatedAt) == value_of(b, Column::UpdatedAt));
}

/// Pieces of text with commas between them.
pub open spec fn with_commas(list: Seq<Seq<char>>) -> Seq<char>
    decreases list.len(),
{
    if list.len() == 0 {
        Seq::empty()
    } else if list.len() == 1 {
        list[0]
    } else {
        with_commas(list.drop_last()) + ", "@ + list.last()
    }
}

/// The names of columns, with commas between them.
pub open spec fn names_text(list: Seq<Column>) -> Seq<char> {
    with_commas(list.map_values(|c: Column| name_of(c)))
}

/// What sets columns, with commas between them.
pub open spec fn setters_text(list: Seq<Column>) -> Seq<char> {
    with_commas(list.map_values(|c: Column| name_of(c) + " = ?"@))
}

/// `n` question marks with commas between them.
pub open spec fn question_marks(n: nat) -> Seq<char> {
    with_commas(Seq::new(n, |i: int| "?"@))
}

/// Two lists joined are written as each of them, with a comma between them.
pub proof fn law_lists_are_joined_by_commas(a: Seq<Seq<char>>, b: Seq<Seq<char>>, piece: Seq<char>)
    ensures
        with_commas(Seq::<Seq<char>>::empty()).len() == 0,
        with_commas(seq![piece]) == piece,
        a.len() > 0 && b.len() > 0 ==> with_commas(a + b) == with_commas(a) + ", "@ + with_commas(
            b,
        ),
    decreases b.len(),
{
    assert(seq![piece][0] == piece);
    if a.len() > 0 && b.len() > 0 {
        let front = b.drop_last();
        assert((a + b).drop_last() == a + front);
        assert((a + b).last() == b.last());
        if b.len() == 1 {
            assert(a + front == a);
        } else {
            law_lists_are_joined_by_commas(a, front, piece);
            assert(with_commas(a + b) == with_commas(a) + ", "@ + with_commas(b));
        }
    }
}

/// Columns are listed by their names, and set by their names, one by one; there
/// are as many question marks as are asked for.
pub proof fn law_columns_are_listed_one_by_one(
    a: Seq<Column>,
    b: Seq<Column>,
    column: Column,
    m: nat,
    n: nat,
)
    ensures
        names_text(seq![column]) == name_of(column),
        setters_text(seq![column]) == name_of(column) + " = ?"@,
        question_marks(0).len() == 0,
        question_marks(1) == "?"@,
        a.len() > 0 && b.len() > 0 ==> names_text(a + b) == names_text(a) + ", "@ + names_text(b),
        a.len() > 0 && b.len() > 0 ==> setters_text(a + b) == setters_text(a) + ", "@
            + setters_text(b),
        m > 0 && n > 0 ==> question_marks(m + n) == question_marks(m) + ", "@ + question_marks(n),
{
    let name = |c: Column| name_of(c);
    let setter = |c: Column| name_of(c) + " = ?"@;
    let mark = |i: int| "?"@;
    law_lists_are_joined_by_commas(a.map_values(name), b.map_values(name), name_of(column));
    law_lists_are_joined_by_commas(
        a.map_values(setter),
        b.map_values(setter),
        name_of(column) + " = ?"@,
    );
    law_lists_are_joined_by_commas(Seq::new(m, mark), Seq::new(n, mark), "?"@);
    assert(seq![column].map_values(name) == seq![name_of(column)]);
    assert(seq![column].map_values(setter) == seq![name_of(column) + " = ?"@]);
    assert((a + b).map_values(name) == a.map_values(name) + b.map_values(name));
    assert((a + b).map_values(setter) == a.map_values(setter) + b.map_values(setter));
    assert(Seq::new(0, mark) == Seq::<Seq<char>>::empty());
    assert(Seq::new(1, mark) == seq!["?"@]);
    assert(Seq::new(m + n, mark) == Seq::new(m, mark) + Seq::new(n, mark));
}

/// Adds a piece of text, behind a comma unless it is the first.
fn add_piece(text: &mut String, piece: &str, done: Ghost<Seq<Seq<char>>>, first: bool)
    requires
        old(text)@ == with_commas(done@),
        first == (done@.len() == 0),
    ensures
        final(text)@ == with_commas(done@.push(piece@)),
{
    if !first {
        text.append(", ");
    }
    text.append(piece);
    let ghost list = done@;
    assert(list.push(piece@).drop_last() =~= list);
}

/// The names of columns, with commas between them.
pub fn names(list: &Vec<Column>) -> (r: String)
    ensures
        r@ == names_text(list@),
{
    let ghost pieces = list@.map_values(|c: Column| name_of(c));
    let mut r = String::new();
    for i in 0..list.len()
        invariant
            pieces == list@.map_values(|c: Column| name_of(c)),
            r@ == with_commas(pieces.take(i as int)),
    {
        add_piece(&mut r, column_name(list[i]), Ghost(pieces.take(i as int)), i == 0);
        assert(pieces.take(i as int).push(pieces[i as int]) == pieces.take(i + 1));
    }
    assert(pieces.take(list@.len() as int) == pieces);
    r
}

/// What sets columns, with commas between them.
pub fn setters(list: &Vec<Column>) -> (r: String)
    ensures
        r@ == setters_text(list@),
{
    let ghost pieces = list@.map_values(|c: Column| name_of(c) + " = ?"@);
    let mut r = String::new();
    for i in 0..list.len()
        invariant
            pieces == list@.map_values(|c: Column| name_of(c) + " = ?"@),
            r@ == with_commas(pieces.take(i as int)),
    {
        let piece = column_name(list[i]).to_owned().concat(" = ?");
        add_piece(&mut r, piece.as_str(), Ghost(pieces.take(i as int)), i == 0);
        assert(pieces.take(i as int).push(pieces[i as int]) == pieces.take(i + 1));
    }
    assert(pieces.take(list@.len() as int) == pieces);
    r
}

/// Question marks with commas between them.
pub fn marks(n: usize) -> (r: String)
    ensures
        r@ == question_marks(n as nat),
{
    let ghost pieces: Seq<Seq<char>> = Seq::new(n as nat, |i: int| "?"@);
    let mut r = String::new();
    for i in 0..n
        invariant
            pieces == Seq::new(n as nat, |i: int| "?"@),
            r@ == with_commas(pieces.take(i as int)),
    {
        add_piece(&mut r, "?", Ghost(pieces.take(i as int)), i == 0);
        assert(pieces.take(i as int).push(pieces[i as int]) == pieces.take(i + 1));
    }
    assert(pieces.take(n as int) == pieces);
    r
}

/// How a condition compares a column with its values.
#[derive(Clone, Copy, Debug, PartialEq, Eq, Structural)]
pub enum Relation {
    /// The column holds one of the values.
    OneOf,
    /// The column holds the value.
    Equal,
    /// The column holds the value or one that sorts behind it.
    AtLeast,
    /// The column holds a value that sorts behind the value.
    Behind,
}

/// A condition on a row. A column without a value meets none.
#[derive(Debug, PartialEq, Eq)]
pub struct Condition {
    pub column: Column,
    pub relation: Relation,
    /// The values; just one, unless the relation is [`Relation::OneOf`].
    pub values: Vec<String>,
}

/// What a [`Condition`] stands for.
#[verifier::ext_equal]
pub struct ConditionView {
    pub column: Column,
    pub relation: Relation,
    pub values: Seq<Seq<char>>,
}

impl View for Condition {
    type V = ConditionView;

    open spec fn view(&self) -> ConditionView {
        ConditionView { column: self.column, relation: self.relation, values: texts(self.values@) }
    }
}

/// What a list of conditions stands for.
pub open spec fn condition_views(list: Seq<Condition>) -> Seq<ConditionView> {
    list.map_values(|c: Condition| c@)
}

/// Whether a row meets a condition. Texts sort by their characters, as SQLite
/// sorts them by their bytes.
pub open spec fn holds(condition: ConditionView, row: RowView) -> bool {
    match value_of(row, condition.column) {
        BindView::Text(t) => match condition.relation {
            Relation::OneOf => condition.values.contains(t),
            Relation::Equal => t == condition.values[0],
            Relation::AtLeast => !text_less(t, condition.values[0]),
            Relation::Behind => text_less(condition.values[0], t),
        },
        _ => false,
    }
}

/// Whether a row meets every condition of a list.
pub open spec fn all_hold(list: Seq<ConditionView>, row: RowView) -> bool {
    forall|i: int| 0 <= i < list.len() ==> holds(#[trigger] list[i], row)
}

/// The SQL text of a condition, as it follows other conditions.
pub open spec fn condition_text(condition: ConditionView) -> Seq<char> {
    " AND "@ + name_of(condition.column) + match condition.relation {
        Relation::OneOf => " IN ("@ + question_marks(condition.values.len()) + ")"@,
        Relation::Equal => " = ?"@,
        Relation::AtLeast => " >= ?"@,
        Relation::Behind => " > ?"@,
    }
}

/// Texts as values.
pub open spec fn text_binds(list: Seq<Seq<char>>) -> Seq<BindView> {
    list.map_values(|t: Seq<char>| BindView::Text(t))
}

/// The SQL text of a list of conditions.
pub open spec fn conditions_text(list: Seq<ConditionView>) -> Seq<char>
    decreases list.len(),
{
    if list.len() == 0 {
        Seq::empty()
    } else {
        conditions_text(list.drop_last()) + condition_text(list.last())
    }
}

/// The values of the question marks in the SQL text of a list of conditions.
pub open spec fn conditions_binds(list: Seq<ConditionView>) -> Seq<BindView>
    decreases list.len(),
{
    if list.len() == 0 {
        Seq::empty()
    } else {
        conditions_binds(list.drop_last()) + text_binds(list.last().values)
    }
}

/// The condition that a column holds one of `values`; none if there are no
/// values.
pub open spec fn any_of(column: Column, values: Seq<Seq<char>>) -> Seq<ConditionView> {
    if values.len() == 0 {
        Seq::empty()
    } else {
        seq![ConditionView { column, relation: Relation::OneOf, values }]
    }
}

/// The condition that a column stands in a relation to `value`, if there is one.
pub open spec fn just(column: Column, relation: Relation, value: Option<Seq<char>>) -> Seq<
    ConditionView,
> {
    match value {
        Some(v) => seq![ConditionView { column, relation, values: seq![v] }],
        None => Seq::empty(),
    }
}

/// A row meets two lists of conditions together if and only if it meets each.
pub proof fn lemma_all_hold_joined(a: Seq<ConditionView>, b: Seq<ConditionView>, row: RowView)
    ensures
        all_hold(a + b, row) <==> all_hold(a, row) && all_hold(b, row),
{
    if all_hold(a + b, row) {
        assert forall|i: int| 0 <= i < a.len() implies holds(#[trigger] a[i], row) by {
            assert((a + b)[i] == a[i]);
        }
        assert forall|i: int| 0 <= i < b.len() implies holds(#[trigger] b[i], row) by {
            assert((a + b)[a.len() + i] == b[i]);
        }
    }
}

/// A row meets the conditions of [`any_of`] and [`just`] as their names say.
pub proof fn lemma_single_conditions(
    column: Column,
    relation: Relation,
    values: Seq<Seq<char>>,
    value: Option<Seq<char>>,
    row: RowView,
)
    ensures
        all_hold(any_of(column, values), row) <==> values.len() == 0 || holds(
            ConditionView { column, relation: Relation::OneOf, values },
            row,
        ),
        all_hold(just(column, relation, value), row) <==> (value matches Some(v) ==> holds(
            ConditionView { column, relation, values: seq![v] },
            row,
        )),
{
    if values.len() > 0 {
        let c = ConditionView { column, relation: Relation::OneOf, values };
        assert(any_of(column, values)[0] == c);
    }
    if let Some(v) = value {
        let c = ConditionView { column, relation, values: seq![v] };
        assert(just(column, relation, value)[0] == c);
    }
}

/// Adds the condition that a column holds one of `values`, unless there are
/// none.
pub fn add_any_of(list: &mut Vec<Condition>, column: Column, values: &Vec<String>)
    ensures
        condition_views(final(list)@) == condition_views(old(list)@) + any_of(
            column,
            texts(values@),
        ),
{
    if values.len() > 0 {
        let copies = values.clone();
        assert(texts(copies@) == texts(values@));
        list.push(Condition { column, relation: Relation::OneOf, values: copies });
        assert(condition_views(list@) == condition_views(old(list)@) + any_of(
            column,
            texts(values@),
        ));
    } else {
        assert(condition_views(list@) == condition_views(old(list)@) + any_of(
            column,
            texts(values@),
        ));
    }
}

/// Adds the condition that a column stands in a relation to `value`, if there is
/// one.
pub fn add_just(list: &mut Vec<Condition>, column: Column, relation: Relation, value: &Option<String>)
    ensures
        condition_views(final(list)@) == condition_views(old(list)@) + just(
            column,
            relation,
            opt_text(*value),
        ),
{
    match value {
        Some(text) => {
            let values: Vec<String> = vec![text.clone()];
            assert(texts(values@) == seq![text@]);
            list.push(Condition { column, relation, values });
            assert(condition_views(list@) == condition_views(old(list)@) + just(
                column,
                relation,
                Some(text@),
            ));
        },
        None => {
            assert(condition_views(list@) == condition_views(old(list)@) + just(
                column,
                relation,
                None,
            ));
        },
    }
}

/// Adds the SQL text of a condition.
fn add_text(sql: &mut String, condition: &Condition)
    ensures
        final(sql)@ == old(sql)@ + condition_text(condition@),
{
    let mut text = " AND ".to_owned().concat(column_name(condition.column));
    match condition.relation {
        Relation::OneOf => {
            text = text.concat(
                " IN (".to_owned().concat(marks(condition.values.len()).as_str()).concat(")").as_str(),
            );
        },
        Relation::Equal => {
            text = text.concat(" = ?");
        },
        Relation::AtLeast => {
            text = text.concat(" >= ?");
        },
        Relation::Behind => {
            text = text.concat(" > ?");
        },
    }
    sql.append(text.as_str());
}

/// Adds the SQL text of a list of conditions, and the values of its question
/// marks.
pub fn add_conditions(sql: &mut String, binds: &mut Vec<BindValue>, list: &Vec<Condition>)
    ensures
        final(sql)@ == old(sql)@ + conditions_text(condition_views(list@)),
        bind_views(final(binds)@) == bind_views(old(binds)@)
            + conditions_binds(condition_views(list@)),
{
    let ghost views = condition_views(list@);
    let ghost given = bind_views(binds@);
    let mut i: usize = 0;
    assert(sql@ == old(sql)@ + conditions_text(views.take(0)));
    assert(bind_views(binds@) == given + conditions_binds(views.take(0)));
    while i < list.len()
        invariant
            i <= list@.len(),
            views == condition_views(list@),
            given == bind_views(old(binds)@),
            sql@ == old(sql)@ + conditions_text(views.take(i as int)),
            bind_views(binds@) == given + conditions_binds(views.take(i as int)),
        decreases list@.len() - i,
    {
        assert(views.take(i + 1).drop_last() == views.take(i as int));
        assert(views.take(i + 1).last() == list@[i as int]@);
        add_text(sql, &list[i]);
        add_values(binds, &list[i].values);
        i = i + 1;
        assert(sql@ == old(sql)@ + conditions_text(views.take(i as int)));
        assert(bind_views(binds@) == given + conditions_binds(views.take(i as int)));
    }
    assert(views.take(i as int) == views);
}

/// Adds texts as values.
fn add_values(binds: &mut Vec<BindValue>, values: &Vec<String>)
    ensures
        bind_views(final(binds)@) == bind_views(old(binds)@)
            + text_binds(texts(values@)),
{
    let ghost given = bind_views(binds@);
    let ghost all = texts(values@);
    let mut i: usize = 0;
    assert(bind_views(binds@) == given + text_binds(all.take(0)));
    while i < values.len()
        invariant
            i <= values@.len(),
            all == texts(values@),
            given == bind_views(old(binds)@),
            bind_views(binds@) == given + text_binds(all.take(i as int)),
        decreases values@.len() - i,
    {
        let ghost before = binds@;
        binds.push(BindValue::Text(values[i].clone()));
        assert(bind_views(binds@) == bind_views(before).push(
            BindView::Text(all[i as int]),
        ));
        assert(text_binds(all.take(i + 1)) == text_binds(all.take(i as int)).push(
            BindView::Text(all[i as int]),
        ));
        i = i + 1;
    }
    assert(all.take(i as int) == all);
}

} // verus!
