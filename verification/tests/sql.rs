use animus_subject_sqlite::sql::{
    add_any_of, add_conditions, add_just, all_columns, column_name, marks, names, setters, Column,
    Condition, Relation,
};
use animus_subject_sqlite::store::BindValue;

#[test]
fn columns_have_their_names() {
    let list: Vec<&str> = all_columns().into_iter().map(column_name).collect();
    assert_eq!(
        list,
        [
            "id",
            "kind",
            "title",
            "body",
            "status",
            "priority",
            "assignee",
            "labels",
            "parent_id",
            "custom_fields",
            "native_status",
            "status_metadata",
            "attachments",
            "created_at",
            "updated_at",
        ]
    );
    assert_eq!(names(&vec![]), "");
    assert_eq!(names(&vec![Column::Id, Column::Body]), "id, body");
    assert_eq!(setters(&vec![Column::Kind, Column::Labels]), "kind = ?, labels = ?");
}

#[test]
fn question_marks_are_counted() {
    assert_eq!(marks(0), "");
    assert_eq!(marks(1), "?");
    assert_eq!(marks(3), "?, ?, ?");
}

#[test]
fn conditions_are_written_in_order() {
    let mut list: Vec<Condition> = vec![];
    add_any_of(&mut list, Column::Kind, &vec!["a".to_string(), "b".to_string()]);
    add_any_of(&mut list, Column::Status, &vec![]);
    add_just(&mut list, Column::UpdatedAt, Relation::AtLeast, &Some("t".to_string()));
    add_just(&mut list, Column::NativeStatus, Relation::Equal, &None);
    add_just(&mut list, Column::Id, Relation::Behind, &Some("i".to_string()));
    add_just(&mut list, Column::Title, Relation::Equal, &Some("x".to_string()));
    assert_eq!(list.len(), 4);
    let mut sql = "1 = 1".to_string();
    let mut binds = vec![BindValue::Int(1)];
    add_conditions(&mut sql, &mut binds, &list);
    assert_eq!(
        sql,
        "1 = 1 AND kind IN (?, ?) AND updated_at >= ? AND id > ? AND title = ?"
    );
    let text = |t: &str| BindValue::Text(t.to_string());
    assert_eq!(
        binds,
        vec![BindValue::Int(1), text("a"), text("b"), text("t"), text("i"), text("x")]
    );
}
