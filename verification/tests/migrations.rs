use animus_subject_sqlite::migrations::{apply, record, INITIAL_SCHEMA, MIGRATIONS};
use animus_subject_sqlite::store::BindValue;

#[test]
fn a_fresh_database_gets_every_migration() {
    let pending = apply(None);
    assert_eq!(pending.len(), MIGRATIONS.len());
    for (i, migration) in pending.iter().enumerate() {
        assert_eq!(migration.version, i as i64 + 1);
        assert_eq!(migration.body, MIGRATIONS[i]);
    }
    assert_eq!(pending[0].body, INITIAL_SCHEMA);
    assert_eq!(apply(Some(0)), pending);
}

#[test]
fn a_current_or_newer_database_gets_none() {
    assert_eq!(apply(Some(MIGRATIONS.len() as i64)), vec![]);
    assert_eq!(apply(Some(i64::MAX)), vec![]);
}

#[test]
fn a_negative_version_is_older_than_every_migration() {
    assert_eq!(apply(Some(-1)), apply(None));
    assert_eq!(apply(Some(i64::MIN)), apply(None));
}

#[test]
fn migrating_twice_applies_nothing_the_second_time() {
    let last = apply(None).last().map(|m| m.version);
    assert_eq!(apply(last), vec![]);
}

#[test]
fn a_version_is_recorded_by_its_number() {
    let statement = record(3);
    assert_eq!(statement.sql, "INSERT INTO schema_version (version) VALUES (?)");
    assert_eq!(statement.binds, vec![BindValue::Int(3)]);
}
