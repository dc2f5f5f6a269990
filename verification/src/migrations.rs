//! Migrations of the database.
//!
//! A table of versions records how far a database has come. On startup every
//! migration that is newer is applied, each in a transaction of its own together
//! with the record of its version, so that a failure leaves the database at the
//! version before.

use crate::store::{bind_views, BindValue, BindView, Statement, StatementView};
use vstd::prelude::*;

verus! {

/// Creates the table of versions, which is not itself part of a migration.
pub const VERSION_TABLE_SQL: &'static str =
    "CREATE TABLE IF NOT EXISTS schema_version (version INTEGER NOT NULL PRIMARY KEY, applied_at TEXT NOT NULL DEFAULT CURRENT_TIMESTAMP);";

/// Reads the version that is recorded, if any is.
pub const CURRENT_VERSION_SQL: &'static str = "SELECT MAX(version) FROM schema_version";

/// Records a version.
pub const RECORD_VERSION_SQL: &'static str = "INSERT INTO schema_version (version) VALUES (?)";

/// The table of subjects and its indexes.
pub const INITIAL_SCHEMA: &'static str =
    "CREATE TABLE subjects (
    id TEXT PRIMARY KEY,
    kind TEXT NOT NULL,
    title TEXT NOT NULL,
    body TEXT,
    status TEXT NOT NULL,
    priority INTEGER,
    assignee TEXT,
    labels TEXT NOT NULL DEFAULT '[]',
    parent_id TEXT,
    custom_fields TEXT NOT NULL DEFAULT '{}',
    native_status TEXT,
    status_metadata TEXT,
    attachments TEXT,
    created_at TEXT NOT NULL,
    updated_at TEXT NOT NULL
);
CREATE INDEX idx_subjects_kind ON subjects (kind);
CREATE INDEX idx_subjects_status ON subjects (status);
CREATE INDEX idx_subjects_assignee ON subjects (assignee);
CREATE INDEX idx_subjects_parent_id ON subjects (parent_id);
";

/// The bodies of the migrations: the first is that of version 1. New ones go to
/// the end, and none that has been shipped is ever changed.
pub const MIGRATIONS: [&'static str; 1] = [INITIAL_SCHEMA];

/// A migration that is to be applied.
#[derive(Clone, Copy, Debug, PartialEq, Eq)]
pub struct Migration {
    pub version: i64,
    /// SQL, possibly several statements.
    pub body: &'static str,
}

/// What a [`Migration`] stands for.
pub struct MigrationView {
    pub version: int,
    pub body: Seq<char>,
}

impl View for Migration {
    type V = MigrationView;

    open spec fn view(&self) -> MigrationView {
        MigrationView { version: self.version as int, body: self.body@ }
    }
}

/// What a list of migrations stands for.
pub open spec fn migration_views(list: Seq<Migration>) -> Seq<MigrationView> {
    list.map_values(|m: Migration| m@)
}

/// The newest version.
pub open spec fn latest_version() -> int {
    MIGRATIONS@.len() as int
}

/// How many migrations a database has behind it in which the given version is
/// recorded.
pub open spec fn versions_done(recorded: Option<i64>) -> int {
    match recorded {
        Some(version) => if version < 0 {
            0
        } else if version > latest_version() {
            latest_version()
        } else {
            version as int
        },
        None => 0,
    }
}

/// The migrations that are newer than the recorded version, in order.
pub open spec fn pending(recorded: Option<i64>) -> Seq<MigrationView> {
    Seq::new(
        (latest_version() - versions_done(recorded)) as nat,
        |i: int|
            MigrationView {
                version: versions_done(recorded) + i + 1,
                body: MIGRATIONS@[versions_done(recorded) + i]@,
            },
    )
}

/// The version that is recorded once the first `applied` pending migrations have
/// been applied.
pub open spec fn recorded_after(recorded: Option<i64>, applied: int) -> Option<i64> {
    if applied == 0 {
        recorded
    } else {
        Some(pending(recorded)[applied - 1].version as i64)
    }
}

/// The migrations that are newer than the recorded version, in order.
pub fn apply(recorded: Option<i64>) -> (r: Vec<Migration>)
    ensures
        migration_views(r@) == pending(recorded),
{
    let done: i64 = match recorded {
        Some(version) => version,
        None => 0,
    };
    let mut r: Vec<Migration> = Vec::new();
    let mut i: usize = 0;
    while i < MIGRATIONS.len()
        invariant
            i <= MIGRATIONS@.len(),
            done == match recorded {
                Some(version) => version,
                None => 0,
            },
            r@.len() == if i > versions_done(recorded) {
                i - versions_done(recorded)
            } else {
                0
            },
            forall|j: int| 0 <= j < r@.len() ==> (#[trigger] r@[j])@ == pending(recorded)[j],
        decreases MIGRATIONS@.len() - i,
    {
        let version: i64 = (i + 1) as i64;
        if version > done {
            r.push(Migration { version, body: MIGRATIONS[i] });
        }
        i = i + 1;
    }
    assert(migration_views(r@) == pending(recorded));
    r
}

/// The statement that records a version.
pub fn record(version: i64) -> (r: Statement)
    ensures
        r@ == (StatementView { sql: RECORD_VERSION_SQL@, binds: seq![BindView::Int(version)] }),
{
    let binds: Vec<BindValue> = vec![BindValue::Int(version)];
    assert(bind_views(binds@) == seq![BindView::Int(version)]);
    Statement { sql: RECORD_VERSION_SQL.to_owned(), binds }
}

/// Pending are the migrations whose version is newer than the recorded one, each
/// once, from the oldest to the newest, with their own bodies.
pub proof fn law_pending_are_the_newer_ones(recorded: Option<i64>, version: int)
    ensures
        ({
            let newer = recorded matches Some(done) ==> version > done;
            let list = pending(recorded);
            &&& (exists|i: int| 0 <= i < list.len() && (#[trigger] list[i]).version == version)
                <==> 1 <= version <= MIGRATIONS@.len() && newer
            &&& forall|i: int, j: int|
                0 <= i < j < list.len() ==> (#[trigger] list[i]).version < (
                #[trigger] list[j]).version
            &&& forall|i: int|
                0 <= i < list.len() ==> (#[trigger] list[i]).body == MIGRATIONS@[list[i].version
                    - 1]@
        }),
{
    let list = pending(recorded);
    let i = version - versions_done(recorded) - 1;
    if 0 <= i < list.len() {
        assert(list[i].version == version);
    }
}

/// A run that is cut short is taken up where it ended: what was applied is not
/// applied again, and the rest is.
pub proof fn law_migrating_resumes(recorded: Option<i64>, applied: int)
    requires
        0 <= applied <= pending(recorded).len(),
    ensures
        pending(recorded_after(recorded, applied)) == pending(recorded).skip(applied),
{
    assert(pending(recorded_after(recorded, applied)) =~= pending(recorded).skip(applied));
}

/// Migrating twice is the same as migrating once: the second time there is
/// nothing to apply.
pub proof fn law_migrating_twice_is_migrating_once(recorded: Option<i64>)
    ensures
        pending(recorded_after(recorded, pending(recorded).len() as int)).len() == 0,
        pending(Some(latest_version() as i64)).len() == 0,
{
    law_migrating_resumes(recorded, pending(recorded).len() as int);
}

/// A fresh database gets every migration, from version 1 to the newest.
pub proof fn law_fresh_database_gets_every_migration()
    ensures
        pending(None).len() == MIGRATIONS@.len(),
        forall|i: int|
            0 <= i < MIGRATIONS@.len() ==> (#[trigger] pending(None)[i]).version == i + 1
                && pending(None)[i].body == MIGRATIONS@[i]@,
{
}

} // verus!
