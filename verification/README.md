# animus-subject-sqlite

A local SQLite subject backend for Animus, written and verified in
[Verus](https://github.com/verus-lang/verus).

Most subject backends front an external tracker. This one owns the data: tasks,
issues and any other configured kinds live in a local SQLite database. There is
no upstream API, no token and no rate limit.

## Layout

- `src/` is the library. It holds the rules of the backend and no connection: a
  request is a chain of steps, each of which hands out an SQL statement and takes
  the database's answer back. Everything in it is verified, up to the calls into
  `chrono`, `serde_json`, `ulid` and the standard library that are declared with
  the facts that are relied on.
- `app/` is the plugin: it reads the environment, opens the database, runs the
  statements, and speaks the plugin protocol.
- `tests/` runs the library, most of it against an in-memory SQLite database.

## What is proved

- A subject that was created or changed reads back as it was stored, and no other
  subject is touched (`src/database.rs`).
- Following the cursors of a listing shows every row that the filter asks for,
  and none twice (`src/paging.rs`).
- Ids sort by the time that their ULIDs hold (`src/id_gen.rs`). That a fresh ULID
  holds the current time is left to the `ulid` crate and the machine's clock.
- A listing by date goes by time, in the years 0 to 9999 (`src/database.rs`).
- The conditions of a listing and the columns that are written are said once, as
  data, from which both the SQL text and its meaning are read off (`src/sql.rs`).
- Migrating twice is the same as migrating once (`src/migrations.rs`).

## Configuration

| Variable | Default | Meaning |
|----------|---------|---------|
| `ANIMUS_SQLITE_DB_PATH` | `.animus/subjects/sqlite.db` | path of the database; parent directories are created |
| `ANIMUS_SQLITE_KINDS` | `task` | comma-separated kinds that are served; an empty list is an error |
| `ANIMUS_SQLITE_AUTO_MIGRATE` | `true` | whether to migrate the database on startup |

## Ids

Ids have the form `sqlite:<ULID>`. A caller may choose an id that starts with
`sqlite:`; any other id is replaced by a fresh one.

## Soft deletes

Subjects are not deleted. A cancelled subject is still listed, unless the filter
asks for other statuses.
