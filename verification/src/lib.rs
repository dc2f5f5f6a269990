//! Local SQLite subject backend.
//!
//! Subjects (tasks, issues, whatever kinds are configured) live in a local
//! SQLite database that this backend owns: there is no service behind it. The
//! library holds every rule of the backend and no connection. A request is a
//! chain of steps: a step hands out the SQL statement to run, takes the
//! database's answer back, and decides what comes next.
//!
//! - [`config`]: the configuration, from environment variables
//! - [`id_gen`]: subject ids, `sqlite:` and a ULID
//! - [`subject`]: subjects, patches, filters, events and errors
//! - [`time`], [`json`], [`text`]: instants, JSON values and text
//! - [`row`]: subjects as rows of the table
//! - [`sql`]: columns, conditions and assignments, and their SQL text
//! - [`store`]: the statements, and what their answers mean
//! - [`backend`]: requests from start to end
//! - [`migrations`]: the versions of the database
//! - [`manifest`]: what the plugin says of itself
//! - [`laws`]: what single requests do, part by part
//! - [`queries`]: what statements and pages say
//! - [`database`], [`paging`]: what the statements do to the table, and the laws
//!   that hold of whole requests

pub mod backend;
pub mod config;
pub mod database;
pub mod id_gen;
pub mod json;
pub mod laws;
pub mod manifest;
pub mod migrations;
pub mod paging;
pub mod queries;
pub mod row;
pub mod sql;
pub mod store;
pub mod subject;
pub mod text;
pub mod time;
