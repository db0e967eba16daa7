//! DB Studio: a service that holds SQLite databases open and runs queries, changes,
//! migrations and introspection on them.
//!
//! The library decides; it opens nothing and reads nothing by itself. An operation is a
//! chain of steps (`step`): each says what to ask of a database, and the reply leads to
//! the next. `dispatch` begins an operation by its name and goes on from each step;
//! `session`, `query`, `catalog` and `migration` hold the operations, `service` the state
//! that they share. `run` says what a run of an operation is, and `laws`, `query_laws`,
//! `catalog_laws` and `migration_laws` say what holds of every run.
//!
//! What each request asks of a database and what it is told, from the entries of the request
//! and the replies alone, stands in `session_laws`, `request_laws`, `result_laws`,
//! `shape_laws`, `ledger_laws` and `service_laws`. `sql_laws` and `guard_laws` say how
//! statements are read, `clock_laws` and `calendar_laws` how time is told, and `text_laws`,
//! `json_laws` and `value_laws` what the values are that all of these speak of.
//!
//! `sql` guards statements, `mask` hides sensitive columns, `value` and `rows` turn what
//! a database holds into answers, `audit` keeps the record of what was run, `clock` stamps
//! it, and `gate` decides by a table of rules what a command may do.

pub mod audit;
pub mod calendar_laws;
pub mod catalog;
pub mod catalog_laws;
pub mod clock;
pub mod clock_laws;
pub mod dispatch;
pub mod gate;
pub mod guard_laws;
pub mod json;
pub mod json_laws;
pub mod laws;
pub mod ledger_laws;
pub mod mask;
pub mod migration;
pub mod migration_laws;
pub mod order;
pub mod outcome;
pub mod query;
pub mod query_laws;
pub mod request_laws;
pub mod result_laws;
pub mod rows;
pub mod run;
pub mod service;
pub mod service_laws;
pub mod session;
pub mod session_laws;
pub mod shape_laws;
pub mod sql;
pub mod sql_laws;
pub mod step;
pub mod text;
pub mod text_laws;
pub mod value;
pub mod value_laws;
