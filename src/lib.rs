//! Session layer over named SQLite databases: typed parameter and column
//! marshalling, nested transactions emulated with savepoints, and a registry
//! of open sessions keyed by name.
//!
//! - `codec`: tagged parameters to engine values, result columns to cells.
//! - `sql`: the forbidden-namespace check and the row-returning test.
//! - `transaction`: the nested-transaction state machine and its laws.
//! - `session`: one database's transaction bookkeeping.
//! - `connection`: a session driving its engine connection.
//! - `registry`: open sessions keyed by name.
//! - `results`, `extension`, `powersync`, `error`: what operations return,
//!   where the storage extension is found, and how they fail.

pub mod codec;
pub mod connection;
pub mod error;
pub mod extension;
pub mod powersync;
pub mod registry;
pub mod results;
pub mod session;
pub mod sql;
pub mod transaction;
