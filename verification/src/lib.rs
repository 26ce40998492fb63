//! Verified core of a TaskChampion storage backend kept in a libsql (Turso) database.
//!
//! The database itself is reached by the application around this library; the library
//! decides which statements are issued, what their parameters are, and how the rows that
//! come back are turned into the values that the storage interface returns.

pub mod config;
pub mod ids;
pub mod operation;
pub mod statement;
pub mod tables;
pub mod json;
pub mod txn;
pub mod open;
pub mod laws;

pub use config::TursoConfig;
