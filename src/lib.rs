//! Assembles a single `SELECT` statement from a column list, a table name,
//! filter conditions, ordering keys and an optional row limit.
pub mod text;
pub mod query;
pub mod laws;

pub use query::SqlQuery;
