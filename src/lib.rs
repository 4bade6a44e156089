//! Statement builders for a Postgres store: a compiler from match trees to
//! parameterized `WHERE` predicates, and builders for batch `DELETE` and
//! `UPDATE` statements. Executing the statements is left to the caller.
pub mod compile;
pub mod descriptor;
pub mod laws;
pub mod matching;
pub mod query;
pub mod schema;
pub mod text;
pub mod value;
