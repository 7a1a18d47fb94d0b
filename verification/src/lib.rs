//! Building parameterised SQL statements out of reusable fragments, and
//! deciding which versioned migrations a database still needs.

pub mod database;
pub mod migrate;
pub mod query;
pub mod text;

pub use database::DatabaseError;
