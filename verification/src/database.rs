//! What the library decides about the answers of a database: how many
//! rows a query for one row may give, and how failures are passed on.

use vstd::prelude::*;
use vstd::std_specs::convert::FromSpecImpl;

verus! {

/// The error of the database driver. The library carries it through
/// unchanged and never looks inside.
#[verifier::external_type_specification]
#[verifier::external_body]
pub struct ExPostgresError(tokio_postgres::Error);

/// Why a query failed.
#[derive(Debug)]
pub enum DatabaseError {
    /// A query for exactly one row gave none, or more than one.
    EmptyResult,
    /// The database failed.
    PostgresError(tokio_postgres::Error),
}

impl From<tokio_postgres::Error> for DatabaseError {
    fn from(error: tokio_postgres::Error) -> (wrapped: DatabaseError) {
        DatabaseError::PostgresError(error)
    }
}

impl FromSpecImpl<tokio_postgres::Error> for DatabaseError {
    open spec fn obeys_from_spec() -> bool {
        true
    }

    open spec fn from_spec(error: tokio_postgres::Error) -> DatabaseError {
        DatabaseError::PostgresError(error)
    }
}

/// The first row of an answer that has to hold exactly one: an answer
/// without rows is an error.
pub fn first_row<R>(first: Option<R>) -> (row: Result<R, DatabaseError>)
    ensures
        match first {
            Some(found) => row == Ok::<R, DatabaseError>(found),
            None => row is Err && row->Err_0 is EmptyResult,
        },
{
    match first {
        Some(found) => Ok(found),
        None => Err(DatabaseError::EmptyResult),
    }
}

/// The only row of an answer that has to hold exactly one: `row` is the
/// first row, `next` what the answer gave after it. A second row is an
/// error.
pub fn only_row<R>(row: R, next: Option<R>) -> (only: Result<R, DatabaseError>)
    ensures
        match next {
            None => only == Ok::<R, DatabaseError>(row),
            Some(_) => only is Err && only->Err_0 is EmptyResult,
        },
{
    match next {
        None => Ok(row),
        Some(_) => Err(DatabaseError::EmptyResult),
    }
}

} // verus!
