//! The ways in which loading or running migrations fails.

use vstd::prelude::*;
use vstd::std_specs::convert::FromSpecImpl;

verus! {

/// The standard library's error for a number that could not be parsed.
#[verifier::external_type_specification]
#[verifier::external_body]
pub struct ExParseIntError(std::num::ParseIntError);

/// The standard library's input/output error.
#[verifier::external_type_specification]
#[verifier::external_body]
pub struct ExIoError(std::io::Error);

/// Why migrations could not be loaded or run.
#[derive(Debug)]
pub enum MigrationError {
    /// A file name does not have the form of a migration's name.
    FilenameError,
    /// A migration that was applied before has changed since: its checksum
    /// is not the one that was recorded.
    ChecksumError,
    /// The database failed.
    PostgresError(tokio_postgres::Error),
    /// A version does not fit the integer type.
    ParseIntError(std::num::ParseIntError),
    /// Reading a migration failed.
    IOError(std::io::Error),
}

impl From<tokio_postgres::Error> for MigrationError {
    fn from(error: tokio_postgres::Error) -> (wrapped: MigrationError) {
        MigrationError::PostgresError(error)
    }
}

impl FromSpecImpl<tokio_postgres::Error> for MigrationError {
    open spec fn obeys_from_spec() -> bool {
        true
    }

    open spec fn from_spec(error: tokio_postgres::Error) -> MigrationError {
        MigrationError::PostgresError(error)
    }
}

impl From<std::num::ParseIntError> for MigrationError {
    fn from(error: std::num::ParseIntError) -> (wrapped: MigrationError) {
        MigrationError::ParseIntError(error)
    }
}

impl FromSpecImpl<std::num::ParseIntError> for MigrationError {
    open spec fn obeys_from_spec() -> bool {
        true
    }

    open spec fn from_spec(error: std::num::ParseIntError) -> MigrationError {
        MigrationError::ParseIntError(error)
    }
}

impl From<std::io::Error> for MigrationError {
    fn from(error: std::io::Error) -> (wrapped: MigrationError) {
        MigrationError::IOError(error)
    }
}

impl FromSpecImpl<std::io::Error> for MigrationError {
    open spec fn obeys_from_spec() -> bool {
        true
    }

    open spec fn from_spec(error: std::io::Error) -> MigrationError {
        MigrationError::IOError(error)
    }
}

} // verus!
