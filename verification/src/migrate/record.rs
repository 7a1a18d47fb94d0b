//! Migration records: the migrations that the program knows, and those
//! that a database says it has applied.

use vstd::prelude::*;
use super::checksum::{checksum_of, sha256_hex};
use super::error::MigrationError;
use super::filename::{decimal_value, names, parse_file_name};

verus! {

/// A migration: a versioned SQL script and the checksum of its text.
#[derive(Debug, Clone, PartialEq, Eq)]
pub struct Migration {
    /// The SHA-256 of `sql`, in lower-case hexadecimal.
    pub checksum: String,
    /// The name that the migration's file carries after its version.
    pub name: String,
    /// The SQL text of the migration.
    pub sql: String,
    /// The version: migrations are applied in the order of their versions.
    pub version: i64,
}

/// A migration that a database has applied: one row of its bookkeeping
/// table.
#[derive(Debug, Clone, PartialEq, Eq)]
pub struct AppliedMigration {
    /// The checksum that the migration had when it was applied.
    pub checksum: String,
    /// The version of the migration.
    pub version: i64,
}

impl Migration {
    /// The migration with the given version, name and SQL text, and the
    /// checksum of that text.
    pub fn new(version: i64, name: String, sql: String) -> (migration: Migration)
        ensures
            migration.version == version,
            migration.name == name,
            migration.sql == sql,
            migration.checksum@ == sha256_hex(sql@),
    {
        let checksum = checksum_of(sql.as_str());
        Migration { checksum, name, sql, version }
    }

    /// The migration that a file holds, from the file's name and its text.
    ///
    /// Fails with `FilenameError` exactly if the file name is not of the
    /// form `<digits>_<lower-case letters and underscores>.sql`, and with
    /// `ParseIntError` exactly if it is and the version does not fit an
    /// `i64`.
    pub fn try_from(file_name: &str, sql: String) -> (loaded: Result<Migration, MigrationError>)
        ensures
            match loaded {
                Ok(migration) => {
                    &&& exists|digits: Seq<char>|
                        names(file_name@, digits, migration.name@) && migration.version
                            == decimal_value(digits)
                    &&& migration.sql == sql
                    &&& migration.checksum@ == sha256_hex(sql@)
                },
                Err(MigrationError::FilenameError) => forall|digits: Seq<char>, name: Seq<char>|
                    !names(file_name@, digits, name),
                Err(MigrationError::ParseIntError(_)) => exists|
                    digits: Seq<char>,
                    name: Seq<char>,
                |
                    names(file_name@, digits, name) && decimal_value(digits) > i64::MAX,
                Err(_) => false,
            },
    {
        match parse_file_name(file_name) {
            Ok((version, name)) => Ok(Migration::new(version, name, sql)),
            Err(error) => Err(error),
        }
    }
}

} // verus!
