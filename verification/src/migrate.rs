//! Versioned migrations: what a migration is, how its file is named, and
//! which of them a database still needs.

pub mod checksum;
pub mod error;
pub mod filename;
pub mod laws;
pub mod order;
pub mod record;
pub mod runner;
pub mod statements;

pub use error::MigrationError;
pub use record::{AppliedMigration, Migration};
pub use runner::{Action, Command, MigrationState, Migrator, Plan};
