//! The migration runner's decisions: what is done with each migration,
//! given the migrations that the database has applied, and by which
//! commands a migration is applied.

use vstd::prelude::*;
use super::error::MigrationError;
use super::record::{AppliedMigration, Migration};
use super::statements::{split_statements, statements, texts};

verus! {

/// Where a migration stands with a database.
#[derive(Debug, Clone, Copy, PartialEq, Eq, Structural)]
pub enum MigrationState {
    /// The database has no record of the version.
    Unseen,
    /// The database has applied the version, with this checksum.
    SeenMatching,
    /// The database has applied the version, with another checksum: the
    /// migration has changed since.
    SeenMismatched,
}

/// What the runner does with a migration.
#[derive(Debug, Clone, Copy, PartialEq, Eq, Structural)]
pub enum Action {
    /// Apply the migration and record it.
    Apply,
    /// Pass over the migration.
    Skip,
    /// Give up: no further migration is looked at.
    Fail,
}

/// Whether no applied migration has the version.
pub open spec fn unseen(applied: Seq<AppliedMigration>, version: i64) -> bool {
    forall|i: int| 0 <= i < applied.len() ==> (#[trigger] applied[i]).version != version
}

/// Whether `i` is the first applied migration with the version.
pub open spec fn seen_at(applied: Seq<AppliedMigration>, version: i64, i: int) -> bool {
    &&& 0 <= i < applied.len()
    &&& applied[i].version == version
    &&& unseen(applied.take(i), version)
}

/// Where a migration stands, given the applied migrations. Where several
/// of them have the migration's version, the first one counts.
pub open spec fn state_of(migration: Migration, applied: Seq<AppliedMigration>) -> MigrationState {
    if unseen(applied, migration.version) {
        MigrationState::Unseen
    } else if exists|i: int|
        seen_at(applied, migration.version, i) && applied[i].checksum@ == migration.checksum@ {
        MigrationState::SeenMatching
    } else {
        MigrationState::SeenMismatched
    }
}

/// The action that a state calls for.
pub open spec fn action_of(state: MigrationState) -> Action {
    match state {
        MigrationState::Unseen => Action::Apply,
        MigrationState::SeenMatching => Action::Skip,
        MigrationState::SeenMismatched => Action::Fail,
    }
}

/// Whether none of the first `n` migrations has changed since it was applied.
pub open spec fn mismatch_free(
    migrations: Seq<Migration>,
    applied: Seq<AppliedMigration>,
    n: int,
) -> bool {
    forall|i: int|
        0 <= i < n && i < migrations.len() ==> state_of(#[trigger] migrations[i], applied)
            != MigrationState::SeenMismatched
}

/// Whether the migration at `i` is the first that has changed since it was
/// applied.
pub open spec fn fails_at(
    migrations: Seq<Migration>,
    applied: Seq<AppliedMigration>,
    i: int,
) -> bool {
    &&& 0 <= i < migrations.len()
    &&& state_of(migrations[i], applied) == MigrationState::SeenMismatched
    &&& mismatch_free(migrations, applied, i)
}

/// How many migrations a run gets through: all of them, or those before
/// the first that has changed since it was applied.
pub open spec fn reach(migrations: Seq<Migration>, applied: Seq<AppliedMigration>) -> int {
    if mismatch_free(migrations, applied, migrations.len() as int) {
        migrations.len() as int
    } else {
        choose|i: int| fails_at(migrations, applied, i)
    }
}

/// The positions, in ascending order, of the unseen migrations among the
/// first `n`.
pub open spec fn unseen_before(
    migrations: Seq<Migration>,
    applied: Seq<AppliedMigration>,
    n: int,
) -> Seq<usize>
    decreases n,
{
    if n <= 0 || n > migrations.len() {
        Seq::empty()
    } else if state_of(migrations[n - 1], applied) == MigrationState::Unseen {
        unseen_before(migrations, applied, n - 1).push((n - 1) as usize)
    } else {
        unseen_before(migrations, applied, n - 1)
    }
}

/// The first changed migration is where a run stops.
pub proof fn lemma_reach(migrations: Seq<Migration>, applied: Seq<AppliedMigration>, i: int)
    requires
        fails_at(migrations, applied, i),
    ensures
        reach(migrations, applied) == i,
{
    let j = reach(migrations, applied);
    assert(!mismatch_free(migrations, applied, migrations.len() as int)) by {
        assert(state_of(migrations[i], applied) == MigrationState::SeenMismatched);
    }
    assert(fails_at(migrations, applied, j));
    if j < i {
        assert(state_of(migrations[j], applied) != MigrationState::SeenMismatched);
    }
    if i < j {
        assert(state_of(migrations[i], applied) != MigrationState::SeenMismatched);
    }
}

impl MigrationState {
    /// The action that the state calls for: apply what is unseen, skip
    /// what is seen and unchanged, fail on what has changed.
    pub fn action(self) -> (action: Action)
        ensures
            action == action_of(self),
    {
        match self {
            MigrationState::Unseen => Action::Apply,
            MigrationState::SeenMatching => Action::Skip,
            MigrationState::SeenMismatched => Action::Fail,
        }
    }
}

impl Migration {
    /// Where the migration stands, given the migrations that the database
    /// has applied.
    pub fn state(&self, applied: &Vec<AppliedMigration>) -> (state: MigrationState)
        ensures
            state == state_of(*self, applied@),
    {
        let mut i: usize = 0;
        while i < applied.len()
            invariant
                i <= applied.len(),
                unseen(applied@.take(i as int), self.version),
            decreases applied.len() - i,
        {
            if applied[i].version == self.version {
                proof {
                    assert(seen_at(applied@, self.version, i as int));
                    assert forall|k: int| seen_at(applied@, self.version, k) implies k == i by {
                        if k < i {
                            assert(applied@.take(i as int)[k].version != self.version);
                        }
                        if i < k {
                            assert(applied@.take(k)[i as int].version != self.version);
                        }
                    }
                }
                if applied[i].checksum == self.checksum {
                    return MigrationState::SeenMatching;
                } else {
                    return MigrationState::SeenMismatched;
                }
            }
            proof {
                assert forall|k: int| 0 <= k < i + 1 implies (#[trigger] applied@.take(
                    i + 1,
                )[k]).version != self.version by {
                    if k < i {
                        assert(applied@.take(i as int)[k].version != self.version);
                    }
                }
            }
            i = i + 1;
        }
        proof {
            assert(applied@.take(i as int) =~= applied@);
        }
        MigrationState::Unseen
    }
}

/// What a run of the migrations comes to.
#[derive(Debug)]
pub struct Plan {
    /// The positions of the migrations to apply, in the order in which to
    /// apply them.
    pub apply: Vec<usize>,
    /// How the run ends once those are applied.
    pub outcome: Result<(), MigrationError>,
}

/// One step of applying a migration.
#[derive(Debug, Clone, PartialEq, Eq)]
pub enum Command {
    /// Open a transaction.
    Begin,
    /// Execute a statement in the transaction.
    Execute(String),
    /// Record the migration in the bookkeeping table, in the transaction.
    Record {
        /// The migration's version.
        version: i64,
        /// The migration's name.
        name: String,
        /// The migration's checksum.
        checksum: String,
    },
    /// Commit the transaction.
    Commit,
}

/// What a command is, as a mathematical value.
pub enum Operation {
    /// Open a transaction.
    Begin,
    /// Execute the statement.
    Execute(Seq<char>),
    /// Record a migration by its version, name and checksum.
    Record(i64, Seq<char>, Seq<char>),
    /// Commit the transaction.
    Commit,
}

impl View for Command {
    type V = Operation;

    open spec fn view(&self) -> Operation {
        match *self {
            Command::Begin => Operation::Begin,
            Command::Execute(statement) => Operation::Execute(statement@),
            Command::Record { version, name, checksum } => Operation::Record(
                version,
                name@,
                checksum@,
            ),
            Command::Commit => Operation::Commit,
        }
    }
}

/// The operations that a vector of commands holds.
pub open spec fn operations(commands: Seq<Command>) -> Seq<Operation> {
    Seq::new(commands.len(), |i: int| commands[i]@)
}

/// The operations by which a migration is applied: in one transaction,
/// its statements in their order, then the record of the migration.
pub open spec fn script(migration: Migration) -> Seq<Operation> {
    let body = statements(migration.sql@);
    seq![Operation::Begin] + Seq::new(body.len(), |i: int| Operation::Execute(body[i])) + seq![
        Operation::Record(migration.version, migration.name@, migration.checksum@),
        Operation::Commit,
    ]
}

/// The statement that creates the bookkeeping table unless it exists.
pub const CREATE_TABLE: &'static str =
    "CREATE TABLE IF NOT EXISTS migrations (\n    version     BIGINT PRIMARY KEY,\n    name        TEXT NOT NULL,\n    checksum    VARCHAR(64),\n    created_at  TIMESTAMPTZ NOT NULL DEFAULT current_timestamp\n)";

/// The query for the applied migrations, in the order of their versions.
pub const SELECT_APPLIED: &'static str =
    "SELECT version, checksum FROM migrations ORDER BY version";

/// The statement that records a migration; its parameters are the
/// version, the name and the checksum.
pub const INSERT_APPLIED: &'static str =
    "INSERT INTO migrations ( version, name, checksum ) VALUES ($1, $2, $3)";

/// The migrations that a program knows, in the order of their versions.
#[derive(Debug)]
pub struct Migrator {
    /// The migrations, in the order in which they are to be applied.
    pub migrations: Vec<Migration>,
}

impl Migrator {
    /// The runner for the given migrations.
    pub fn new(migrations: Vec<Migration>) -> (migrator: Migrator)
        ensures
            migrator.migrations == migrations,
    {
        Migrator { migrations }
    }

    /// Decides a run: goes through the migrations in their order, marks
    /// for application those that the database has not seen, passes over
    /// those that it has, and stops at the first that has changed since
    /// it was applied.
    ///
    /// The run fails, with `ChecksumError`, exactly if some migration has
    /// changed; the migrations before the first such one are still applied.
    pub fn migrate(&self, applied: &Vec<AppliedMigration>) -> (plan: Plan)
        ensures
            plan.apply@ == unseen_before(
                self.migrations@,
                applied@,
                reach(self.migrations@, applied@),
            ),
            plan.outcome is Ok <==> mismatch_free(
                self.migrations@,
                applied@,
                self.migrations@.len() as int,
            ),
            plan.outcome matches Err(error) ==> error is ChecksumError,
    {
        let mut apply: Vec<usize> = Vec::new();
        let mut i: usize = 0;
        while i < self.migrations.len()
            invariant
                i <= self.migrations.len(),
                mismatch_free(self.migrations@, applied@, i as int),
                apply@ == unseen_before(self.migrations@, applied@, i as int),
            decreases self.migrations.len() - i,
        {
            match self.migrations[i].state(applied).action() {
                Action::Apply => {
                    apply.push(i);
                },
                Action::Skip => {},
                Action::Fail => {
                    proof {
                        lemma_reach(self.migrations@, applied@, i as int);
                    }
                    return Plan { apply, outcome: Err(MigrationError::ChecksumError) };
                },
            }
            i = i + 1;
        }
        Plan { apply, outcome: Ok(()) }
    }

    /// The commands by which a migration is applied: open a transaction,
    /// execute the migration's statements in their order, record the
    /// migration, commit.
    pub fn apply_migration(&self, migration: &Migration) -> (commands: Vec<Command>)
        ensures
            operations(commands@) == script(*migration),
    {
        let mut commands: Vec<Command> = Vec::new();
        commands.push(Command::Begin);
        let body = split_statements(migration.sql.as_str());
        let ghost found = texts(body@);
        for statement in it: body
            invariant
                it.seq() == body@,
                found == texts(body@),
                operations(commands@) == seq![Operation::Begin] + Seq::new(
                    it.index() as nat,
                    |i: int| Operation::Execute(found[i]),
                ),
        {
            let ghost before = operations(commands@);
            commands.push(Command::Execute(statement));
            proof {
                assert(operations(commands@) =~= before.push(
                    Operation::Execute(found[it.index()]),
                ));
                assert(operations(commands@) =~= seq![Operation::Begin] + Seq::new(
                    (it.index() + 1) as nat,
                    |i: int| Operation::Execute(found[i]),
                ));
            }
        }
        let ghost before = operations(commands@);
        commands.push(
            Command::Record {
                version: migration.version,
                name: migration.name.clone(),
                checksum: migration.checksum.clone(),
            },
        );
        commands.push(Command::Commit);
        proof {
            assert(operations(commands@) =~= before + seq![
                Operation::Record(migration.version, migration.name@, migration.checksum@),
                Operation::Commit,
            ]);
        }
        commands
    }
}

} // verus!
