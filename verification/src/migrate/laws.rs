//! What holds of every run of the migrations.

use vstd::prelude::*;
use super::record::{AppliedMigration, Migration};
use super::runner::{
    fails_at,
    lemma_reach,
    mismatch_free,
    reach,
    seen_at,
    state_of,
    unseen_before,
    MigrationState,
};

verus! {

/// Whether no two migrations have the same version.
pub open spec fn distinct_versions(migrations: Seq<Migration>) -> bool {
    forall|i: int, j: int|
        0 <= i < migrations.len() && 0 <= j < migrations.len() && i != j ==> migrations[i].version
            != migrations[j].version
}

/// The row that records a migration.
pub open spec fn row_of(migration: Migration) -> AppliedMigration {
    AppliedMigration { checksum: migration.checksum, version: migration.version }
}

/// The bookkeeping rows once the migrations at the positions `apply` have
/// been applied and recorded, in that order.
pub open spec fn recorded(
    applied: Seq<AppliedMigration>,
    migrations: Seq<Migration>,
    apply: Seq<usize>,
) -> Seq<AppliedMigration> {
    applied + Seq::new(apply.len(), |k: int| row_of(migrations[apply[k] as int]))
}

/// The positions marked for application are those of the unseen
/// migrations, each once, in ascending order.
pub proof fn lemma_unseen_before(
    migrations: Seq<Migration>,
    applied: Seq<AppliedMigration>,
    n: int,
)
    requires
        0 <= n <= migrations.len() <= usize::MAX,
    ensures
        forall|k: int|
            0 <= k < unseen_before(migrations, applied, n).len() ==> {
                let at = (#[trigger] unseen_before(migrations, applied, n)[k]) as int;
                0 <= at < n && state_of(migrations[at], applied) == MigrationState::Unseen
            },
        forall|k: int, l: int|
            0 <= k < l < unseen_before(migrations, applied, n).len() ==> unseen_before(
                migrations,
                applied,
                n,
            )[k] < unseen_before(migrations, applied, n)[l],
        forall|i: int|
            0 <= i < n && state_of(#[trigger] migrations[i], applied) == MigrationState::Unseen
                ==> exists|k: int|
                0 <= k < unseen_before(migrations, applied, n).len() && unseen_before(
                    migrations,
                    applied,
                    n,
                )[k] == i,
    decreases n,
{
    if n > 0 {
        lemma_unseen_before(migrations, applied, n - 1);
        let shorter = unseen_before(migrations, applied, n - 1);
        let longer = unseen_before(migrations, applied, n);
        assert forall|i: int|
            0 <= i < n && state_of(
                #[trigger] migrations[i],
                applied,
            ) == MigrationState::Unseen implies exists|k: int|
            0 <= k < longer.len() && longer[k] == i by {
            if i < n - 1 {
                let k = choose|k: int| 0 <= k < shorter.len() && shorter[k] == i;
                assert(longer[k] == i);
            } else {
                assert(longer[longer.len() - 1] == i);
            }
        }
    }
}

/// A migration that the database has seen stands as before when further
/// rows are added behind those that are there.
pub proof fn lemma_seen_stays(
    migration: Migration,
    applied: Seq<AppliedMigration>,
    added: Seq<AppliedMigration>,
)
    requires
        state_of(migration, applied) != MigrationState::Unseen,
    ensures
        state_of(migration, applied + added) == state_of(migration, applied),
{
    let version = migration.version;
    let after = applied + added;
    let j = choose|j: int| 0 <= j < applied.len() && applied[j].version == version;
    assert(after[j].version == version);
    assert forall|i: int| seen_at(applied, version, i) implies seen_at(after, version, i) by {
        assert(after.take(i) =~= applied.take(i));
        assert(after[i] == applied[i]);
    }
    assert forall|k: int| seen_at(after, version, k) implies seen_at(applied, version, k) by {
        if k > j {
            assert(after.take(k)[j].version == version);
        }
        assert(after.take(k) =~= applied.take(k));
        assert(after[k] == applied[k]);
    }
    if state_of(migration, applied) == MigrationState::SeenMatching {
        let i = choose|i: int|
            seen_at(applied, version, i) && applied[i].checksum@ == migration.checksum@;
        assert(seen_at(after, version, i) && after[i].checksum@ == migration.checksum@);
    } else {
        if state_of(migration, after) == MigrationState::SeenMatching {
            let k = choose|k: int|
                seen_at(after, version, k) && after[k].checksum@ == migration.checksum@;
            assert(seen_at(applied, version, k));
            assert(after[k] == applied[k]);
        }
    }
}

/// Running the migrations again applies nothing. Once the migrations that
/// a run marks for application are applied and recorded, a second run over
/// the same migrations gets as far as the first and marks none; so no
/// migration is applied twice. If the first run got through all the
/// migrations, so does the second.
pub proof fn lemma_rerun_applies_nothing(
    migrations: Seq<Migration>,
    applied: Seq<AppliedMigration>,
)
    requires
        distinct_versions(migrations),
        migrations.len() <= usize::MAX,
    ensures
        ({
            let first = unseen_before(migrations, applied, reach(migrations, applied));
            let after = recorded(applied, migrations, first);
            &&& reach(migrations, after) == reach(migrations, applied)
            &&& unseen_before(migrations, after, reach(migrations, after)) == Seq::<usize>::empty()
            &&& mismatch_free(migrations, applied, migrations.len() as int) ==> mismatch_free(
                migrations,
                after,
                migrations.len() as int,
            )
        }),
{
    let total = migrations.len() as int;
    let stop = reach(migrations, applied);
    if !mismatch_free(migrations, applied, total) {
        let i = choose|i: int|
            0 <= i < total && i < migrations.len() && state_of(#[trigger] migrations[i], applied)
                == MigrationState::SeenMismatched;
        lemma_first_mismatch(migrations, applied, i);
    }
    assert(0 <= stop <= total);
    let first = unseen_before(migrations, applied, stop);
    let added = Seq::new(first.len(), |k: int| row_of(migrations[first[k] as int]));
    let after = recorded(applied, migrations, first);
    assert(after == applied + added);
    lemma_unseen_before(migrations, applied, stop);
    // How each migration stands after the first run.
    assert forall|i: int| 0 <= i < total implies {
        let before = state_of(#[trigger] migrations[i], applied);
        let now = state_of(migrations[i], after);
        &&& before != MigrationState::Unseen ==> now == before
        &&& before == MigrationState::Unseen && i < stop ==> now == MigrationState::SeenMatching
        &&& before == MigrationState::Unseen && i >= stop ==> now == MigrationState::Unseen
    } by {
        let migration = migrations[i];
        let version = migration.version;
        let before = state_of(migration, applied);
        if before != MigrationState::Unseen {
            lemma_seen_stays(migration, applied, added);
        } else if i < stop {
            let p = choose|p: int| 0 <= p < first.len() && first[p] == i;
            let at = applied.len() + p;
            assert(after[at] == added[p]);
            assert(after[at].version == version);
            assert forall|q: int| 0 <= q < at implies (#[trigger] after.take(at)[q]).version
                != version by {
                if q < applied.len() {
                    assert(after[q] == applied[q]);
                } else {
                    let r = q - applied.len();
                    assert(after[q] == added[r]);
                    assert(first[r] < first[p]);
                }
            }
            assert(seen_at(after, version, at));
            assert(after[at].checksum@ == migration.checksum@);
        } else {
            assert forall|q: int| 0 <= q < after.len() implies (#[trigger] after[q]).version
                != version by {
                if q < applied.len() {
                    assert(after[q] == applied[q]);
                } else {
                    let r = q - applied.len();
                    assert(after[q] == added[r]);
                    assert(first[r] < stop);
                }
            }
        }
    }
    // The second run stops where the first did.
    if stop < total {
        assert(fails_at(migrations, applied, stop));
        assert(fails_at(migrations, after, stop)) by {
            assert forall|i: int| 0 <= i < stop && i < migrations.len() implies state_of(
                #[trigger] migrations[i],
                after,
            ) != MigrationState::SeenMismatched by {
                assert(state_of(migrations[i], applied) != MigrationState::SeenMismatched);
            }
        }
        lemma_reach(migrations, after, stop);
    } else {
        assert(mismatch_free(migrations, after, total)) by {
            assert forall|i: int| 0 <= i < total && i < migrations.len() implies state_of(
                #[trigger] migrations[i],
                after,
            ) != MigrationState::SeenMismatched by {
                assert(state_of(migrations[i], applied) != MigrationState::SeenMismatched);
            }
        }
    }
    assert(reach(migrations, after) == stop);
    lemma_none_unseen(migrations, after, stop);
}

/// Where some migration has changed, there is a first one that has.
pub proof fn lemma_first_mismatch(
    migrations: Seq<Migration>,
    applied: Seq<AppliedMigration>,
    i: int,
)
    requires
        0 <= i < migrations.len(),
        state_of(migrations[i], applied) == MigrationState::SeenMismatched,
    ensures
        0 <= reach(migrations, applied) <= i,
        fails_at(migrations, applied, reach(migrations, applied)),
    decreases i,
{
    if mismatch_free(migrations, applied, i) {
        assert(fails_at(migrations, applied, i));
        lemma_reach(migrations, applied, i);
    } else {
        let j = choose|j: int|
            0 <= j < i && j < migrations.len() && state_of(#[trigger] migrations[j], applied)
                == MigrationState::SeenMismatched;
        lemma_first_mismatch(migrations, applied, j);
    }
}

/// Where none of the first `n` migrations is unseen, none is marked.
pub proof fn lemma_none_unseen(
    migrations: Seq<Migration>,
    applied: Seq<AppliedMigration>,
    n: int,
)
    requires
        0 <= n <= migrations.len(),
        forall|i: int|
            0 <= i < n ==> state_of(#[trigger] migrations[i], applied) != MigrationState::Unseen,
    ensures
        unseen_before(migrations, applied, n) == Seq::<usize>::empty(),
    decreases n,
{
    if n > 0 {
        lemma_none_unseen(migrations, applied, n - 1);
    }
}

} // verus!
