//! The order of migrations: ascending by version, and among equal
//! versions as they were given.

use vstd::prelude::*;
use vstd::seq_lib::{to_multiset_build, to_multiset_remove};
use super::record::Migration;

verus! {

/// Whether the versions do not decrease along the sequence.
pub open spec fn ascending(migrations: Seq<Migration>) -> bool {
    forall|i: int, j: int|
        0 <= i <= j < migrations.len() ==> migrations[i].version <= migrations[j].version
}

/// Where a migration with the given version goes into an ascending
/// sequence: behind the last migration whose version is not greater.
pub open spec fn place(sorted: Seq<Migration>, version: i64) -> int
    decreases sorted.len(),
{
    if sorted.len() == 0 {
        0
    } else if sorted.last().version <= version {
        sorted.len() as int
    } else {
        place(sorted.drop_last(), version)
    }
}

/// The migrations in ascending order of their versions; migrations with
/// the same version keep the order in which they were given.
pub open spec fn sorted_by_version(migrations: Seq<Migration>) -> Seq<Migration>
    decreases migrations.len(),
{
    if migrations.len() == 0 {
        migrations
    } else {
        let sorted = sorted_by_version(migrations.drop_last());
        sorted.insert(place(sorted, migrations.last().version), migrations.last())
    }
}

/// The place of a version lies within the sequence, after every migration
/// whose version is not greater and before every migration whose version
/// is greater.
pub proof fn lemma_place(sorted: Seq<Migration>, version: i64)
    requires
        ascending(sorted),
    ensures
        0 <= place(sorted, version) <= sorted.len(),
        forall|i: int| 0 <= i < place(sorted, version) ==> sorted[i].version <= version,
        forall|i: int| place(sorted, version) <= i < sorted.len() ==> sorted[i].version > version,
    decreases sorted.len(),
{
    if sorted.len() == 0 {
    } else if sorted.last().version <= version {
        assert forall|i: int| 0 <= i < sorted.len() implies sorted[i].version <= version by {
            assert(sorted[i].version <= sorted[sorted.len() - 1].version);
        }
    } else {
        let front = sorted.drop_last();
        assert(ascending(front)) by {
            assert forall|i: int, j: int| 0 <= i <= j < front.len() implies front[i].version
                <= front[j].version by {
                assert(sorted[i].version <= sorted[j].version);
            }
        }
        lemma_place(front, version);
        assert forall|i: int| 0 <= i < place(sorted, version) implies sorted[i].version
            <= version by {
            assert(front[i].version <= version);
        }
        assert forall|i: int| place(sorted, version) <= i < sorted.len() implies sorted[i].version
            > version by {
            if i < front.len() {
                assert(front[i].version > version);
            }
        }
    }
}

/// Sorting rearranges and orders: the sorted sequence holds the same
/// migrations, each as often as it was given, in ascending order.
pub proof fn lemma_sorted_by_version(migrations: Seq<Migration>)
    ensures
        ascending(sorted_by_version(migrations)),
        sorted_by_version(migrations).len() == migrations.len(),
        sorted_by_version(migrations).to_multiset() == migrations.to_multiset(),
    decreases migrations.len(),
{
    if migrations.len() > 0 {
        let front = migrations.drop_last();
        let last = migrations.last();
        let sorted = sorted_by_version(front);
        lemma_sorted_by_version(front);
        lemma_place(sorted, last.version);
        let at = place(sorted, last.version);
        let all = sorted.insert(at, last);
        assert(all.remove(at) =~= sorted);
        to_multiset_remove(all, at);
        to_multiset_build(front, last);
        assert(front.push(last) =~= migrations);
        all.to_multiset_ensures();
        assert(all[at] == last);
        assert(all.contains(last));
        assert(all.to_multiset() =~= sorted.to_multiset().insert(last));
    } else {
        assert(sorted_by_version(migrations).to_multiset() =~= migrations.to_multiset());
    }
}

/// Sorts migrations by version. Migrations with the same version keep the
/// order in which they were given.
pub fn sort_by_version(migrations: Vec<Migration>) -> (sorted: Vec<Migration>)
    ensures
        sorted@ == sorted_by_version(migrations@),
        ascending(sorted@),
        sorted@.to_multiset() == migrations@.to_multiset(),
{
    let mut sorted: Vec<Migration> = Vec::new();
    let ghost given = migrations@;
    for migration in it: migrations
        invariant
            it.seq() == given,
            sorted@ == sorted_by_version(given.take(it.index())),
    {
        proof {
            let next = given.take(it.index() + 1);
            assert(next.drop_last() =~= given.take(it.index()));
            assert(next.last() == migration);
        }
        let version = migration.version;
        let mut at: usize = sorted.len();
        proof {
            assert(sorted@.take(at as int) =~= sorted@);
        }
        while at > 0 && sorted[at - 1].version > version
            invariant
                at <= sorted.len(),
                place(sorted@, version) == place(sorted@.take(at as int), version),
            decreases at,
        {
            proof {
                assert(sorted@.take(at as int).drop_last() =~= sorted@.take(at - 1));
            }
            at = at - 1;
        }
        sorted.insert(at, migration);
    }
    proof {
        assert(given.take(given.len() as int) =~= given);
        lemma_sorted_by_version(given);
    }
    sorted
}

} // verus!
