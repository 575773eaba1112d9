//! Workers, what is known of them, and maps keyed by them.

use rustc_hash::{FxBuildHasher, FxHashMap};
use vstd::prelude::*;

verus! {

/// Identifies a worker process.
pub type WorkerId = u64;

/// A worker process together with one of its data-parallel ranks: the unit that requests are
/// routed to.
#[derive(Clone, Copy, Debug, PartialEq, Eq, Hash, Structural)]
pub struct WorkerWithDpRank {
    pub worker_id: WorkerId,
    pub dp_rank: u32,
}

impl WorkerWithDpRank {
    pub fn new(worker_id: WorkerId, dp_rank: u32) -> (worker: Self)
        ensures
            worker == (WorkerWithDpRank { worker_id, dp_rank }),
    {
        WorkerWithDpRank { worker_id, dp_rank }
    }

    /// Rank zero of a worker.
    pub fn from_worker_id(worker_id: WorkerId) -> (worker: Self)
        ensures
            worker == (WorkerWithDpRank { worker_id, dp_rank: 0 }),
    {
        WorkerWithDpRank { worker_id, dp_rank: 0 }
    }

    /// The pair of integers that a worker is filed under.
    pub open spec fn key(self) -> (u64, u32) {
        (self.worker_id, self.dp_rank)
    }
}

/// The worker that is filed under a pair of integers.
pub open spec fn worker_of(key: (u64, u32)) -> WorkerWithDpRank {
    WorkerWithDpRank { worker_id: key.0, dp_rank: key.1 }
}

/// Declares `rustc_hash::FxBuildHasher`, the hasher of [`WorkerMap`]'s table.
#[verifier::external_type_specification]
#[verifier::external_body]
pub struct ExFxBuildHasher(FxBuildHasher);

/// `HashMap::get` on a `rustc_hash::FxHashMap`, with the value copied out.
///
/// Trusted: the table finds exactly what is filed under `key`. `FxHasher` hashes a pair of integers
/// to one value however often it is asked, and pairs of integers compare by their parts.
#[verifier::external_body]
fn table_get<V: Copy>(table: &FxHashMap<(u64, u32), V>, key: (u64, u32)) -> (found: Option<V>)
    ensures
        found == (if table@.contains_key(key) {
            Some(table@[key])
        } else {
            None
        }),
{
    table.get(&key).copied()
}

/// `HashMap::insert` on a `rustc_hash::FxHashMap`.
///
/// Trusted: `value` is filed under `key` in place of what was filed there, which is returned, and
/// nothing else changes.
#[verifier::external_body]
fn table_insert<V: Copy>(table: &mut FxHashMap<(u64, u32), V>, key: (u64, u32), value: V) -> (replaced:
    Option<V>)
    ensures
        final(table)@ == old(table)@.insert(key, value),
        replaced == (if old(table)@.contains_key(key) {
            Some(old(table)@[key])
        } else {
            None
        }),
{
    table.insert(key, value)
}

/// `HashMap::iter` on a `rustc_hash::FxHashMap`, with every entry copied out.
///
/// Trusted: each entry comes out exactly once, and nothing else does. The order is left open.
#[verifier::external_body]
fn table_entries<V: Copy>(table: &FxHashMap<(u64, u32), V>) -> (entries: Vec<((u64, u32), V)>)
    ensures
        forall|i: int|
            0 <= i < entries@.len() ==> table@.contains_key((#[trigger] entries@[i]).0)
                && table@[entries@[i].0] == entries@[i].1,
        forall|key: (u64, u32)| #[trigger]
            table@.contains_key(key) ==> entries@.contains((key, table@[key])),
        forall|i: int, j: int|
            0 <= i < j < entries@.len() ==> (#[trigger] entries@[i]).0 != (#[trigger] entries@[j]).0,
{
    table.iter().map(|(key, value)| (*key, *value)).collect()
}

/// A map from workers to values.
#[derive(Clone, Debug)]
pub struct WorkerMap<V> {
    table: FxHashMap<(u64, u32), V>,
}

impl<V> View for WorkerMap<V> {
    type V = Map<WorkerWithDpRank, V>;

    closed spec fn view(&self) -> Map<WorkerWithDpRank, V> {
        Map::new(
            |worker: WorkerWithDpRank| self.table@.contains_key(worker.key()),
            |worker: WorkerWithDpRank| self.table@[worker.key()],
        )
    }
}

impl<V: Copy> WorkerMap<V> {
    /// What the map holds for `worker`, or else `default`.
    pub open spec fn value_or(self, worker: WorkerWithDpRank, default: V) -> V {
        if self@.contains_key(worker) {
            self@[worker]
        } else {
            default
        }
    }

    pub fn new() -> (map: Self)
        ensures
            map@ == Map::<WorkerWithDpRank, V>::empty(),
    {
        let map = WorkerMap { table: FxHashMap::default() };
        assert(map@ =~= Map::<WorkerWithDpRank, V>::empty());
        map
    }

    pub fn get(&self, worker: &WorkerWithDpRank) -> (found: Option<V>)
        ensures
            found == (if self@.contains_key(*worker) {
                Some(self@[*worker])
            } else {
                None
            }),
    {
        table_get(&self.table, (worker.worker_id, worker.dp_rank))
    }

    /// What the map holds for `worker`, or else `default`.
    pub fn get_or(&self, worker: &WorkerWithDpRank, default: V) -> (value: V)
        ensures
            value == self.value_or(*worker, default),
            self@.contains_key(*worker) ==> value == self@[*worker],
            !self@.contains_key(*worker) ==> value == default,
    {
        match self.get(worker) {
            Some(value) => value,
            None => default,
        }
    }

    pub fn insert(&mut self, worker: WorkerWithDpRank, value: V) -> (replaced: Option<V>)
        ensures
            final(self)@ == old(self)@.insert(worker, value),
            replaced == (if old(self)@.contains_key(worker) {
                Some(old(self)@[worker])
            } else {
                None
            }),
    {
        let replaced = table_insert(&mut self.table, (worker.worker_id, worker.dp_rank), value);
        assert(self@ =~= old(self)@.insert(worker, value));
        replaced
    }

    /// The entries of the map, each once, in no particular order.
    pub fn entries(&self) -> (entries: Vec<(WorkerWithDpRank, V)>)
        ensures
            lists(entries@, self@),
            forall|i: int|
                0 <= i < entries@.len() ==> self@.contains_key((#[trigger] entries@[i]).0)
                    && self@[entries@[i].0] == entries@[i].1,
            forall|worker: WorkerWithDpRank| #[trigger]
                self@.contains_key(worker) ==> entries@.contains((worker, self@[worker])),
            forall|i: int, j: int|
                0 <= i < j < entries@.len() ==> (#[trigger] entries@[i]).0 != (
                #[trigger] entries@[j]).0,
    {
        let raw: Vec<((u64, u32), V)> = table_entries(&self.table);
        let mut entries: Vec<(WorkerWithDpRank, V)> = Vec::new();
        let mut i: usize = 0;
        while i < raw.len()
            invariant
                i <= raw.len(),
                entries@.len() == i,
                forall|j: int|
                    0 <= j < i ==> #[trigger] entries@[j] == (worker_of(raw@[j].0), raw@[j].1),
            decreases raw.len() - i,
        {
            let key: (u64, u32) = raw[i].0;
            entries.push((WorkerWithDpRank::new(key.0, key.1), raw[i].1));
            i = i + 1;
        }
        proof {
            assert forall|worker: WorkerWithDpRank| #[trigger] self@.contains_key(worker) implies
                entries@.contains((worker, self@[worker])) by {
                assert(self.table@.contains_key(worker.key()));
                let j = choose|j: int|
                    0 <= j < raw@.len() && raw@[j] == (worker.key(), self.table@[worker.key()]);
                assert(entries@[j] == (worker, self@[worker]));
            }
            assert forall|j: int| 0 <= j < entries@.len() implies self@.contains_key(
                (#[trigger] entries@[j]).0,
            ) && self@[entries@[j].0] == entries@[j].1 by {
                assert(self.table@.contains_key(raw@[j].0));
                assert(entries@[j].0.key() == raw@[j].0);
            }
        }
        entries
    }
}

/// A value is read where it was filed: after `value` is filed for `worker`, that worker has it, and
/// every other worker has what it had before. An empty map has nothing but defaults.
pub proof fn law_values_are_read_where_they_are_filed<V: Copy>(
    before: WorkerMap<V>,
    after: WorkerMap<V>,
    worker: WorkerWithDpRank,
    value: V,
    other: WorkerWithDpRank,
    default: V,
)
    ensures
        after@ == before@.insert(worker, value) ==> after.value_or(worker, default) == value,
        after@ == before@.insert(worker, value) && other != worker ==> after.value_or(other, default)
            == before.value_or(other, default),
        before@ == Map::<WorkerWithDpRank, V>::empty() ==> before.value_or(worker, default) == default,
        before@.contains_key(worker) ==> before.value_or(worker, default) == before@[worker],
        !before@.contains_key(worker) ==> before.value_or(worker, default) == default,
{
}

/// A listing of a map holds exactly the map's workers, each once and with its own value.
pub proof fn law_listing_is_the_map<V>(
    entries: Seq<(WorkerWithDpRank, V)>,
    map: Map<WorkerWithDpRank, V>,
)
    requires
        lists(entries, map),
    ensures
        forall|worker: WorkerWithDpRank|
            #![trigger map.contains_key(worker)]
            map.contains_key(worker) <==> exists|i: int|
                0 <= i < entries.len() && (#[trigger] entries[i]).0 == worker,
        forall|i: int| 0 <= i < entries.len() ==> map[(#[trigger] entries[i]).0] == entries[i].1,
        forall|i: int, j: int|
            0 <= i < entries.len() && 0 <= j < entries.len() && (#[trigger] entries[i]).0 == (
            #[trigger] entries[j]).0 ==> i == j,
{
    assert forall|worker: WorkerWithDpRank|
        #![trigger map.contains_key(worker)]
        map.contains_key(worker) implies exists|i: int|
        0 <= i < entries.len() && (#[trigger] entries[i]).0 == worker by {
        assert(entries.contains((worker, map[worker])));
        let i = choose|i: int| 0 <= i < entries.len() && entries[i] == (worker, map[worker]);
        assert(entries[i].0 == worker);
    }
}

/// Whether `entries` holds every entry of `map` exactly once and nothing else.
pub open spec fn lists<V>(
    entries: Seq<(WorkerWithDpRank, V)>,
    map: Map<WorkerWithDpRank, V>,
) -> bool {
    &&& forall|i: int|
        0 <= i < entries.len() ==> map.contains_key((#[trigger] entries[i]).0)
            && map[entries[i].0] == entries[i].1
    &&& forall|worker: WorkerWithDpRank| #[trigger]
        map.contains_key(worker) ==> entries.contains((worker, map[worker]))
    &&& forall|i: int, j: int|
        0 <= i < j < entries.len() ==> (#[trigger] entries[i]).0 != (#[trigger] entries[j]).0
}

} // verus!
