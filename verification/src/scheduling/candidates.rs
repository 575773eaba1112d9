//! Listing the workers that may serve a request.

use super::types::{SchedulingRequest, WorkerConfigLike};
use super::workers::{WorkerId, WorkerWithDpRank};
use std::collections::HashMap;
use vstd::prelude::*;

verus! {

/// Whether `worker` is there and may serve the request.
pub open spec fn is_candidate<C: WorkerConfigLike>(
    workers: Map<WorkerId, C>,
    request: SchedulingRequest,
    worker: WorkerWithDpRank,
) -> bool {
    super::types::is_known(workers, worker) && request.allows(worker.worker_id)
}

/// Whether no worker process is there that may serve the request.
pub open spec fn none_allowed<C: WorkerConfigLike>(
    workers: Map<WorkerId, C>,
    request: SchedulingRequest,
) -> bool {
    forall|id: WorkerId| #[trigger] workers.contains_key(id) ==> !request.allows(id)
}

/// Whether the last rank of every allowed worker process has a number.
pub open spec fn ranks_fit<C: WorkerConfigLike>(
    workers: Map<WorkerId, C>,
    request: SchedulingRequest,
) -> bool {
    forall|id: WorkerId| #[trigger]
        workers.contains_key(id) && request.allows(id) ==> workers[id].start_rank()
            + workers[id].ranks() <= u32::MAX
}

/// Whether no worker process is there that may serve the request.
pub fn has_no_endpoints<C: WorkerConfigLike>(
    workers: &HashMap<WorkerId, C>,
    request: &SchedulingRequest,
) -> (none: bool)
    ensures
        none == none_allowed(workers@, *request),
        none <==> forall|id: WorkerId| #[trigger]
            workers@.contains_key(id) ==> (request.allowed_worker_ids matches Some(ids)
                && !ids@.contains(id)),
{
    for id in it: workers.keys()
        invariant
            it.seq().unref().to_set() == workers@.dom(),
            forall|k: int| 0 <= k < it.index() ==> !request.allows(*#[trigger] it.seq()[k]),
    {
        if request.is_allowed(*id) {
            assert(it.seq().unref()[it.index()] == *id);
            assert(it.seq().unref().to_set().contains(*id));
            assert(workers@.contains_key(*id));
            return false;
        }
        assert(*it.seq()[it.index()] == *id);
    }
    true
}

/// Whether the last rank of every allowed worker process has a number.
pub fn do_ranks_fit<C: WorkerConfigLike>(
    workers: &HashMap<WorkerId, C>,
    request: &SchedulingRequest,
) -> (fit: bool)
    ensures
        fit == ranks_fit(workers@, *request),
{
    for entry in it: workers.iter()
        invariant
            it.seq().unref().to_set() == workers@.kv_pairs(),
            forall|k: int|
                0 <= k < it.seq().len() ==> workers@.contains_key(*(#[trigger] it.seq()[k]).0)
                    && workers@[*it.seq()[k].0] == *it.seq()[k].1,
            forall|k: int|
                0 <= k < it.index() ==> (request.allows(*(#[trigger] it.seq()[k]).0)
                    ==> it.seq()[k].1.start_rank() + it.seq()[k].1.ranks() <= u32::MAX),
    {
        let config: &C = entry.1;
        assert(it.seq()[it.index()] == entry);
        if request.is_allowed(*entry.0) {
            let start: u32 = config.data_parallel_start_rank();
            if config.data_parallel_size() > u32::MAX - start {
                assert(workers@.contains_key(*entry.0));
                return false;
            }
        }
    }
    assert forall|id: WorkerId| #[trigger]
        workers@.contains_key(id) && request.allows(id) implies workers@[id].start_rank()
        + workers@[id].ranks() <= u32::MAX by {
        assert(workers@.kv_pairs().contains((id, workers@[id])));
    }
    true
}

/// Every worker that may serve the request, each once, in no particular order.
pub fn list_candidates<C: WorkerConfigLike>(
    workers: &HashMap<WorkerId, C>,
    request: &SchedulingRequest,
) -> (candidates: Vec<WorkerWithDpRank>)
    requires
        ranks_fit(workers@, *request),
    ensures
        candidates@.no_duplicates(),
        forall|worker: WorkerWithDpRank| #[trigger]
            candidates@.contains(worker) <==> is_candidate(workers@, *request, worker),
        forall|worker: WorkerWithDpRank| #[trigger]
            candidates@.contains(worker) <==> {
                &&& workers@.contains_key(worker.worker_id)
                &&& workers@[worker.worker_id].start_rank() <= worker.dp_rank
                    < workers@[worker.worker_id].start_rank() + workers@[worker.worker_id].ranks()
                &&& request.allowed_worker_ids matches Some(ids) ==> ids@.contains(worker.worker_id)
            },
{
    let mut candidates: Vec<WorkerWithDpRank> = Vec::new();
    let ghost mut done: Set<WorkerId> = Set::empty();
    for entry in it: workers.iter()
        invariant
            ranks_fit(workers@, *request),
            it.seq().no_duplicates(),
            it.seq().unref().to_set() == workers@.kv_pairs(),
            forall|k: int|
                0 <= k < it.seq().len() ==> workers@.contains_key(*(#[trigger] it.seq()[k]).0)
                    && workers@[*it.seq()[k].0] == *it.seq()[k].1,
            forall|id: WorkerId| #[trigger]
                done.contains(id) <==> exists|k: int|
                    0 <= k < it.index() && *(#[trigger] it.seq()[k]).0 == id,
            candidates@.no_duplicates(),
            forall|worker: WorkerWithDpRank| #[trigger]
                candidates@.contains(worker) <==> is_candidate(workers@, *request, worker)
                    && done.contains(worker.worker_id),
    {
        let id: WorkerId = *entry.0;
        let config: &C = entry.1;
        assert(it.seq()[it.index()] == entry);
        assert(!done.contains(id)) by {
            if done.contains(id) {
                let k = choose|k: int| 0 <= k < it.index() && *(#[trigger] it.seq()[k]).0 == id;
                assert(it.seq()[k] == it.seq()[it.index()]);
            }
        }
        if request.is_allowed(id) {
            push_ranks(
                &mut candidates,
                id,
                config.data_parallel_start_rank(),
                config.data_parallel_size(),
            );
        }
        proof {
            done = done.insert(id);
        }
    }
    assert forall|worker: WorkerWithDpRank| is_candidate(workers@, *request, worker)
        implies done.contains(
        worker.worker_id,
    ) by {
        let pair = (worker.worker_id, workers@[worker.worker_id]);
        assert(workers@.kv_pairs().contains(pair));
    }
    candidates
}

/// A worker may serve a request exactly where its process is there, has its rank, and is among the
/// allowed processes if the request limits them.
pub proof fn law_who_may_serve<C: WorkerConfigLike>(
    workers: Map<WorkerId, C>,
    request: SchedulingRequest,
    worker: WorkerWithDpRank,
)
    ensures
        is_candidate(workers, request, worker) <==> {
            &&& workers.contains_key(worker.worker_id)
            &&& workers[worker.worker_id].start_rank() <= worker.dp_rank
            &&& worker.dp_rank - workers[worker.worker_id].start_rank()
                < workers[worker.worker_id].ranks()
            &&& request.allowed_worker_ids matches Some(ids) ==> ids@.contains(worker.worker_id)
        },
        super::types::is_known(workers, worker) <==> {
            &&& workers.contains_key(worker.worker_id)
            &&& workers[worker.worker_id].start_rank() <= worker.dp_rank
            &&& worker.dp_rank - workers[worker.worker_id].start_rank()
                < workers[worker.worker_id].ranks()
        },
        request.allows(worker.worker_id) <==> (request.allowed_worker_ids matches Some(ids)
            ==> ids@.contains(worker.worker_id)),
        request.constraints_conflict() <==> (request.pinned_worker matches Some(pinned) && (
        request.allowed_worker_ids matches Some(ids) && !ids@.contains(pinned.worker_id))),
        none_allowed(workers, request) <==> forall|id: WorkerId| #[trigger]
            workers.contains_key(id) ==> (request.allowed_worker_ids matches Some(ids)
                && !ids@.contains(id)),
        ranks_fit(workers, request) <==> forall|id: WorkerId| #[trigger]
            workers.contains_key(id) && (request.allowed_worker_ids matches Some(ids)
                ==> ids@.contains(id)) ==> workers[id].start_rank() + workers[id].ranks() <= u32::MAX,
{
    if ranks_fit(workers, request) {
        assert forall|id: WorkerId| #[trigger]
            workers.contains_key(id) && (request.allowed_worker_ids matches Some(ids)
                ==> ids@.contains(id)) implies workers[id].start_rank() + workers[id].ranks()
            <= u32::MAX by {
            assert(request.allows(id));
        }
    }
}

/// Where a request allows fewer processes, of two that are alike otherwise, no more workers may serve
/// it, and those that no longer may are of the processes that it no longer allows.
pub proof fn law_allowing_fewer_leaves_fewer<C: WorkerConfigLike>(
    workers: Map<WorkerId, C>,
    wide: SchedulingRequest,
    narrow: SchedulingRequest,
    worker: WorkerWithDpRank,
)
    requires
        wide.allowed_worker_ids is None,
    ensures
        is_candidate(workers, narrow, worker) ==> is_candidate(workers, wide, worker),
        is_candidate(workers, wide, worker) && !is_candidate(workers, narrow, worker) ==> (
        narrow.allowed_worker_ids matches Some(ids) && !ids@.contains(worker.worker_id)),
{
}

/// Appends every rank of one worker process.
fn push_ranks(candidates: &mut Vec<WorkerWithDpRank>, id: WorkerId, start: u32, size: u32)
    requires
        start + size <= u32::MAX,
        old(candidates)@.no_duplicates(),
        forall|worker: WorkerWithDpRank| #[trigger]
            old(candidates)@.contains(worker) ==> worker.worker_id != id,
    ensures
        final(candidates)@.no_duplicates(),
        forall|worker: WorkerWithDpRank| #[trigger]
            final(candidates)@.contains(worker) <==> old(candidates)@.contains(worker) || (
            worker.worker_id == id && start <= worker.dp_rank < start + size),
{
    let mut rank: u32 = start;
    while rank < start + size
        invariant
            start <= rank <= start + size <= u32::MAX,
            candidates@.no_duplicates(),
            forall|worker: WorkerWithDpRank| #[trigger]
                old(candidates)@.contains(worker) ==> worker.worker_id != id,
            forall|worker: WorkerWithDpRank| #[trigger]
                candidates@.contains(worker) <==> old(candidates)@.contains(worker) || (
                worker.worker_id == id && start <= worker.dp_rank < rank),
        decreases start + size - rank,
    {
        let ghost before = candidates@;
        let worker = WorkerWithDpRank::new(id, rank);
        assert(!before.contains(worker));
        candidates.push(worker);
        proof {
            assert forall|other: WorkerWithDpRank| #[trigger] candidates@.contains(other)
                <==> before.contains(other) || other == worker by {
                if before.contains(other) {
                    let j = choose|j: int| 0 <= j < before.len() && before[j] == other;
                    assert(candidates@[j] == other);
                }
                if other == worker {
                    assert(candidates@[before.len() as int] == other);
                }
            }
        }
        rank = rank + 1;
    }
}

} // verus!
