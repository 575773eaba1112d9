//! Scheduling requests, worker configurations and the outcome of a selection.

use super::config::RouterConfigOverride;
use super::workers::{WorkerId, WorkerMap, WorkerWithDpRank};
use std::collections::{HashMap, HashSet};
use vstd::prelude::*;

verus! {

/// What the router's index knows of the blocks that workers hold.
#[derive(Clone, Debug)]
pub struct OverlapScores {
    /// How many leading blocks of the request each worker already holds.
    pub scores: WorkerMap<u32>,
    /// How many blocks each worker holds in all.
    pub tree_sizes: WorkerMap<usize>,
}

impl OverlapScores {
    pub fn new() -> (overlaps: Self)
        ensures
            overlaps.scores@ == Map::<WorkerWithDpRank, u32>::empty(),
            overlaps.tree_sizes@ == Map::<WorkerWithDpRank, usize>::empty(),
    {
        OverlapScores { scores: WorkerMap::new(), tree_sizes: WorkerMap::new() }
    }
}

/// A request for a worker.
#[derive(Clone, Debug)]
pub struct SchedulingRequest {
    /// The length of the input sequence in tokens.
    pub isl_tokens: usize,
    pub overlaps: OverlapScores,
    /// Blocks that each worker would be decoding with this request.
    pub decode_blocks: WorkerMap<usize>,
    /// Tokens that each worker would be prefilling with this request.
    pub prefill_tokens: WorkerMap<usize>,
    /// Requests that each worker is serving.
    pub active_request_counts: WorkerMap<usize>,
    pub track_prefill_tokens: bool,
    pub router_config_override: Option<RouterConfigOverride>,
    /// The one worker that may serve the request, if it is fixed.
    pub pinned_worker: Option<WorkerWithDpRank>,
    /// The workers that may serve the request, if they are limited.
    pub allowed_worker_ids: Option<HashSet<WorkerId>>,
}

/// Why no worker was selected.
#[derive(Clone, Copy, Debug, PartialEq, Eq, Structural)]
pub enum KvSchedulerError {
    /// No worker is there that may serve the request.
    NoEndpoints,
    /// The request is pinned to a worker that it does not allow.
    PinnedWorkerNotAllowed { worker_id: WorkerId },
}

/// The selected worker.
#[derive(Clone, Copy, Debug, PartialEq, Eq, Structural)]
pub struct WorkerSelectionResult {
    pub worker: WorkerWithDpRank,
    /// The number of blocks that the input sequence takes up.
    pub required_blocks: u64,
    /// How many of them the worker already holds.
    pub overlap_blocks: u32,
}

/// What selection reads of a worker's configuration.
pub trait WorkerConfigLike: Sized {
    spec fn start_rank(&self) -> u32;

    spec fn ranks(&self) -> u32;

    spec fn sequence_limit(&self) -> Option<u64>;

    spec fn block_total(&self) -> Option<u64>;

    /// The worker's first data-parallel rank.
    fn data_parallel_start_rank(&self) -> (rank: u32)
        ensures
            rank == self.start_rank(),
    ;

    /// The number of the worker's data-parallel ranks.
    fn data_parallel_size(&self) -> (size: u32)
        ensures
            size == self.ranks(),
    ;

    /// How many sequences the worker runs at once, if limited.
    fn max_num_seqs(&self) -> (limit: Option<u64>)
        ensures
            limit == self.sequence_limit(),
    ;

    /// How many blocks the worker has room for, if known.
    fn total_kv_blocks(&self) -> (total: Option<u64>)
        ensures
            total == self.block_total(),
    ;
}

/// A worker configuration that is nothing but its values.
#[derive(Clone, Copy, Debug, PartialEq, Eq, Structural)]
pub struct SimpleWorkerConfig {
    pub data_parallel_start_rank: u32,
    pub data_parallel_size: u32,
    pub max_num_seqs: Option<u64>,
    pub total_kv_blocks: Option<u64>,
}

impl Default for SimpleWorkerConfig {
    /// One rank, numbered zero, and no limits.
    fn default() -> (config: Self)
        ensures
            config == (SimpleWorkerConfig {
                data_parallel_start_rank: 0,
                data_parallel_size: 1,
                max_num_seqs: None,
                total_kv_blocks: None,
            }),
    {
        SimpleWorkerConfig {
            data_parallel_start_rank: 0,
            data_parallel_size: 1,
            max_num_seqs: None,
            total_kv_blocks: None,
        }
    }
}

impl WorkerConfigLike for SimpleWorkerConfig {
    open spec fn start_rank(&self) -> u32 {
        self.data_parallel_start_rank
    }

    open spec fn ranks(&self) -> u32 {
        self.data_parallel_size
    }

    open spec fn sequence_limit(&self) -> Option<u64> {
        self.max_num_seqs
    }

    open spec fn block_total(&self) -> Option<u64> {
        self.total_kv_blocks
    }

    fn data_parallel_start_rank(&self) -> (rank: u32) {
        self.data_parallel_start_rank
    }

    fn data_parallel_size(&self) -> (size: u32) {
        self.data_parallel_size
    }

    fn max_num_seqs(&self) -> (limit: Option<u64>) {
        self.max_num_seqs
    }

    fn total_kv_blocks(&self) -> (total: Option<u64>) {
        self.total_kv_blocks
    }
}

/// A simple configuration says of a worker just what it holds.
pub proof fn law_simple_configuration_is_its_values(config: SimpleWorkerConfig)
    ensures
        config.start_rank() == config.data_parallel_start_rank,
        config.ranks() == config.data_parallel_size,
        config.sequence_limit() == config.max_num_seqs,
        config.block_total() == config.total_kv_blocks,
{
}

/// Whether `rank` is one of the ranks of a worker with the given configuration.
pub open spec fn has_rank<C: WorkerConfigLike>(config: C, rank: u32) -> bool {
    config.start_rank() <= rank < config.start_rank() + config.ranks()
}

/// Whether `worker` is one of `workers`, at one of its ranks.
pub open spec fn is_known<C: WorkerConfigLike>(
    workers: Map<WorkerId, C>,
    worker: WorkerWithDpRank,
) -> bool {
    workers.contains_key(worker.worker_id) && has_rank(workers[worker.worker_id], worker.dp_rank)
}

impl SchedulingRequest {
    /// Whether the request may be served by the worker process `id`.
    pub open spec fn allows(self, id: WorkerId) -> bool {
        match self.allowed_worker_ids {
            Some(ids) => ids@.contains(id),
            None => true,
        }
    }

    /// Whether the request's constraints contradict each other.
    pub open spec fn constraints_conflict(self) -> bool {
        match self.pinned_worker {
            Some(worker) => !self.allows(worker.worker_id),
            None => false,
        }
    }

    pub fn is_allowed(&self, id: WorkerId) -> (allowed: bool)
        ensures
            allowed == self.allows(id),
            allowed <==> (self.allowed_worker_ids matches Some(ids) ==> ids@.contains(id)),
    {
        match &self.allowed_worker_ids {
            Some(ids) => ids.contains(&id),
            None => true,
        }
    }

    /// A pinned worker has to be among the allowed ones.
    pub fn validate_worker_constraints(&self) -> (valid: Result<(), KvSchedulerError>)
        ensures
            valid is Err <==> self.constraints_conflict(),
            valid is Err <==> (self.pinned_worker matches Some(worker) && (
            self.allowed_worker_ids matches Some(ids) && !ids@.contains(worker.worker_id))),
            valid matches Err(error) ==> (self.pinned_worker matches Some(worker) && error
                == KvSchedulerError::PinnedWorkerNotAllowed { worker_id: worker.worker_id }),
    {
        match self.pinned_worker {
            Some(worker) => if self.is_allowed(worker.worker_id) {
                Ok(())
            } else {
                Err(KvSchedulerError::PinnedWorkerNotAllowed { worker_id: worker.worker_id })
            },
            None => Ok(()),
        }
    }
}

/// The configuration of a pinned worker, which has to be there and to have the pinned rank.
pub fn pinned_worker_config<C: WorkerConfigLike>(
    workers: &HashMap<WorkerId, C>,
    worker: WorkerWithDpRank,
) -> (found: Result<&C, KvSchedulerError>)
    ensures
        found matches Ok(config) ==> is_known(workers@, worker) && *config
            == workers@[worker.worker_id],
        found matches Err(error) ==> !is_known(workers@, worker) && error
            == KvSchedulerError::NoEndpoints,
        found is Ok <==> (workers@.contains_key(worker.worker_id)
            && workers@[worker.worker_id].start_rank() <= worker.dp_rank
            < workers@[worker.worker_id].start_rank() + workers@[worker.worker_id].ranks()),
{
    match workers.get(&worker.worker_id) {
        Some(config) => {
            let start: u32 = config.data_parallel_start_rank();
            let size: u32 = config.data_parallel_size();
            if start <= worker.dp_rank && worker.dp_rank - start < size {
                Ok(config)
            } else {
                Err(KvSchedulerError::NoEndpoints)
            }
        },
        None => Err(KvSchedulerError::NoEndpoints),
    }
}

} // verus!
