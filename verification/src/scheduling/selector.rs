//! Selecting a worker for a request.

use super::candidates::{do_ranks_fit, has_no_endpoints, list_candidates};
use super::config::KvRouterConfig;
use super::formula::{
    kv_aware_score, lmetric_score, overlap_load_score, vllm_score, ScoreTerms,
    WorkerSelectionFormula,
};
use super::lowest::lowest_scored;
use super::softmax::{softmax_sample_with_sample, SoftmaxWeights};
use super::tie_break::{break_kv_aware_tie, break_tied_workers_by_tree_size, random_index};
use super::types::{
    pinned_worker_config, KvSchedulerError, SchedulingRequest, WorkerConfigLike,
    WorkerSelectionResult,
};
use super::workers::{WorkerId, WorkerMap, WorkerWithDpRank};
use crate::binary64::Binary64;
use crate::text::same_text;
use std::collections::HashMap;
use vstd::prelude::*;

verus! {

/// The number of blocks of `block_size` tokens that `tokens` tokens take up.
pub open spec fn blocks_for(tokens: int, block_size: int) -> int {
    (tokens + block_size - 1) / block_size
}

/// How many sequences a worker runs at once, where `usize` can count them.
pub open spec fn batch_limit(limit: Option<u64>) -> usize {
    match limit {
        Some(limit) if limit <= usize::MAX => limit as usize,
        _ => usize::MAX,
    }
}

/// Whether the request carries the override that disaggregated decode routing sets after prefill.
pub open spec fn is_disaggregated_decode(request: SchedulingRequest) -> bool {
    match request.router_config_override {
        Some(set) => (set.overlap_score_weight matches Some(weight) && weight.zero())
            && set.track_prefill_tokens == Some(false) && set.assume_kv_reuse == Some(false),
        None => false,
    }
}

/// The tokens that a worker has to prefill: as the request says, or else its whole input, or none
/// where prefill tokens are not tracked.
pub open spec fn prefill_tokens(request: SchedulingRequest, worker: WorkerWithDpRank) -> usize {
    request.prefill_tokens.value_or(
        worker,
        if request.track_prefill_tokens {
            request.isl_tokens
        } else {
            0
        },
    )
}

/// The integers that the score of a worker is made of.
pub open spec fn terms_for<C: WorkerConfigLike>(
    request: SchedulingRequest,
    worker: WorkerWithDpRank,
    config: C,
    block_size: u32,
    overlap_weight: Binary64,
    formula: WorkerSelectionFormula,
) -> ScoreTerms {
    let isl = request.isl_tokens as int;
    let overlap = request.overlaps.scores.value_or(worker, 0) as int;
    let active = request.active_request_counts.value_or(worker, 0) as int;
    match formula {
        WorkerSelectionFormula::OverlapLoad => ScoreTerms::OverlapLoad {
            overlap_weight,
            prefill_tokens: prefill_tokens(request, worker),
            block_size,
            decode_blocks: if request.decode_blocks@.contains_key(worker) {
                Some(request.decode_blocks@[worker])
            } else {
                None
            },
        },
        WorkerSelectionFormula::Lmetric => ScoreTerms::Lmetric {
            new_tokens: super::formula::uncached_tokens(isl, overlap, block_size as int) as usize,
            requests: (active + 1) as usize,
        },
        WorkerSelectionFormula::Vllm => ScoreTerms::Vllm {
            load: super::formula::queue_load(
                active,
                batch_limit(config.sequence_limit()) as int,
            ) as usize,
        },
        WorkerSelectionFormula::Random => ScoreTerms::Random,
        WorkerSelectionFormula::KvAware => ScoreTerms::KvAware {
            miss_blocks: super::formula::excess(
                blocks_for(isl, block_size as int),
                overlap,
            ) as usize,
            overlap_weight,
            running: (active + 1) as usize,
        },
    }
}

/// What the integers of a worker's score are. Under overlap-load the tokens to prefill are those that
/// the request holds for the worker; only where it holds none are they its whole input, or none where
/// prefill tokens are not tracked. The decode blocks are those that the request holds for the worker.
/// The other formulas count the tokens and blocks that the worker does not hold, and the requests that
/// it would serve. The weight is the given one.
pub proof fn law_terms_count_what_the_request_says<C: WorkerConfigLike>(
    request: SchedulingRequest,
    worker: WorkerWithDpRank,
    config: C,
    block_size: u32,
    overlap_weight: Binary64,
    formula: WorkerSelectionFormula,
)
    requires
        can_score(request, worker, config, block_size, formula),
    ensures
        formula == WorkerSelectionFormula::OverlapLoad
            ==> (terms_for(request, worker, config, block_size, overlap_weight,
            formula) matches ScoreTerms::OverlapLoad {
            overlap_weight: weight,
            prefill_tokens,
            block_size: size,
            decode_blocks,
        } && weight == overlap_weight && size == block_size
            && (if request.prefill_tokens@.contains_key(worker) {
            prefill_tokens == request.prefill_tokens@[worker]
        } else if request.track_prefill_tokens {
            prefill_tokens == request.isl_tokens
        } else {
            prefill_tokens == 0
        }) && (if request.decode_blocks@.contains_key(worker) {
            decode_blocks == Some(request.decode_blocks@[worker])
        } else {
            decode_blocks is None
        })),
        formula == WorkerSelectionFormula::Lmetric
            ==> (terms_for(request, worker, config, block_size, overlap_weight,
            formula) matches ScoreTerms::Lmetric {
            new_tokens,
            requests,
        } && requests == request.active_request_counts.value_or(worker, 0) + 1 && (
        if request.isl_tokens >= request.overlaps.scores.value_or(worker, 0) * block_size {
            new_tokens + request.overlaps.scores.value_or(worker, 0) * block_size
                == request.isl_tokens
        } else {
            new_tokens == 0
        })),
        formula == WorkerSelectionFormula::Vllm
            ==> (terms_for(request, worker, config, block_size, overlap_weight,
            formula) matches ScoreTerms::Vllm { load } && load
            == (match config.sequence_limit() {
            Some(limit) if limit <= request.active_request_counts.value_or(worker, 0) => limit + 4 * (
            request.active_request_counts.value_or(worker, 0) + 1 - limit),
            _ => request.active_request_counts.value_or(worker, 0) + 1,
        })),
        formula == WorkerSelectionFormula::Random
            ==> terms_for(request, worker, config, block_size, overlap_weight, formula)
            == ScoreTerms::Random,
        formula == WorkerSelectionFormula::KvAware
            ==> (terms_for(request, worker, config, block_size, overlap_weight,
            formula) matches ScoreTerms::KvAware {
            miss_blocks,
            overlap_weight: weight,
            running,
        } && weight == overlap_weight && running == request.active_request_counts.value_or(worker, 0)
            + 1 && (miss_blocks == 0 || (miss_blocks + request.overlaps.scores.value_or(worker, 0) - 1)
            * block_size < request.isl_tokens) && request.isl_tokens <= (miss_blocks
            + request.overlaps.scores.value_or(worker, 0)) * block_size),
{
    let isl = request.isl_tokens as int;
    let overlap = request.overlaps.scores.value_or(worker, 0) as int;
    let size = block_size as int;
    assert(0 <= overlap * size) by (nonlinear_arith)
        requires
            0 <= overlap,
            0 <= size,
    ;
    if formula == WorkerSelectionFormula::KvAware {
        super::laws::law_blocks_just_suffice(isl as nat, size as nat);
        let blocks = blocks_for(isl, size);
        assert(0 <= blocks <= isl) by (nonlinear_arith)
            requires
                isl <= blocks * size,
                (blocks - 1) * size < isl,
                0 <= isl,
                1 <= size,
        ;
        let miss = super::formula::excess(blocks, overlap);
        assert(isl <= (miss + overlap) * size) by (nonlinear_arith)
            requires
                isl <= blocks * size,
                blocks <= miss + overlap,
                1 <= size,
        ;
        if miss > 0 {
            assert(miss + overlap == blocks);
        }
    }
}

/// Whether the integers that the score of a worker is made of can be counted.
pub open spec fn can_score<C: WorkerConfigLike>(
    request: SchedulingRequest,
    worker: WorkerWithDpRank,
    config: C,
    block_size: u32,
    formula: WorkerSelectionFormula,
) -> bool {
    let active = request.active_request_counts.value_or(worker, 0) as int;
    match formula {
        WorkerSelectionFormula::OverlapLoad => true,
        WorkerSelectionFormula::Lmetric => active < usize::MAX,
        WorkerSelectionFormula::Vllm => active < usize::MAX && super::formula::queue_load(
            active,
            batch_limit(config.sequence_limit()) as int,
        ) <= usize::MAX,
        WorkerSelectionFormula::Random => true,
        WorkerSelectionFormula::KvAware => active < usize::MAX && block_size > 0,
    }
}

/// The number of blocks that a request takes up.
pub fn required_blocks(isl_tokens: usize, block_size: u32) -> (blocks: usize)
    requires
        block_size > 0,
    ensures
        blocks == blocks_for(isl_tokens as int, block_size as int),
        isl_tokens <= blocks * block_size,
        (blocks - 1) * block_size < isl_tokens,
{
    proof {
        super::laws::law_blocks_just_suffice(isl_tokens as nat, block_size as nat);
    }
    let size: usize = block_size as usize;
    let whole: usize = isl_tokens / size;
    let rest: usize = isl_tokens % size;
    proof {
        let tokens = isl_tokens as int;
        let s = size as int;
        vstd::arithmetic::div_mod::lemma_fundamental_div_mod(tokens, s);
        assert(whole <= tokens) by (nonlinear_arith)
            requires
                s >= 1,
                tokens == s * whole + rest,
                rest >= 0,
                whole >= 0,
        ;
        if rest == 0 {
            assert(tokens + s - 1 == whole * s + (s - 1)) by (nonlinear_arith)
                requires
                    tokens == s * whole + rest,
                    rest == 0,
            ;
            vstd::arithmetic::div_mod::lemma_fundamental_div_mod_converse(
                tokens + s - 1,
                s,
                whole as int,
                s - 1,
            );
        } else {
            assert(whole < tokens) by (nonlinear_arith)
                requires
                    s >= 1,
                    tokens == s * whole + rest,
                    rest > 0,
                    whole >= 0,
            ;
            assert(tokens + s - 1 == (whole + 1) * s + (rest - 1)) by (nonlinear_arith)
                requires
                    tokens == s * whole + rest,
            ;
            vstd::arithmetic::div_mod::lemma_fundamental_div_mod_converse(
                tokens + s - 1,
                s,
                whole + 1,
                rest - 1,
            );
        }
    }
    if rest == 0 {
        whole
    } else {
        whole + 1
    }
}

/// Matches the override injected by disaggregated decode routing after prefill completes.
pub fn is_disaggregated_decode_request(request: &SchedulingRequest) -> (matched: bool)
    ensures
        matched == is_disaggregated_decode(*request),
        matched <==> (request.router_config_override matches Some(set) && (
            set.overlap_score_weight matches Some(zero) && (zero.bits == 0 || zero.bits
                == 0x8000_0000_0000_0000)) && set.track_prefill_tokens == Some(false)
                && set.assume_kv_reuse == Some(false)),
{
    match &request.router_config_override {
        Some(set) => {
            let weightless: bool = match set.overlap_score_weight {
                Some(weight) => weight.is_zero(),
                None => false,
            };
            let untracked: bool = match set.track_prefill_tokens {
                Some(tracking) => !tracking,
                None => false,
            };
            let without_reuse: bool = match set.assume_kv_reuse {
                Some(assumed) => !assumed,
                None => false,
            };
            weightless && untracked && without_reuse
        },
        None => false,
    }
}

/// What is known of a worker before its score is computed.
#[derive(Clone, Copy, Debug)]
pub struct WorkerScore {
    pub overlap_blocks: u32,
    pub terms: ScoreTerms,
}

/// Selects workers by one of the formulas of [`WorkerSelectionFormula`].
#[derive(Clone, Copy, Debug)]
pub struct DefaultWorkerSelector {
    pub kv_router_config: KvRouterConfig,
    pub worker_type: &'static str,
    pub worker_selection_formula: WorkerSelectionFormula,
}

impl Default for DefaultWorkerSelector {
    fn default() -> (selector: Self)
        ensures
            selector.kv_router_config.overlap_score_weight.bits == crate::binary64::ONE_BITS,
            selector.kv_router_config.router_temperature.bits == 0,
            selector.worker_type@ == "unknown"@,
            selector.worker_selection_formula == WorkerSelectionFormula::OverlapLoad,
    {
        DefaultWorkerSelector {
            kv_router_config: KvRouterConfig::default(),
            worker_type: "unknown",
            worker_selection_formula: WorkerSelectionFormula::OverlapLoad,
        }
    }
}

impl DefaultWorkerSelector {
    /// The formula in force for a request: a decode worker that continues a disaggregated request
    /// is always scored by overlap-load.
    pub open spec fn formula_for(self, request: SchedulingRequest) -> WorkerSelectionFormula {
        if self.worker_type@ == "decode"@ && is_disaggregated_decode(request) {
            WorkerSelectionFormula::OverlapLoad
        } else {
            self.worker_selection_formula
        }
    }

    /// A selector with the given configuration, or else the default one, and with the formula that
    /// the setting `DYN_ROUTER_WORKER_SELECTION_FORMULA` names, or else overlap-load.
    pub fn new(
        kv_router_config: Option<KvRouterConfig>,
        worker_type: &'static str,
        formula_setting: Option<&str>,
    ) -> (selector: Self)
        ensures
            kv_router_config matches Some(config) ==> selector.kv_router_config == config,
            kv_router_config is None ==> selector.kv_router_config.overlap_score_weight.bits
                == crate::binary64::ONE_BITS && selector.kv_router_config.router_temperature.bits
                == 0,
            selector.worker_type == worker_type,
            selector.worker_selection_formula == (match formula_setting {
                Some(value) => super::formula::formula_of(value@),
                None => WorkerSelectionFormula::OverlapLoad,
            }),
    {
        let kv_router_config: KvRouterConfig = match kv_router_config {
            Some(config) => config,
            None => KvRouterConfig::default(),
        };
        DefaultWorkerSelector {
            kv_router_config,
            worker_type,
            worker_selection_formula: WorkerSelectionFormula::from_setting(formula_setting),
        }
    }

    pub fn effective_formula(&self, request: &SchedulingRequest) -> (formula: WorkerSelectionFormula)
        ensures
            formula == self.formula_for(*request),
            !(request.router_config_override matches Some(set) && (
            set.overlap_score_weight matches Some(zero) && (zero.bits == 0 || zero.bits
                == 0x8000_0000_0000_0000)) && set.track_prefill_tokens == Some(false)
                && set.assume_kv_reuse == Some(false)) ==> formula == self.worker_selection_formula,
            self.worker_type@ != "decode"@ ==> formula == self.worker_selection_formula,
            self.worker_type@ == "decode"@ && (request.router_config_override matches Some(set) && (
            set.overlap_score_weight matches Some(zero) && (zero.bits == 0 || zero.bits
                == 0x8000_0000_0000_0000)) && set.track_prefill_tokens == Some(false)
                && set.assume_kv_reuse == Some(false))
                ==> formula == WorkerSelectionFormula::OverlapLoad,
    {
        if same_text(self.worker_type, "decode") && is_disaggregated_decode_request(request) {
            WorkerSelectionFormula::OverlapLoad
        } else {
            self.worker_selection_formula
        }
    }

    /// The blocks that a worker already holds, and the integers that its score is made of.
    pub fn worker_score<C: WorkerConfigLike>(
        &self,
        request: &SchedulingRequest,
        worker: WorkerWithDpRank,
        config: &C,
        block_size: u32,
        overlap_weight: Binary64,
        formula: WorkerSelectionFormula,
    ) -> (score: WorkerScore)
        requires
            can_score(*request, worker, *config, block_size, formula),
        ensures
            score.overlap_blocks == request.overlaps.scores.value_or(worker, 0),
            score.terms == terms_for(
                *request,
                worker,
                *config,
                block_size,
                overlap_weight,
                formula,
            ),
            request.overlaps.scores@.contains_key(worker) ==> score.overlap_blocks
                == request.overlaps.scores@[worker],
            !request.overlaps.scores@.contains_key(worker) ==> score.overlap_blocks == 0,
            formula == WorkerSelectionFormula::OverlapLoad
                ==> (score.terms matches ScoreTerms::OverlapLoad {
                overlap_weight: weight,
                prefill_tokens,
                block_size: size,
                decode_blocks,
            } && weight == overlap_weight && size == block_size
                && (if request.prefill_tokens@.contains_key(worker) {
                prefill_tokens == request.prefill_tokens@[worker]
            } else if request.track_prefill_tokens {
                prefill_tokens == request.isl_tokens
            } else {
                prefill_tokens == 0
            }) && (if request.decode_blocks@.contains_key(worker) {
                decode_blocks == Some(request.decode_blocks@[worker])
            } else {
                decode_blocks is None
            })),
            formula == WorkerSelectionFormula::Lmetric ==> (score.terms matches ScoreTerms::Lmetric {
                new_tokens,
                requests,
            } && requests == request.active_request_counts.value_or(worker, 0) + 1 && (
            if request.isl_tokens >= request.overlaps.scores.value_or(worker, 0) * block_size {
                new_tokens + request.overlaps.scores.value_or(worker, 0) * block_size
                    == request.isl_tokens
            } else {
                new_tokens == 0
            })),
            formula == WorkerSelectionFormula::Vllm
                ==> (score.terms matches ScoreTerms::Vllm { load } && load
                == (match config.sequence_limit() {
                Some(limit) if limit <= request.active_request_counts.value_or(worker,
                    0) => limit + 4 * (
                request.active_request_counts.value_or(worker, 0) + 1 - limit),
                _ => request.active_request_counts.value_or(worker, 0) + 1,
            })),
            formula == WorkerSelectionFormula::Random ==> score.terms == ScoreTerms::Random,
            formula == WorkerSelectionFormula::KvAware ==> (score.terms matches ScoreTerms::KvAware {
                miss_blocks,
                overlap_weight: weight,
                running,
            } && weight == overlap_weight
                && running == request.active_request_counts.value_or(worker, 0)
                + 1 && (miss_blocks == 0
                    || (miss_blocks + request.overlaps.scores.value_or(worker, 0) - 1)
                * block_size < request.isl_tokens) && request.isl_tokens <= (miss_blocks
                + request.overlaps.scores.value_or(worker, 0)) * block_size),
    {
        proof {
            law_terms_count_what_the_request_says(
                *request,
                worker,
                *config,
                block_size,
                overlap_weight,
                formula,
            );
        }
        let isl: usize = request.isl_tokens;
        let overlap_blocks: u32 = request.overlaps.scores.get_or(&worker, 0);
        let default_prefill_token: usize = if request.track_prefill_tokens {
            isl
        } else {
            0
        };
        let prefill_token: usize = request.prefill_tokens.get_or(&worker, default_prefill_token);
        let active_requests: usize = request.active_request_counts.get_or(&worker, 0);
        let max_batch: usize = usable_limit(config.max_num_seqs());
        let terms: ScoreTerms = match formula {
            WorkerSelectionFormula::OverlapLoad => overlap_load_score(
                overlap_weight,
                prefill_token,
                block_size,
                request.decode_blocks.get(&worker),
            ),
            WorkerSelectionFormula::Lmetric => lmetric_score(
                isl,
                overlap_blocks,
                block_size,
                active_requests,
            ),
            WorkerSelectionFormula::Vllm => vllm_score(active_requests, max_batch).0,
            WorkerSelectionFormula::Random => ScoreTerms::Random,
            WorkerSelectionFormula::KvAware => kv_aware_score(
                required_blocks(isl, block_size),
                overlap_blocks,
                active_requests,
                overlap_weight,
            ),
        };
        WorkerScore { overlap_blocks, terms }
    }
}

/// Whether choosing among the workers with the lowest score can end with `chosen`.
pub open spec fn lowest_outcome(
    request: SchedulingRequest,
    formula: WorkerSelectionFormula,
    lowest: Seq<WorkerWithDpRank>,
    chosen: WorkerWithDpRank,
) -> bool {
    if lowest.len() == 1 {
        chosen == lowest[0]
    } else if formula == WorkerSelectionFormula::KvAware {
        super::tie_break::kv_aware_outcome(lowest, request, chosen)
    } else {
        super::tie_break::tree_size_outcome(lowest, request, chosen)
    }
}

/// The worker with the lowest score, and that score. A tie of the kv-aware formula is broken by the
/// number of requests served, any other by tree size.
pub fn choose_lowest(
    request: &SchedulingRequest,
    formula: WorkerSelectionFormula,
    scored: &Vec<(WorkerWithDpRank, Binary64)>,
) -> (chosen: (WorkerWithDpRank, Binary64))
    requires
        exists|i: int| 0 <= i < scored.len() && !(#[trigger] scored@[i]).1.nan(),
        formula == WorkerSelectionFormula::KvAware ==> forall|i: int|
            0 <= i < scored.len() ==> request.active_request_counts.value_or(
                (#[trigger] scored@[i]).0,
                0,
            ) < usize::MAX,
    ensures
        lowest_outcome(*request, formula, super::lowest::lowest_workers(scored@), chosen.0),
        forall|i: int|
            0 <= i < scored.len() && super::lowest::is_lowest(scored@, (#[trigger] scored@[i]).1)
                ==> chosen.1.num_eq(scored@[i].1),
{
    let lowest: (Vec<WorkerWithDpRank>, Binary64) = lowest_scored(scored);
    proof {
        super::lowest::law_lowest_workers_are_lowest(scored@);
    }
    let min_workers: Vec<WorkerWithDpRank> = lowest.0;
    if min_workers.len() > 1 {
        if formula == WorkerSelectionFormula::KvAware {
            assert forall|k: int| 0 <= k < min_workers.len() implies #[trigger]
                super::tie_break::active_counts(min_workers@, *request)[k] < usize::MAX by {
                assert(super::lowest::lowest_workers(scored@).contains(min_workers@[k]));
            }
            break_kv_aware_tie(&min_workers, request, lowest.1)
        } else {
            break_tied_workers_by_tree_size(&min_workers, request, lowest.1)
        }
    } else {
        (min_workers[0], lowest.1)
    }
}

/// The worker at the place `drawn`: the random formula's choice.
pub fn drawn_worker(scored: &Vec<(WorkerWithDpRank, Binary64)>, drawn: usize) -> (chosen:
    WorkerWithDpRank)
    requires
        drawn < scored.len(),
    ensures
        chosen == scored@[drawn as int].0,
{
    scored[drawn].0
}

/// Whether every outcome of `evaluate` on `terms` is a number.
pub open spec fn gives_number<E: Fn(ScoreTerms) -> Binary64>(evaluate: E, terms: ScoreTerms) -> bool {
    forall|logit: Binary64| #[trigger] call_ensures(evaluate, (terms,), logit) ==> !logit.nan()
}

/// A trait that users can implement to define custom selection logic.
///
/// It is generic over `C` so that the scheduling layer does not depend on a concrete configuration
/// type. The arithmetic on binary64 numbers comes from the caller: `evaluate` turns the integers of
/// a score into the score, `accumulate` turns scores into running sums of probabilities, and
/// `sample` is a draw that is uniform between zero and one.
pub trait WorkerSelector<C: WorkerConfigLike> {
    /// Whether the selector can be asked, where `numeric` says of which integers the score is sure
    /// to be a number.
    spec fn can_select(
        &self,
        workers: Map<WorkerId, C>,
        request: SchedulingRequest,
        block_size: u32,
        numeric: spec_fn(ScoreTerms) -> bool,
    ) -> bool;

    fn select_worker<E: Fn(ScoreTerms) -> Binary64, A: Fn(SoftmaxWeights) -> Vec<Binary64>>(
        &self,
        workers: &HashMap<WorkerId, C>,
        request: &SchedulingRequest,
        block_size: u32,
        sample: Binary64,
        evaluate: &E,
        accumulate: &A,
    ) -> (selected: Result<WorkerSelectionResult, KvSchedulerError>)
        requires
            self.can_select(
                workers@,
                *request,
                block_size,
                |terms: ScoreTerms| gives_number(*evaluate, terms),
            ),
            forall|terms: ScoreTerms| call_requires(*evaluate, (terms,)),
            forall|weights: SoftmaxWeights| call_requires(*accumulate, (weights,)),
    ;
}

impl DefaultWorkerSelector {
    /// The integers that the score of a known worker is made of.
    pub open spec fn terms<C: WorkerConfigLike>(
        self,
        workers: Map<WorkerId, C>,
        request: SchedulingRequest,
        block_size: u32,
        worker: WorkerWithDpRank,
    ) -> ScoreTerms {
        terms_for(
            request,
            worker,
            workers[worker.worker_id],
            block_size,
            self.kv_router_config.weight_for(request.router_config_override),
            self.formula_for(request),
        )
    }

    /// Whether the lowest score wins: at zero temperature, unless workers are picked at random.
    pub open spec fn takes_lowest(self, request: SchedulingRequest) -> bool {
        &&& self.kv_router_config.temperature_for(request.router_config_override).zero()
        &&& self.formula_for(request) != WorkerSelectionFormula::Random
    }

    /// Whether `scored` holds every candidate once, with an outcome of `evaluate` as its score.
    pub open spec fn scores_candidates<C: WorkerConfigLike, E: Fn(ScoreTerms) -> Binary64>(
        self,
        workers: Map<WorkerId, C>,
        request: SchedulingRequest,
        block_size: u32,
        evaluate: E,
        scored: Seq<(WorkerWithDpRank, Binary64)>,
    ) -> bool {
        &&& forall|i: int|
            0 <= i < scored.len() ==> super::candidates::is_candidate(
                workers,
                request,
                (#[trigger] scored[i]).0,
            ) && call_ensures(
                evaluate,
                (self.terms(workers, request, block_size, scored[i].0),),
                scored[i].1,
            )
        &&& forall|worker: WorkerWithDpRank| #[trigger]
            super::candidates::is_candidate(workers, request, worker) ==> exists|i: int|
                0 <= i < scored.len() && (#[trigger] scored[i]).0 == worker
        &&& forall|i: int, j: int|
            0 <= i < j < scored.len() ==> (#[trigger] scored[i]).0 != (#[trigger] scored[j]).0
    }

    /// Whether the selection among `scored` can end with the worker `chosen`.
    pub open spec fn can_choose<A: Fn(SoftmaxWeights) -> Vec<Binary64>>(
        self,
        request: SchedulingRequest,
        scored: Seq<(WorkerWithDpRank, Binary64)>,
        sample: Binary64,
        accumulate: A,
        chosen: WorkerWithDpRank,
    ) -> bool {
        let formula = self.formula_for(request);
        if self.takes_lowest(request) {
            lowest_outcome(request, formula, super::lowest::lowest_workers(scored), chosen)
        } else if formula == WorkerSelectionFormula::Random {
            exists|i: int| 0 <= i < scored.len() && (#[trigger] scored[i]).0 == chosen
        } else {
            exists|logit: Binary64| #[trigger]
                super::softmax::drawn_from(
                    scored,
                    self.kv_router_config.temperature_for(request.router_config_override),
                    sample,
                    accumulate,
                    (chosen, logit),
                )
        }
    }

    /// Whether `selected` is what a selection can return.
    pub open spec fn can_return<
        C: WorkerConfigLike,
        E: Fn(ScoreTerms) -> Binary64,
        A: Fn(SoftmaxWeights) -> Vec<Binary64>,
    >(
        self,
        workers: Map<WorkerId, C>,
        request: SchedulingRequest,
        block_size: u32,
        sample: Binary64,
        evaluate: E,
        accumulate: A,
        selected: Result<WorkerSelectionResult, KvSchedulerError>,
    ) -> bool {
        let blocks = blocks_for(request.isl_tokens as int, block_size as int);
        match request.pinned_worker {
            Some(worker) => if !request.allows(worker.worker_id) {
                selected == Err::<WorkerSelectionResult, KvSchedulerError>(
                    KvSchedulerError::PinnedWorkerNotAllowed { worker_id: worker.worker_id },
                )
            } else if !super::types::is_known(workers, worker) {
                selected == Err::<WorkerSelectionResult, KvSchedulerError>(
                    KvSchedulerError::NoEndpoints,
                )
            } else {
                selected matches Ok(result) && result.worker == worker && result.required_blocks
                    == blocks && result.overlap_blocks == request.overlaps.scores.value_or(
                    worker,
                    0,
                )
            },
            None => if super::candidates::none_allowed(workers, request) {
                selected == Err::<WorkerSelectionResult, KvSchedulerError>(
                    KvSchedulerError::NoEndpoints,
                )
            } else {
                selected matches Ok(result) && result.required_blocks == blocks
                    && result.overlap_blocks == request.overlaps.scores.value_or(result.worker, 0)
                    && exists|scored: Seq<(WorkerWithDpRank, Binary64)>| #[trigger]
                    self.scores_candidates(workers, request, block_size, evaluate, scored)
                        && self.can_choose(request, scored, sample, accumulate, result.worker)
            },
        }
    }

    /// Scores stay scores of the candidates in whatever order they are listed.
    proof fn lemma_scores_in_any_order<C: WorkerConfigLike, E: Fn(ScoreTerms) -> Binary64>(
        self,
        workers: Map<WorkerId, C>,
        request: SchedulingRequest,
        block_size: u32,
        evaluate: E,
        scored: Seq<(WorkerWithDpRank, Binary64)>,
        reordered: Seq<(WorkerWithDpRank, Binary64)>,
        logits: Map<WorkerWithDpRank, Binary64>,
    )
        requires
            self.scores_candidates(workers, request, block_size, evaluate, scored),
            super::workers::lists(scored, logits),
            super::workers::lists(reordered, logits),
        ensures
            self.scores_candidates(workers, request, block_size, evaluate, reordered),
    {
        assert forall|i: int| 0 <= i < reordered.len() implies super::candidates::is_candidate(
            workers,
            request,
            (#[trigger] reordered[i]).0,
        ) && call_ensures(
            evaluate,
            (self.terms(workers, request, block_size, reordered[i].0),),
            reordered[i].1,
        ) by {
            let worker = reordered[i].0;
            assert(scored.contains((worker, logits[worker])));
            let j = choose|j: int| 0 <= j < scored.len() && scored[j] == (worker, logits[worker]);
            assert(scored[j] == reordered[i]);
        }
        assert forall|worker: WorkerWithDpRank| #[trigger]
            super::candidates::is_candidate(workers, request, worker) implies exists|i: int|
            0 <= i < reordered.len() && (#[trigger] reordered[i]).0 == worker by {
            let j = choose|j: int| 0 <= j < scored.len() && (#[trigger] scored[j]).0 == worker;
            assert(logits.contains_key(scored[j].0));
            assert(reordered.contains((worker, logits[worker])));
            let i = choose|i: int|
                0 <= i < reordered.len() && reordered[i] == (worker, logits[worker]);
            assert(reordered[i].0 == worker);
        }
    }

    /// Scores every candidate.
    fn score_candidates<C: WorkerConfigLike, E: Fn(ScoreTerms) -> Binary64>(
        &self,
        workers: &HashMap<WorkerId, C>,
        request: &SchedulingRequest,
        block_size: u32,
        evaluate: &E,
    ) -> (scored: Vec<(WorkerWithDpRank, Binary64)>)
        requires
            super::candidates::ranks_fit(workers@, *request),
            forall|worker: WorkerWithDpRank| #[trigger]
                super::candidates::is_candidate(workers@, *request, worker) ==> can_score(
                    *request,
                    worker,
                    workers@[worker.worker_id],
                    block_size,
                    self.formula_for(*request),
                ),
            forall|terms: ScoreTerms| call_requires(*evaluate, (terms,)),
        ensures
            self.scores_candidates(workers@, *request, block_size, *evaluate, scored@),
    {
        let formula: WorkerSelectionFormula = self.effective_formula(request);
        let overlap_weight: Binary64 = self.kv_router_config.overlap_weight(
            &request.router_config_override,
        );
        let candidates: Vec<WorkerWithDpRank> = list_candidates(workers, request);
        let mut scored: Vec<(WorkerWithDpRank, Binary64)> = Vec::new();
        let mut i: usize = 0;
        while i < candidates.len()
            invariant
                i <= candidates.len(),
                formula == self.formula_for(*request),
                overlap_weight == self.kv_router_config.weight_for(request.router_config_override),
                forall|worker: WorkerWithDpRank| #[trigger]
                    super::candidates::is_candidate(workers@, *request, worker) ==> can_score(
                        *request,
                        worker,
                        workers@[worker.worker_id],
                        block_size,
                        self.formula_for(*request),
                    ),
                forall|worker: WorkerWithDpRank| #[trigger]
                    candidates@.contains(worker) <==> super::candidates::is_candidate(
                        workers@,
                        *request,
                        worker,
                    ),
                forall|terms: ScoreTerms| call_requires(*evaluate, (terms,)),
                scored.len() == i,
                forall|j: int|
                    0 <= j < i ==> (#[trigger] scored@[j]).0 == candidates@[j] && call_ensures(
                        *evaluate,
                        (self.terms(workers@, *request, block_size, scored@[j].0),),
                        scored@[j].1,
                    ),
            decreases candidates.len() - i,
        {
            let worker: WorkerWithDpRank = candidates[i];
            assert(candidates@.contains(worker));
            match workers.get(&worker.worker_id) {
                Some(config) => {
                    let score: WorkerScore = self.worker_score(
                        request,
                        worker,
                        config,
                        block_size,
                        overlap_weight,
                        formula,
                    );
                    scored.push((worker, evaluate(score.terms)));
                },
                None => {
                    assert(false);
                },
            }
            i = i + 1;
        }
        proof {
            assert forall|j: int| 0 <= j < scored@.len() implies super::candidates::is_candidate(
                workers@,
                *request,
                (#[trigger] scored@[j]).0,
            ) by {
                assert(candidates@.contains(candidates@[j]));
            }
            assert forall|worker: WorkerWithDpRank| #[trigger]
                super::candidates::is_candidate(workers@, *request, worker) implies exists|j: int|
                0 <= j < scored@.len() && (#[trigger] scored@[j]).0 == worker by {
                assert(candidates@.contains(worker));
                let j = choose|j: int| 0 <= j < candidates@.len() && candidates@[j] == worker;
                assert(scored@[j].0 == worker);
            }
        }
        scored
    }
}

/// Whether the integers that the score of a worker is made of can be counted.
fn is_scorable<C: WorkerConfigLike>(
    request: &SchedulingRequest,
    worker: WorkerWithDpRank,
    config: &C,
    block_size: u32,
    formula: WorkerSelectionFormula,
) -> (scorable: bool)
    ensures
        scorable == can_score(*request, worker, *config, block_size, formula),
{
    let active: usize = request.active_request_counts.get_or(&worker, 0);
    match formula {
        WorkerSelectionFormula::OverlapLoad => true,
        WorkerSelectionFormula::Lmetric => active < usize::MAX,
        WorkerSelectionFormula::Vllm => {
            let limit: usize = usable_limit(config.max_num_seqs());
            if active == usize::MAX {
                false
            } else if active + 1 <= limit {
                true
            } else {
                let load: u128 = (active + 1 - limit) as u128 * 4 + limit as u128;
                load <= usize::MAX as u128
            }
        },
        WorkerSelectionFormula::Random => true,
        WorkerSelectionFormula::KvAware => active < usize::MAX && block_size > 0,
    }
}

/// How many sequences a worker runs at once, where `usize` can count them.
pub fn usable_limit(limit: Option<u64>) -> (batch: usize)
    ensures
        batch == batch_limit(limit),
        limit matches Some(most) ==> (most <= usize::MAX ==> batch == most) && (most > usize::MAX
            ==> batch == usize::MAX),
        limit is None ==> batch == usize::MAX,
{
    match limit {
        Some(limit) => if limit <= usize::MAX as u64 {
            limit as usize
        } else {
            usize::MAX
        },
        None => usize::MAX,
    }
}

impl DefaultWorkerSelector {
    /// Whether the selector can be asked, provided that scores are numbers.
    pub fn is_selectable<C: WorkerConfigLike>(
        &self,
        workers: &HashMap<WorkerId, C>,
        request: &SchedulingRequest,
        block_size: u32,
    ) -> (selectable: bool)
        ensures
            selectable == self.can_select(
                workers@,
                *request,
                block_size,
                |terms: ScoreTerms| true,
            ),
    {
        let formula: WorkerSelectionFormula = self.effective_formula(request);
        if request.isl_tokens == 0 {
            return false;
        }
        if let Some(worker) = request.pinned_worker {
            if !request.is_allowed(worker.worker_id) {
                return true;
            }
            return block_size > 0 && match pinned_worker_config(workers, worker) {
                Ok(config) => is_scorable(request, worker, config, block_size, formula),
                Err(_) => true,
            };
        }
        if has_no_endpoints(workers, request) {
            return true;
        }
        if block_size == 0 || !do_ranks_fit(workers, request) {
            return false;
        }
        let candidates: Vec<WorkerWithDpRank> = list_candidates(workers, request);
        let mut i: usize = 0;
        while i < candidates.len()
            invariant
                i <= candidates.len(),
                formula == self.formula_for(*request),
                request.pinned_worker is None,
                !super::candidates::none_allowed(workers@, *request),
                forall|worker: WorkerWithDpRank| #[trigger]
                    candidates@.contains(worker) <==> super::candidates::is_candidate(
                        workers@,
                        *request,
                        worker,
                    ),
                forall|j: int|
                    0 <= j < i ==> can_score(
                        *request,
                        #[trigger] candidates@[j],
                        workers@[candidates@[j].worker_id],
                        block_size,
                        formula,
                    ),
            decreases candidates.len() - i,
        {
            let worker: WorkerWithDpRank = candidates[i];
            assert(candidates@.contains(worker));
            match workers.get(&worker.worker_id) {
                Some(config) => {
                    if !is_scorable(request, worker, config, block_size, formula) {
                        return false;
                    }
                },
                None => {},
            }
            i = i + 1;
        }
        proof {
            assert forall|worker: WorkerWithDpRank| #[trigger]
                super::candidates::is_candidate(workers@, *request, worker) implies can_score(
                *request,
                worker,
                workers@[worker.worker_id],
                block_size,
                formula,
            ) by {
                assert(candidates@.contains(worker));
                let j = choose|j: int| 0 <= j < candidates@.len() && candidates@[j] == worker;
                assert(can_score(
                    *request,
                    candidates@[j],
                    workers@[candidates@[j].worker_id],
                    block_size,
                    formula,
                ));
            }
            if candidates@.len() > 0 {
                assert(candidates@.contains(candidates@[0]));
                assert(super::candidates::is_candidate(workers@, *request, candidates@[0]));
            } else {
                assert forall|worker: WorkerWithDpRank| !#[trigger] super::candidates::is_candidate(
                    workers@,
                    *request,
                    worker,
                ) by {
                    assert(!candidates@.contains(worker));
                }
            }
        }
        candidates.len() > 0
    }
}

impl<C: WorkerConfigLike> WorkerSelector<C> for DefaultWorkerSelector {
    /// The input is not empty, and where the selection gets as far as scoring: the blocks have a
    /// size, the integers of the scores can be counted, and there is a worker to choose. Where the
    /// lowest score wins, some score has to be a number.
    open spec fn can_select(
        &self,
        workers: Map<WorkerId, C>,
        request: SchedulingRequest,
        block_size: u32,
        numeric: spec_fn(ScoreTerms) -> bool,
    ) -> bool {
        &&& request.isl_tokens > 0
        &&& match request.pinned_worker {
            Some(worker) => request.allows(worker.worker_id) ==> {
                &&& block_size > 0
                &&& super::types::is_known(workers, worker) ==> can_score(
                    request,
                    worker,
                    workers[worker.worker_id],
                    block_size,
                    self.formula_for(request),
                )
            },
            None => !super::candidates::none_allowed(workers, request) ==> {
                &&& block_size > 0
                &&& super::candidates::ranks_fit(workers, request)
                &&& forall|worker: WorkerWithDpRank| #[trigger]
                    super::candidates::is_candidate(workers, request, worker) ==> can_score(
                        request,
                        worker,
                        workers[worker.worker_id],
                        block_size,
                        self.formula_for(request),
                    )
                &&& exists|worker: WorkerWithDpRank| #[trigger]
                    super::candidates::is_candidate(workers, request, worker) && (
                    self.takes_lowest(request) ==> numeric(
                        self.terms(workers, request, block_size, worker),
                    ))
            },
        }
    }

    fn select_worker<E: Fn(ScoreTerms) -> Binary64, A: Fn(SoftmaxWeights) -> Vec<Binary64>>(
        &self,
        workers: &HashMap<WorkerId, C>,
        request: &SchedulingRequest,
        block_size: u32,
        sample: Binary64,
        evaluate: &E,
        accumulate: &A,
    ) -> (selected: Result<WorkerSelectionResult, KvSchedulerError>)
        ensures
            self.can_return(
                workers@,
                *request,
                block_size,
                sample,
                *evaluate,
                *accumulate,
                selected,
            ),
    {
        match request.validate_worker_constraints() {
            Err(error) => {
                return Err(error);
            },
            Ok(()) => {},
        }
        if request.pinned_worker.is_none() && has_no_endpoints(workers, request) {
            return Err(KvSchedulerError::NoEndpoints);
        }
        let request_blocks: usize = required_blocks(request.isl_tokens, block_size);
        let formula: WorkerSelectionFormula = self.effective_formula(request);
        if let Some(worker) = request.pinned_worker {
            return match pinned_worker_config(workers, worker) {
                Ok(config) => {
                    let overlap_weight: Binary64 = self.kv_router_config.overlap_weight(
                        &request.router_config_override,
                    );
                    let score: WorkerScore = self.worker_score(
                        request,
                        worker,
                        config,
                        block_size,
                        overlap_weight,
                        formula,
                    );
                    Ok(
                        WorkerSelectionResult {
                            worker,
                            required_blocks: request_blocks as u64,
                            overlap_blocks: score.overlap_blocks,
                        },
                    )
                },
                Err(error) => Err(error),
            };
        }
        let temperature: Binary64 = self.kv_router_config.temperature(
            &request.router_config_override,
        );
        let scored: Vec<(WorkerWithDpRank, Binary64)> = self.score_candidates(
            workers,
            request,
            block_size,
            evaluate,
        );
        proof {
            let able = choose|worker: WorkerWithDpRank| #[trigger]
                super::candidates::is_candidate(workers@, *request, worker) && (self.takes_lowest(
                    *request,
                ) ==> gives_number(
                    *evaluate,
                    self.terms(workers@, *request, block_size, worker),
                ));
            assert(super::candidates::is_candidate(workers@, *request, able));
            let i = choose|i: int| 0 <= i < scored@.len() && (#[trigger] scored@[i]).0 == able;
            assert(scored@[i].0 == able);
        }
        let best_worker: WorkerWithDpRank = if temperature.is_zero() && formula
            != WorkerSelectionFormula::Random {
            choose_lowest(request, formula, &scored).0
        } else if formula == WorkerSelectionFormula::Random {
            let best: WorkerWithDpRank = drawn_worker(&scored, random_index(scored.len()));
            assert(self.can_choose(*request, scored@, sample, *accumulate, best));
            best
        } else {
            let worker_logits: WorkerMap<Binary64> = file_scores(&scored);
            let best: (WorkerWithDpRank, Binary64) = softmax_sample_with_sample(
                &worker_logits,
                temperature,
                sample,
                accumulate,
            );
            proof {
                let entries = choose|entries: Seq<(WorkerWithDpRank, Binary64)>| #[trigger]
                    super::workers::lists(entries, worker_logits@) && super::softmax::drawn_from(
                        entries,
                        temperature,
                        sample,
                        *accumulate,
                        best,
                    );
                self.lemma_scores_in_any_order(
                    workers@,
                    *request,
                    block_size,
                    *evaluate,
                    scored@,
                    entries,
                    worker_logits@,
                );
                assert(super::softmax::drawn_from(
                    entries,
                    temperature,
                    sample,
                    *accumulate,
                    (best.0, best.1),
                ));
                assert(self.can_choose(*request, entries, sample, *accumulate, best.0));
            }
            best.0
        };
        Ok(
            WorkerSelectionResult {
                worker: best_worker,
                required_blocks: request_blocks as u64,
                overlap_blocks: request.overlaps.scores.get_or(&best_worker, 0),
            },
        )
    }
}

/// Files every score under its worker.
fn file_scores(scored: &Vec<(WorkerWithDpRank, Binary64)>) -> (logits: WorkerMap<Binary64>)
    requires
        forall|i: int, j: int|
            0 <= i < j < scored.len() ==> (#[trigger] scored@[i]).0 != (#[trigger] scored@[j]).0,
    ensures
        super::workers::lists(scored@, logits@),
{
    let mut logits: WorkerMap<Binary64> = WorkerMap::new();
    let mut i: usize = 0;
    while i < scored.len()
        invariant
            i <= scored.len(),
            forall|i: int, j: int|
                0 <= i < j < scored.len() ==> (#[trigger] scored@[i]).0 != (#[trigger] scored@[j]).0,
            forall|j: int|
                0 <= j < i ==> logits@.contains_key((#[trigger] scored@[j]).0)
                    && logits@[scored@[j].0] == scored@[j].1,
            forall|worker: WorkerWithDpRank| #[trigger]
                logits@.contains_key(worker) ==> exists|j: int|
                    0 <= j < i && (#[trigger] scored@[j]).0 == worker,
        decreases scored.len() - i,
    {
        let ghost before = logits@;
        logits.insert(scored[i].0, scored[i].1);
        assert forall|worker: WorkerWithDpRank| #[trigger] logits@.contains_key(worker) implies exists|
            j: int,
        | 0 <= j < i + 1 && (#[trigger] scored@[j]).0 == worker by {
            if before.contains_key(worker) {
                let j = choose|j: int| 0 <= j < i && (#[trigger] scored@[j]).0 == worker;
                assert(scored@[j].0 == worker);
            } else {
                assert(scored@[i as int].0 == worker);
            }
        }
        i = i + 1;
    }
    assert forall|worker: WorkerWithDpRank| #[trigger]
        logits@.contains_key(worker) implies scored@.contains((worker, logits@[worker])) by {
        let j = choose|j: int| 0 <= j < scored@.len() && (#[trigger] scored@[j]).0 == worker;
        assert(scored@[j] == (worker, logits@[worker]));
    }
    logits
}

} // verus!
