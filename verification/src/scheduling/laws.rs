//! What holds of every selection.

use super::formula::{ScoreTerms, WorkerSelectionFormula};
use super::selector::{DefaultWorkerSelector, WorkerSelector};
use super::softmax::SoftmaxWeights;
use super::types::{KvSchedulerError, SchedulingRequest, WorkerConfigLike, WorkerSelectionResult};
use super::workers::{WorkerId, WorkerWithDpRank};
use crate::binary64::Binary64;
use vstd::prelude::*;

verus! {

/// The blocks of a request hold all its tokens, and one block less would not.
pub proof fn law_blocks_just_suffice(tokens: nat, block_size: nat)
    requires
        block_size > 0,
    ensures
        tokens <= super::selector::blocks_for(tokens as int, block_size as int) * block_size,
        (super::selector::blocks_for(tokens as int, block_size as int) - 1) * block_size < tokens,
{
    let s = block_size as int;
    let n = tokens + s - 1;
    let blocks = n / s;
    vstd::arithmetic::div_mod::lemma_fundamental_div_mod(n, s);
    assert(n == s * blocks + n % s);
    assert(0 <= n % s < s);
    assert(tokens <= blocks * s) by (nonlinear_arith)
        requires
            tokens + s - 1 == s * blocks + n % s,
            n % s < s,
    ;
    assert((blocks - 1) * s < tokens) by (nonlinear_arith)
        requires
            tokens + s - 1 == s * blocks + n % s,
            0 <= n % s,
    ;
}

/// A selected worker is there, has the selected rank, and is allowed by the request.
pub proof fn law_selected_worker_is_candidate<
    C: WorkerConfigLike,
    E: Fn(ScoreTerms) -> Binary64,
    A: Fn(SoftmaxWeights) -> Vec<Binary64>,
>(
    selector: DefaultWorkerSelector,
    workers: Map<WorkerId, C>,
    request: SchedulingRequest,
    block_size: u32,
    sample: Binary64,
    evaluate: E,
    accumulate: A,
    result: WorkerSelectionResult,
)
    requires
        selector.can_return(
            workers,
            request,
            block_size,
            sample,
            evaluate,
            accumulate,
            Ok::<WorkerSelectionResult, KvSchedulerError>(result),
        ),
    ensures
        super::candidates::is_candidate(workers, request, result.worker),
{
    if request.pinned_worker is None {
        let scored = choose|scored: Seq<(WorkerWithDpRank, Binary64)>| #[trigger]
            selector.scores_candidates(workers, request, block_size, evaluate, scored)
                && selector.can_choose(request, scored, sample, accumulate, result.worker);
        if selector.takes_lowest(request) {
            lemma_lowest_outcome(
                request,
                selector.formula_for(request),
                scored,
                result.worker,
            );
        } else if selector.formula_for(request) != WorkerSelectionFormula::Random {
            let temperature = selector.kv_router_config.temperature_for(
                request.router_config_override,
            );
            let logit = choose|logit: Binary64| #[trigger]
                super::softmax::drawn_from(
                    scored,
                    temperature,
                    sample,
                    accumulate,
                    (result.worker, logit),
                );
            super::softmax::law_draw_is_an_entry(
                scored,
                temperature,
                sample,
                accumulate,
                (result.worker, logit),
            );
        }
        let i = choose|i: int| 0 <= i < scored.len() && (#[trigger] scored[i]).0 == result.worker;
        assert(super::candidates::is_candidate(workers, request, scored[i].0));
    }
}

/// Who wins among the lowest scores: a worker with a lowest score; where its tie was broken, none of
/// the tied workers comes before it.
proof fn lemma_lowest_outcome(
    request: SchedulingRequest,
    formula: WorkerSelectionFormula,
    scored: Seq<(WorkerWithDpRank, Binary64)>,
    chosen: WorkerWithDpRank,
)
    requires
        super::selector::lowest_outcome(
            request,
            formula,
            super::lowest::lowest_workers(scored),
            chosen,
        ),
    ensures
        exists|i: int|
            0 <= i < scored.len() && (#[trigger] scored[i]).0 == chosen && super::lowest::is_lowest(
                scored,
                scored[i].1,
            ),
        forall|j: int|
            0 <= j < scored.len() && super::lowest::is_lowest(scored, (#[trigger] scored[j]).1)
                ==> wins_tie(request, formula, chosen, scored[j].0),
{
    let lowest = super::lowest::lowest_workers(scored);
    super::lowest::law_lowest_workers_are_lowest(scored);
    if lowest.len() == 1 {
        assert(lowest.contains(lowest[0]));
    } else if formula == WorkerSelectionFormula::KvAware {
        super::tie_break::law_kv_aware_tie_goes_to_least_busy(lowest, request, chosen);
    } else {
        super::tie_break::law_tie_goes_to_smallest_tree(lowest, request, chosen);
    }
    assert(lowest.contains(chosen));
    assert forall|j: int|
        0 <= j < scored.len() && super::lowest::is_lowest(
            scored,
            (#[trigger] scored[j]).1,
        ) implies wins_tie(request, formula, chosen, scored[j].0) by {
        assert(lowest.contains(scored[j].0));
    }
}

/// Whether `chosen` may win a tie with `other`: under the kv-aware formula by serving fewer requests
/// or else by a tree that is no larger, under any other by the tree alone.
pub open spec fn wins_tie(
    request: SchedulingRequest,
    formula: WorkerSelectionFormula,
    chosen: WorkerWithDpRank,
    other: WorkerWithDpRank,
) -> bool {
    let mine = request.active_request_counts.value_or(chosen, 0);
    let theirs = request.active_request_counts.value_or(other, 0);
    let no_larger = request.overlaps.tree_sizes.value_or(chosen, 0)
        <= request.overlaps.tree_sizes.value_or(other, 0);
    if formula == WorkerSelectionFormula::KvAware {
        mine < theirs || (mine == theirs && no_larger)
    } else {
        no_larger
    }
}

/// Where the lowest score wins and the scores are a function of their integers, no candidate's score
/// is below the selected worker's, and the selected worker wins the tie with every candidate of the
/// same score.
pub proof fn law_lowest_score_wins<
    C: WorkerConfigLike,
    E: Fn(ScoreTerms) -> Binary64,
    A: Fn(SoftmaxWeights) -> Vec<Binary64>,
>(
    selector: DefaultWorkerSelector,
    workers: Map<WorkerId, C>,
    request: SchedulingRequest,
    block_size: u32,
    sample: Binary64,
    evaluate: E,
    accumulate: A,
    score: spec_fn(ScoreTerms) -> Binary64,
    result: WorkerSelectionResult,
    other: WorkerWithDpRank,
)
    requires
        selector.can_return(
            workers,
            request,
            block_size,
            sample,
            evaluate,
            accumulate,
            Ok::<WorkerSelectionResult, KvSchedulerError>(result),
        ),
        request.pinned_worker is None,
        selector.takes_lowest(request),
        forall|terms: ScoreTerms, logit: Binary64| #[trigger]
            call_ensures(evaluate, (terms,), logit) ==> logit == score(terms),
        super::candidates::is_candidate(workers, request, other),
    ensures
        !score(selector.terms(workers, request, block_size, result.worker)).nan(),
        !score(selector.terms(workers, request, block_size, other)).num_lt(
            score(selector.terms(workers, request, block_size, result.worker)),
        ),
        score(selector.terms(workers, request, block_size, other)).num_eq(
            score(selector.terms(workers, request, block_size, result.worker)),
        ) ==> wins_tie(request, selector.formula_for(request), result.worker, other),
{
    let scored = choose|scored: Seq<(WorkerWithDpRank, Binary64)>| #[trigger]
        selector.scores_candidates(workers, request, block_size, evaluate, scored)
            && selector.can_choose(request, scored, sample, accumulate, result.worker);
    lemma_lowest_outcome(request, selector.formula_for(request), scored, result.worker);
    let i = choose|i: int|
        0 <= i < scored.len() && (#[trigger] scored[i]).0 == result.worker
            && super::lowest::is_lowest(scored, scored[i].1);
    assert(scored[i].1 == score(selector.terms(workers, request, block_size, scored[i].0)));
    let j = choose|j: int| 0 <= j < scored.len() && (#[trigger] scored[j]).0 == other;
    assert(scored[j].1 == score(selector.terms(workers, request, block_size, scored[j].0)));
    assert(!scored[j].1.num_lt(scored[i].1));
    if scored[j].1.num_eq(scored[i].1) {
        assert forall|k: int| 0 <= k < scored.len() implies !(#[trigger] scored[k]).1.num_lt(
            scored[j].1,
        ) by {
            assert(!scored[k].1.num_lt(scored[i].1));
        }
        assert(super::lowest::is_lowest(scored, scored[j].1));
    }
}

/// What a selection can return depends on the selector only through its configuration and the formula
/// in force.
proof fn lemma_same_formula_same_selection<
    C: WorkerConfigLike,
    E: Fn(ScoreTerms) -> Binary64,
    A: Fn(SoftmaxWeights) -> Vec<Binary64>,
>(
    first: DefaultWorkerSelector,
    second: DefaultWorkerSelector,
    workers: Map<WorkerId, C>,
    request: SchedulingRequest,
    block_size: u32,
    sample: Binary64,
    evaluate: E,
    accumulate: A,
    selected: Result<WorkerSelectionResult, KvSchedulerError>,
)
    requires
        first.kv_router_config == second.kv_router_config,
        first.formula_for(request) == second.formula_for(request),
        first.can_return(workers, request, block_size, sample, evaluate, accumulate, selected),
    ensures
        second.can_return(workers, request, block_size, sample, evaluate, accumulate, selected),
{
    if request.pinned_worker is None && !super::candidates::none_allowed(workers, request) {
        let chosen = selected->Ok_0.worker;
        let scored = choose|scored: Seq<(WorkerWithDpRank, Binary64)>| #[trigger]
            first.scores_candidates(workers, request, block_size, evaluate, scored)
                && first.can_choose(request, scored, sample, accumulate, chosen);
        assert(second.scores_candidates(workers, request, block_size, evaluate, scored)) by {
            assert forall|worker: WorkerWithDpRank| #[trigger]
                second.terms(workers, request, block_size, worker) == first.terms(
                    workers,
                    request,
                    block_size,
                    worker,
                ) by {}
        }
        assert(second.can_choose(request, scored, sample, accumulate, chosen));
    }
}

/// A decode worker that continues a disaggregated request is selected by overlap-load: whatever
/// formula the selector is set to, the same selections are possible.
pub proof fn law_disaggregated_decode_uses_overlap_load<
    C: WorkerConfigLike,
    E: Fn(ScoreTerms) -> Binary64,
    A: Fn(SoftmaxWeights) -> Vec<Binary64>,
>(
    selector: DefaultWorkerSelector,
    formula: WorkerSelectionFormula,
    workers: Map<WorkerId, C>,
    request: SchedulingRequest,
    block_size: u32,
    sample: Binary64,
    evaluate: E,
    accumulate: A,
    selected: Result<WorkerSelectionResult, KvSchedulerError>,
)
    requires
        selector.worker_type@ == "decode"@,
        super::selector::is_disaggregated_decode(request),
    ensures
        selector.formula_for(request) == WorkerSelectionFormula::OverlapLoad,
        ({
            let other = DefaultWorkerSelector { worker_selection_formula: formula, ..selector };
            selector.can_return(
                workers,
                request,
                block_size,
                sample,
                evaluate,
                accumulate,
                selected,
            ) <==> other.can_return(
                workers,
                request,
                block_size,
                sample,
                evaluate,
                accumulate,
                selected,
            )
        }),
{
    let other = DefaultWorkerSelector { worker_selection_formula: formula, ..selector };
    if selector.can_return(workers, request, block_size, sample, evaluate, accumulate, selected) {
        lemma_same_formula_same_selection(
            selector,
            other,
            workers,
            request,
            block_size,
            sample,
            evaluate,
            accumulate,
            selected,
        );
    }
    if other.can_return(workers, request, block_size, sample, evaluate, accumulate, selected) {
        lemma_same_formula_same_selection(
            other,
            selector,
            workers,
            request,
            block_size,
            sample,
            evaluate,
            accumulate,
            selected,
        );
    }
}

/// A selection fails exactly where the request pins a worker that it does not allow or that is not
/// there, or where it pins none and no worker process that it allows is there.
pub proof fn law_when_selection_fails<
    C: WorkerConfigLike,
    E: Fn(ScoreTerms) -> Binary64,
    A: Fn(SoftmaxWeights) -> Vec<Binary64>,
>(
    selector: DefaultWorkerSelector,
    workers: Map<WorkerId, C>,
    request: SchedulingRequest,
    block_size: u32,
    sample: Binary64,
    evaluate: E,
    accumulate: A,
    selected: Result<WorkerSelectionResult, KvSchedulerError>,
)
    requires
        selector.can_return(workers, request, block_size, sample, evaluate, accumulate, selected),
    ensures
        selected is Err <==> (match request.pinned_worker {
            Some(worker) => !super::candidates::is_candidate(workers, request, worker),
            None => super::candidates::none_allowed(workers, request),
        }),
{
}

/// For a request that pins a worker the outcome depends on nothing but the request, the workers and
/// the block size: neither on scores nor on chance, nor on the selector.
pub proof fn law_pinned_selection_is_determined<
    C: WorkerConfigLike,
    E1: Fn(ScoreTerms) -> Binary64,
    E2: Fn(ScoreTerms) -> Binary64,
    A1: Fn(SoftmaxWeights) -> Vec<Binary64>,
    A2: Fn(SoftmaxWeights) -> Vec<Binary64>,
>(
    first: DefaultWorkerSelector,
    second: DefaultWorkerSelector,
    workers: Map<WorkerId, C>,
    request: SchedulingRequest,
    block_size: u32,
    first_sample: Binary64,
    second_sample: Binary64,
    first_evaluate: E1,
    second_evaluate: E2,
    first_accumulate: A1,
    second_accumulate: A2,
    a: Result<WorkerSelectionResult, KvSchedulerError>,
    b: Result<WorkerSelectionResult, KvSchedulerError>,
)
    requires
        request.pinned_worker is Some,
        first.can_return(
            workers,
            request,
            block_size,
            first_sample,
            first_evaluate,
            first_accumulate,
            a,
        ),
        second.can_return(
            workers,
            request,
            block_size,
            second_sample,
            second_evaluate,
            second_accumulate,
            b,
        ),
    ensures
        a == b,
{
}

/// The only candidate is always the one selected.
pub proof fn law_only_candidate_is_selected<
    C: WorkerConfigLike,
    E: Fn(ScoreTerms) -> Binary64,
    A: Fn(SoftmaxWeights) -> Vec<Binary64>,
>(
    selector: DefaultWorkerSelector,
    workers: Map<WorkerId, C>,
    request: SchedulingRequest,
    block_size: u32,
    sample: Binary64,
    evaluate: E,
    accumulate: A,
    result: WorkerSelectionResult,
    only: WorkerWithDpRank,
)
    requires
        selector.can_return(
            workers,
            request,
            block_size,
            sample,
            evaluate,
            accumulate,
            Ok::<WorkerSelectionResult, KvSchedulerError>(result),
        ),
        forall|worker: WorkerWithDpRank| #[trigger]
            super::candidates::is_candidate(workers, request, worker) ==> worker == only,
    ensures
        result.worker == only,
{
    law_selected_worker_is_candidate(
        selector,
        workers,
        request,
        block_size,
        sample,
        evaluate,
        accumulate,
        result,
    );
}

/// Which formula is in force for a request: the selector's own, unless it selects decode workers and
/// the request's override holds all three of a zero weight, no tracking of prefill tokens and no reuse.
/// Then it is overlap-load.
pub proof fn law_formula_in_force(selector: DefaultWorkerSelector, request: SchedulingRequest)
    ensures
        !(request.router_config_override matches Some(set) && (
            set.overlap_score_weight matches Some(zero) && (zero.bits == 0 || zero.bits
                == 0x8000_0000_0000_0000)) && set.track_prefill_tokens == Some(false)
                && set.assume_kv_reuse == Some(false))
                    ==> selector.formula_for(request) == selector.worker_selection_formula,
        selector.worker_type@ != "decode"@ ==> selector.formula_for(request)
            == selector.worker_selection_formula,
        selector.worker_type@ == "decode"@ && (request.router_config_override matches Some(set) && (
            set.overlap_score_weight matches Some(zero) && (zero.bits == 0 || zero.bits
                == 0x8000_0000_0000_0000)) && set.track_prefill_tokens == Some(false)
                && set.assume_kv_reuse == Some(false))
            ==> selector.formula_for(request) == WorkerSelectionFormula::OverlapLoad,
{
}

/// Without an override, or for workers of another kind, changing the formula of a selector changes the
/// formula in force to the same.
pub proof fn law_set_formula_takes_effect(
    selector: DefaultWorkerSelector,
    formula: WorkerSelectionFormula,
    request: SchedulingRequest,
)
    requires
        request.router_config_override is None || selector.worker_type@ != "decode"@,
    ensures
        (DefaultWorkerSelector { worker_selection_formula: formula, ..selector }).formula_for(request)
            == formula,
{
}

/// The integers of a candidate are counted with the weight and under the formula that are in force for
/// the request, and from the candidate's own configuration; the lowest score wins exactly where the
/// temperature in force is zero and the formula in force is not random.
pub proof fn law_what_is_in_force_is_used<C: WorkerConfigLike>(
    selector: DefaultWorkerSelector,
    workers: Map<WorkerId, C>,
    request: SchedulingRequest,
    block_size: u32,
    worker: WorkerWithDpRank,
    weight: Binary64,
    temperature: Binary64,
    formula: WorkerSelectionFormula,
)
    requires
        (request.router_config_override matches Some(set) && set.overlap_score_weight is Some)
            ==> request.router_config_override->0.overlap_score_weight == Some(weight),
        !(request.router_config_override matches Some(set) && set.overlap_score_weight is Some)
            ==> weight == selector.kv_router_config.overlap_score_weight,
        (request.router_config_override matches Some(set) && set.router_temperature is Some)
            ==> request.router_config_override->0.router_temperature == Some(temperature),
        !(request.router_config_override matches Some(set) && set.router_temperature is Some)
            ==> temperature == selector.kv_router_config.router_temperature,
        selector.worker_type@ == "decode"@ && (request.router_config_override matches Some(set) && (
            set.overlap_score_weight matches Some(zero) && (zero.bits == 0 || zero.bits
                == 0x8000_0000_0000_0000)) && set.track_prefill_tokens == Some(false)
                && set.assume_kv_reuse == Some(false)) ==> formula
            == WorkerSelectionFormula::OverlapLoad,
        !(selector.worker_type@ == "decode"@ && (request.router_config_override matches Some(set) && (
            set.overlap_score_weight matches Some(zero) && (zero.bits == 0 || zero.bits
                == 0x8000_0000_0000_0000)) && set.track_prefill_tokens == Some(false)
                && set.assume_kv_reuse == Some(false))) ==> formula
            == selector.worker_selection_formula,
    ensures
        selector.terms(workers, request, block_size, worker) == super::selector::terms_for(
            request,
            worker,
            workers[worker.worker_id],
            block_size,
            weight,
            formula,
        ),
        selector.takes_lowest(request) <==> (temperature.bits == 0 || temperature.bits
            == 0x8000_0000_0000_0000) && formula != WorkerSelectionFormula::Random,
        selector.kv_router_config.temperature_for(request.router_config_override) == temperature,
        selector.kv_router_config.weight_for(request.router_config_override) == weight,
        selector.formula_for(request) == formula,
{
}

/// Where a worker's integers can be counted: always under overlap-load and at random; otherwise where
/// one request more can be counted, with the load of the queue under vllm, and with blocks of some size
/// under the kv-aware formula.
pub proof fn law_when_integers_can_be_counted<C: WorkerConfigLike>(
    request: SchedulingRequest,
    worker: WorkerWithDpRank,
    config: C,
    block_size: u32,
    formula: WorkerSelectionFormula,
)
    ensures
        super::selector::can_score(request, worker, config, block_size, formula) <==> match formula {
            WorkerSelectionFormula::OverlapLoad => true,
            WorkerSelectionFormula::Lmetric => request.active_request_counts.value_or(worker, 0)
                < usize::MAX,
            WorkerSelectionFormula::Vllm => request.active_request_counts.value_or(worker, 0)
                < usize::MAX && (config.sequence_limit() matches Some(limit) ==> limit
                <= request.active_request_counts.value_or(worker, 0) ==> limit + 4 * (
            request.active_request_counts.value_or(worker, 0) + 1 - limit) <= usize::MAX),
            WorkerSelectionFormula::Random => true,
            WorkerSelectionFormula::KvAware => request.active_request_counts.value_or(worker, 0)
                < usize::MAX && block_size > 0,
        },
{
}

/// When a selector can be asked: for a request with an input. Where the selection comes to scoring,
/// blocks have a size and the integers of whoever is scored can be counted; where no worker is pinned
/// the ranks have numbers and somebody is there to choose, with a number for a score where the lowest
/// wins.
pub proof fn law_when_a_selector_can_be_asked<C: WorkerConfigLike>(
    selector: DefaultWorkerSelector,
    workers: Map<WorkerId, C>,
    request: SchedulingRequest,
    block_size: u32,
    numeric: spec_fn(ScoreTerms) -> bool,
)
    ensures
        request.isl_tokens == 0 ==> !selector.can_select(workers, request, block_size, numeric),
        request.isl_tokens > 0 && (request.pinned_worker matches Some(worker) && !request.allows(
            worker.worker_id,
        )) ==> selector.can_select(workers, request, block_size, numeric),
        request.isl_tokens > 0 && (request.pinned_worker matches Some(worker) && request.allows(
            worker.worker_id,
        ) && !super::types::is_known(workers, worker)) ==> (selector.can_select(
            workers,
            request,
            block_size,
            numeric,
        ) <==> block_size > 0),
        request.isl_tokens > 0 && (request.pinned_worker matches Some(worker) && request.allows(
            worker.worker_id,
        ) && super::types::is_known(workers, worker)) ==> (selector.can_select(
            workers,
            request,
            block_size,
            numeric,
        ) <==> block_size > 0 && super::selector::can_score(
            request,
            request.pinned_worker->0,
            workers[request.pinned_worker->0.worker_id],
            block_size,
            selector.formula_for(request),
        )),
        request.isl_tokens > 0 && request.pinned_worker is None && super::candidates::none_allowed(
            workers,
            request,
        ) ==> selector.can_select(workers, request, block_size, numeric),
        request.isl_tokens > 0 && request.pinned_worker is None && !super::candidates::none_allowed(
            workers,
            request,
        ) ==> (selector.can_select(workers, request, block_size, numeric) <==> {
            &&& block_size > 0
            &&& super::candidates::ranks_fit(workers, request)
            &&& forall|worker: WorkerWithDpRank| #[trigger]
                super::candidates::is_candidate(workers, request, worker)
                    ==> super::selector::can_score(
                    request,
                    worker,
                    workers[worker.worker_id],
                    block_size,
                    selector.formula_for(request),
                )
            &&& exists|worker: WorkerWithDpRank| #[trigger]
                super::candidates::is_candidate(workers, request, worker) && (selector.takes_lowest(
                    request,
                ) ==> numeric(selector.terms(workers, request, block_size, worker)))
        }),
{
}

/// The override of a request weighs in: of two requests that differ in nothing but the weight of their
/// override, each has its own weight in the integers of every worker, under overlap-load and under the
/// kv-aware formula, whatever weight is configured.
pub proof fn law_weight_of_the_override_counts<C: WorkerConfigLike>(
    selector: DefaultWorkerSelector,
    workers: Map<WorkerId, C>,
    request: SchedulingRequest,
    block_size: u32,
    worker: WorkerWithDpRank,
)
    ensures
        (request.router_config_override matches Some(set) && set.overlap_score_weight is Some) ==> ({
            let weight = request.router_config_override->0.overlap_score_weight->0;
            match selector.terms(workers, request, block_size, worker) {
                ScoreTerms::OverlapLoad { overlap_weight, .. } => overlap_weight == weight,
                ScoreTerms::KvAware { overlap_weight, .. } => overlap_weight == weight,
                _ => true,
            }
        }),
        !(request.router_config_override matches Some(set) && set.overlap_score_weight is Some) ==> (
        match selector.terms(workers, request, block_size, worker) {
            ScoreTerms::OverlapLoad { overlap_weight, .. } => overlap_weight
                == selector.kv_router_config.overlap_score_weight,
            ScoreTerms::KvAware { overlap_weight, .. } => overlap_weight
                == selector.kv_router_config.overlap_score_weight,
            _ => true,
        }),
{
}

/// What a worker has cached counts: under overlap-load, of two workers with as many decode blocks, the
/// one with fewer recorded prefill tokens differs in its integers by just these tokens, whether or not
/// prefill tokens are tracked.
pub proof fn law_fewer_prefill_tokens_weigh_less<C: WorkerConfigLike>(
    selector: DefaultWorkerSelector,
    workers: Map<WorkerId, C>,
    request: SchedulingRequest,
    block_size: u32,
    low: WorkerWithDpRank,
    high: WorkerWithDpRank,
)
    requires
        selector.worker_selection_formula == WorkerSelectionFormula::OverlapLoad,
        request.prefill_tokens@.contains_key(low),
        request.prefill_tokens@.contains_key(high),
        request.prefill_tokens@[low] < request.prefill_tokens@[high],
        request.decode_blocks@.contains_key(low),
        request.decode_blocks@.contains_key(high),
        request.decode_blocks@[low] == request.decode_blocks@[high],
    ensures
        selector.terms(workers, request, block_size, low) matches ScoreTerms::OverlapLoad {
            overlap_weight,
            prefill_tokens,
            block_size: size,
            decode_blocks,
        } && prefill_tokens == request.prefill_tokens@[low] && (selector.terms(
            workers,
            request,
            block_size,
            high,
        ) matches ScoreTerms::OverlapLoad {
            overlap_weight: weight_of_high,
            prefill_tokens: tokens_of_high,
            block_size: size_of_high,
            decode_blocks: blocks_of_high,
        } && weight_of_high == overlap_weight && prefill_tokens < tokens_of_high && size_of_high == size
            && blocks_of_high == decode_blocks && size == block_size),
{
}

/// The cheapest worker is selected. At zero temperature, unless workers are picked at random and where
/// scores are a function of their integers, no worker that may serve the request costs less than the
/// selected one. Of those that cost as much none comes before it: under the kv-aware formula it serves
/// the fewest requests and among these has the smallest tree, under any other formula it has the
/// smallest tree. `blocks` are the blocks that the input takes up.
pub proof fn law_cheapest_worker_is_selected<
    C: WorkerConfigLike,
    E: Fn(ScoreTerms) -> Binary64,
    A: Fn(SoftmaxWeights) -> Vec<Binary64>,
>(
    selector: DefaultWorkerSelector,
    workers: Map<WorkerId, C>,
    request: SchedulingRequest,
    block_size: u32,
    sample: Binary64,
    evaluate: E,
    accumulate: A,
    weight: Binary64,
    temperature: Binary64,
    formula: WorkerSelectionFormula,
    blocks: nat,
    score: spec_fn(ScoreTerms) -> Binary64,
    result: WorkerSelectionResult,
    other: WorkerWithDpRank,
)
    requires
        block_size > 0,
        selector.can_return(
            workers,
            request,
            block_size,
            sample,
            evaluate,
            accumulate,
            Ok::<WorkerSelectionResult, KvSchedulerError>(result),
        ),
        request.pinned_worker is None,
        (request.router_config_override matches Some(set) && set.overlap_score_weight is Some)
            ==> request.router_config_override->0.overlap_score_weight == Some(weight),
        !(request.router_config_override matches Some(set) && set.overlap_score_weight is Some)
            ==> weight == selector.kv_router_config.overlap_score_weight,
        (request.router_config_override matches Some(set) && set.router_temperature is Some)
            ==> request.router_config_override->0.router_temperature == Some(temperature),
        !(request.router_config_override matches Some(set) && set.router_temperature is Some)
            ==> temperature == selector.kv_router_config.router_temperature,
        selector.worker_type@ == "decode"@ && (request.router_config_override matches Some(set) && (
            set.overlap_score_weight matches Some(zero) && (zero.bits == 0 || zero.bits
                == 0x8000_0000_0000_0000)) && set.track_prefill_tokens == Some(false)
                && set.assume_kv_reuse == Some(false)) ==> formula
            == WorkerSelectionFormula::OverlapLoad,
        !(selector.worker_type@ == "decode"@ && (request.router_config_override matches Some(set) && (
            set.overlap_score_weight matches Some(zero) && (zero.bits == 0 || zero.bits
                == 0x8000_0000_0000_0000)) && set.track_prefill_tokens == Some(false)
                && set.assume_kv_reuse == Some(false))) ==> formula
            == selector.worker_selection_formula,
        temperature.bits == 0 || temperature.bits == 0x8000_0000_0000_0000,
        formula != WorkerSelectionFormula::Random,
        request.isl_tokens <= blocks * block_size,
        (blocks - 1) * block_size < request.isl_tokens,
        formula == WorkerSelectionFormula::Vllm ==> forall|w: WorkerWithDpRank| #[trigger]
            super::candidates::is_candidate(workers, request, w)
                ==> request.active_request_counts.value_or(w, 0) < usize::MAX,
        forall|terms: ScoreTerms, logit: Binary64| #[trigger]
            call_ensures(evaluate, (terms,), logit) ==> logit == score(terms),
        workers.contains_key(other.worker_id),
        workers[other.worker_id].start_rank() <= other.dp_rank < workers[other.worker_id].start_rank()
            + workers[other.worker_id].ranks(),
        request.allowed_worker_ids matches Some(ids) ==> ids@.contains(other.worker_id),
    ensures
        ({
            let held = |w: WorkerWithDpRank|
                if request.overlaps.scores@.contains_key(w) {
                    request.overlaps.scores@[w] as int
                } else {
                    0
                };
            let serves = |w: WorkerWithDpRank|
                if request.active_request_counts@.contains_key(w) {
                    request.active_request_counts@[w] as int
                } else {
                    0
                };
            let tree = |w: WorkerWithDpRank|
                if request.overlaps.tree_sizes@.contains_key(w) {
                    request.overlaps.tree_sizes@[w] as int
                } else {
                    0
                };
            let cost = |w: WorkerWithDpRank|
                score(
                    match formula {
                        WorkerSelectionFormula::OverlapLoad => ScoreTerms::OverlapLoad {
                            overlap_weight: weight,
                            prefill_tokens: if request.prefill_tokens@.contains_key(w) {
                                request.prefill_tokens@[w]
                            } else if request.track_prefill_tokens {
                                request.isl_tokens
                            } else {
                                0
                            },
                            block_size,
                            decode_blocks: if request.decode_blocks@.contains_key(w) {
                                Some(request.decode_blocks@[w])
                            } else {
                                None
                            },
                        },
                        WorkerSelectionFormula::Lmetric => ScoreTerms::Lmetric {
                            new_tokens: (if request.isl_tokens > held(w) * block_size {
                                request.isl_tokens - held(w) * block_size
                            } else {
                                0
                            }) as usize,
                            requests: (serves(w) + 1) as usize,
                        },
                        WorkerSelectionFormula::Vllm => ScoreTerms::Vllm {
                            load: (match workers[w.worker_id].sequence_limit() {
                                Some(limit) if limit <= serves(w) => limit + 4 * (serves(w) + 1
                                    - limit),
                                _ => serves(w) + 1,
                            }) as usize,
                        },
                        WorkerSelectionFormula::Random => ScoreTerms::Random,
                        WorkerSelectionFormula::KvAware => ScoreTerms::KvAware {
                            miss_blocks: (if blocks > held(w) {
                                blocks - held(w)
                            } else {
                                0
                            }) as usize,
                            overlap_weight: weight,
                            running: (serves(w) + 1) as usize,
                        },
                    },
                );
            &&& !cost(result.worker).nan()
            &&& !cost(other).num_lt(cost(result.worker))
            &&& cost(other).num_eq(cost(result.worker)) ==> if formula
                == WorkerSelectionFormula::KvAware {
                serves(result.worker) < serves(other)
                    || (serves(result.worker) == serves(other) && tree(
                    result.worker,
                ) <= tree(other))
            } else {
                tree(result.worker) <= tree(other)
            }
        }),
{
    assert(super::candidates::is_candidate(workers, request, other));
    law_selected_worker_is_candidate(
        selector,
        workers,
        request,
        block_size,
        sample,
        evaluate,
        accumulate,
        result,
    );
    law_lowest_score_wins(
        selector,
        workers,
        request,
        block_size,
        sample,
        evaluate,
        accumulate,
        score,
        result,
        other,
    );
    let isl = request.isl_tokens as int;
    let size = block_size as int;
    assert(block_size > 0);
    law_blocks_just_suffice(isl as nat, size as nat);
    let rounded = super::selector::blocks_for(isl, size);
    assert(blocks == rounded) by (nonlinear_arith)
        requires
            isl <= blocks * size,
            (blocks - 1) * size < isl,
            isl <= rounded * size,
            (rounded - 1) * size < isl,
            size > 0,
    ;
    let held = |w: WorkerWithDpRank|
        if request.overlaps.scores@.contains_key(w) {
            request.overlaps.scores@[w] as int
        } else {
            0
        };
    let serves = |w: WorkerWithDpRank|
        if request.active_request_counts@.contains_key(w) {
            request.active_request_counts@[w] as int
        } else {
            0
        };
    let tree = |w: WorkerWithDpRank|
        if request.overlaps.tree_sizes@.contains_key(w) {
            request.overlaps.tree_sizes@[w] as int
        } else {
            0
        };
    let counted = |w: WorkerWithDpRank|
            match formula {
                WorkerSelectionFormula::OverlapLoad => ScoreTerms::OverlapLoad {
                    overlap_weight: weight,
                    prefill_tokens: if request.prefill_tokens@.contains_key(w) {
                        request.prefill_tokens@[w]
                    } else if request.track_prefill_tokens {
                        request.isl_tokens
                    } else {
                        0
                    },
                    block_size,
                    decode_blocks: if request.decode_blocks@.contains_key(w) {
                        Some(request.decode_blocks@[w])
                    } else {
                        None
                    },
                },
                WorkerSelectionFormula::Lmetric => ScoreTerms::Lmetric {
                    new_tokens: (if request.isl_tokens > held(w) * block_size {
                        request.isl_tokens - held(w) * block_size
                    } else {
                        0
                    }) as usize,
                    requests: (serves(w) + 1) as usize,
                },
                WorkerSelectionFormula::Vllm => ScoreTerms::Vllm {
                    load: (match workers[w.worker_id].sequence_limit() {
                        Some(limit) if limit <= serves(w) => limit + 4 * (serves(w) + 1
                            - limit),
                        _ => serves(w) + 1,
                    }) as usize,
                },
                WorkerSelectionFormula::Random => ScoreTerms::Random,
                WorkerSelectionFormula::KvAware => ScoreTerms::KvAware {
                    miss_blocks: (if blocks > held(w) {
                        blocks - held(w)
                    } else {
                        0
                    }) as usize,
                    overlap_weight: weight,
                    running: (serves(w) + 1) as usize,
                },
            };
    assert(selector.formula_for(request) == formula);
    assert(selector.terms(workers, request, block_size, result.worker) == counted(result.worker));
    assert(selector.terms(workers, request, block_size, other) == counted(other));
}

/// A drawn worker is the one that the sample falls on. Where no worker is pinned, the formula in force
/// is not random and the temperature in force is not zero, the scores of all workers that may serve the
/// request, each once and in some order, go with that very temperature into the weights that the
/// running sums are made from; the first worker whose sum reaches the sample is selected, or the last
/// one where no sum does.
pub proof fn law_sample_decides_a_draw<
    C: WorkerConfigLike,
    E: Fn(ScoreTerms) -> Binary64,
    A: Fn(SoftmaxWeights) -> Vec<Binary64>,
>(
    selector: DefaultWorkerSelector,
    workers: Map<WorkerId, C>,
    request: SchedulingRequest,
    block_size: u32,
    sample: Binary64,
    evaluate: E,
    accumulate: A,
    temperature: Binary64,
    formula: WorkerSelectionFormula,
    result: WorkerSelectionResult,
) -> (draw: (Seq<(WorkerWithDpRank, Binary64)>, SoftmaxWeights, Vec<Binary64>, int))
    requires
        selector.can_return(
            workers,
            request,
            block_size,
            sample,
            evaluate,
            accumulate,
            Ok::<WorkerSelectionResult, KvSchedulerError>(result),
        ),
        request.pinned_worker is None,
        (request.router_config_override matches Some(set) && set.router_temperature is Some)
            ==> request.router_config_override->0.router_temperature == Some(temperature),
        !(request.router_config_override matches Some(set) && set.router_temperature is Some)
            ==> temperature == selector.kv_router_config.router_temperature,
        selector.worker_type@ == "decode"@ && (request.router_config_override matches Some(set) && (
            set.overlap_score_weight matches Some(zero) && (zero.bits == 0 || zero.bits
                == 0x8000_0000_0000_0000)) && set.track_prefill_tokens == Some(false)
                && set.assume_kv_reuse == Some(false)) ==> formula
            == WorkerSelectionFormula::OverlapLoad,
        !(selector.worker_type@ == "decode"@ && (request.router_config_override matches Some(set) && (
            set.overlap_score_weight matches Some(zero) && (zero.bits == 0 || zero.bits
                == 0x8000_0000_0000_0000)) && set.track_prefill_tokens == Some(false)
                && set.assume_kv_reuse == Some(false))) ==> formula
            == selector.worker_selection_formula,
        temperature.bits != 0 && temperature.bits != 0x8000_0000_0000_0000,
        formula != WorkerSelectionFormula::Random,
    ensures
        forall|worker: WorkerWithDpRank|
            #![trigger super::candidates::is_candidate(workers, request, worker)]
            super::candidates::is_candidate(workers, request, worker) <==> exists|k: int|
                0 <= k < draw.0.len() && (#[trigger] draw.0[k]).0 == worker,
        forall|k: int, l: int|
            0 <= k < l < draw.0.len() ==> (#[trigger] draw.0[k]).0 != (#[trigger] draw.0[l]).0,
        forall|k: int|
            0 <= k < draw.0.len() ==> call_ensures(
                evaluate,
                (selector.terms(workers, request, block_size, (#[trigger] draw.0[k]).0),),
                draw.0[k].1,
            ),
        draw.1.temperature == temperature,
        draw.1.logits@.len() == draw.0.len(),
        forall|k: int| 0 <= k < draw.0.len() ==> #[trigger] draw.1.logits@[k] == draw.0[k].1,
        super::softmax::weighs(draw.0, temperature, draw.1),
        call_ensures(accumulate, (draw.1,), draw.2),
        0 <= draw.3 < draw.0.len(),
        result.worker == draw.0[draw.3].0,
        forall|k: int| 0 <= k < draw.3 && k < draw.2@.len() ==> !sample.num_le(#[trigger] draw.2@[k]),
        draw.3 < draw.0.len() - 1 ==> draw.3 < draw.2@.len() && sample.num_le(draw.2@[draw.3]),
{
    let scored = choose|scored: Seq<(WorkerWithDpRank, Binary64)>| #[trigger]
        selector.scores_candidates(workers, request, block_size, evaluate, scored)
            && selector.can_choose(request, scored, sample, accumulate, result.worker);
    let logit = choose|logit: Binary64| #[trigger]
        super::softmax::drawn_from(
            scored,
            temperature,
            sample,
            accumulate,
            (result.worker, logit),
        );
    let draw = super::softmax::law_draw_follows_the_sample(
        scored,
        temperature,
        sample,
        accumulate,
        (result.worker, logit),
    );
    (scored, draw.0, draw.1, draw.2)
}

/// What a selection returns next to its worker: the blocks that just hold the input, and the blocks of
/// them that the worker holds. A pinned worker is the one returned; any selected worker is there, has
/// its rank, and is allowed.
pub proof fn law_result_describes_the_worker<
    C: WorkerConfigLike,
    E: Fn(ScoreTerms) -> Binary64,
    A: Fn(SoftmaxWeights) -> Vec<Binary64>,
>(
    selector: DefaultWorkerSelector,
    workers: Map<WorkerId, C>,
    request: SchedulingRequest,
    block_size: u32,
    sample: Binary64,
    evaluate: E,
    accumulate: A,
    result: WorkerSelectionResult,
)
    requires
        block_size > 0,
        selector.can_return(
            workers,
            request,
            block_size,
            sample,
            evaluate,
            accumulate,
            Ok::<WorkerSelectionResult, KvSchedulerError>(result),
        ),
    ensures
        request.isl_tokens <= result.required_blocks * block_size,
        (result.required_blocks - 1) * block_size < request.isl_tokens,
        request.overlaps.scores@.contains_key(result.worker) ==> result.overlap_blocks
            == request.overlaps.scores@[result.worker],
        !request.overlaps.scores@.contains_key(result.worker) ==> result.overlap_blocks == 0,
        request.pinned_worker matches Some(worker) ==> result.worker == worker,
        workers.contains_key(result.worker.worker_id),
        workers[result.worker.worker_id].start_rank() <= result.worker.dp_rank
            < workers[result.worker.worker_id].start_rank()
            + workers[result.worker.worker_id].ranks(),
        request.allowed_worker_ids matches Some(ids) ==> ids@.contains(result.worker.worker_id),
{
    law_blocks_just_suffice(request.isl_tokens as nat, block_size as nat);
    law_selected_worker_is_candidate(
        selector,
        workers,
        request,
        block_size,
        sample,
        evaluate,
        accumulate,
        result,
    );
}

/// Why a selection fails. A pinned worker that is not allowed is named in the error; otherwise a pinned
/// worker that is not there, or a request that allows none of the processes that are, finds no
/// endpoints. Nothing else makes a selection fail.
pub proof fn law_why_a_selection_fails<
    C: WorkerConfigLike,
    E: Fn(ScoreTerms) -> Binary64,
    A: Fn(SoftmaxWeights) -> Vec<Binary64>,
>(
    selector: DefaultWorkerSelector,
    workers: Map<WorkerId, C>,
    request: SchedulingRequest,
    block_size: u32,
    sample: Binary64,
    evaluate: E,
    accumulate: A,
    selected: Result<WorkerSelectionResult, KvSchedulerError>,
)
    requires
        selector.can_return(workers, request, block_size, sample, evaluate, accumulate, selected),
    ensures
        selected matches Err(KvSchedulerError::PinnedWorkerNotAllowed { worker_id }) ==> (
        request.pinned_worker matches Some(worker) && worker.worker_id == worker_id && (
        request.allowed_worker_ids matches Some(ids) && !ids@.contains(worker_id))),
        (request.pinned_worker matches Some(worker) && (request.allowed_worker_ids matches Some(ids)
            && !ids@.contains(worker.worker_id))) ==> (
        selected matches Err(KvSchedulerError::PinnedWorkerNotAllowed { worker_id }) && worker_id
            == request.pinned_worker->0.worker_id),
        (selected matches Err(error) && error == KvSchedulerError::NoEndpoints)
            <==> match request.pinned_worker {
            Some(worker) => (request.allowed_worker_ids matches Some(ids) ==> ids@.contains(
                worker.worker_id,
            )) && !(workers.contains_key(worker.worker_id) && workers[worker.worker_id].start_rank()
                <= worker.dp_rank < workers[worker.worker_id].start_rank()
                + workers[worker.worker_id].ranks()),
            None => forall|id: WorkerId| #[trigger]
                workers.contains_key(id) ==> (request.allowed_worker_ids matches Some(ids)
                    && !ids@.contains(id)),
        },
{
}

/// How a tie between workers with the lowest score is broken: in favour of one of them; under the
/// kv-aware formula no other serves fewer requests, nor as few with a smaller tree; under any other
/// formula no other has a smaller tree.
pub proof fn law_tie_is_broken_by_formula(
    request: SchedulingRequest,
    formula: WorkerSelectionFormula,
    lowest: Seq<WorkerWithDpRank>,
    chosen: WorkerWithDpRank,
    other: WorkerWithDpRank,
)
    requires
        super::selector::lowest_outcome(request, formula, lowest, chosen),
        lowest.contains(other),
    ensures
        lowest.contains(chosen),
        formula == WorkerSelectionFormula::KvAware ==> request.active_request_counts.value_or(chosen, 0)
            < request.active_request_counts.value_or(other, 0) || (
        request.active_request_counts.value_or(chosen, 0) == request.active_request_counts.value_or(
            other,
            0,
        ) && request.overlaps.tree_sizes.value_or(chosen, 0) <= request.overlaps.tree_sizes.value_or(
            other,
            0,
        )),
        formula != WorkerSelectionFormula::KvAware ==> request.overlaps.tree_sizes.value_or(chosen, 0)
            <= request.overlaps.tree_sizes.value_or(other, 0),
{
    if lowest.len() == 1 {
        assert(lowest.contains(lowest[0]));
    } else if formula == WorkerSelectionFormula::KvAware {
        super::tie_break::law_kv_aware_tie_goes_to_least_busy(lowest, request, chosen);
    } else {
        super::tie_break::law_tie_goes_to_smallest_tree(lowest, request, chosen);
    }
}

/// Workers are picked at random without favour: under the random formula, where one selection is
/// possible, the selection of any other worker that may serve the request is possible too.
pub proof fn law_random_favours_nobody<
    C: WorkerConfigLike,
    E: Fn(ScoreTerms) -> Binary64,
    A: Fn(SoftmaxWeights) -> Vec<Binary64>,
>(
    selector: DefaultWorkerSelector,
    workers: Map<WorkerId, C>,
    request: SchedulingRequest,
    block_size: u32,
    sample: Binary64,
    evaluate: E,
    accumulate: A,
    formula: WorkerSelectionFormula,
    result: WorkerSelectionResult,
    other: WorkerSelectionResult,
)
    requires
        selector.can_return(
            workers,
            request,
            block_size,
            sample,
            evaluate,
            accumulate,
            Ok::<WorkerSelectionResult, KvSchedulerError>(result),
        ),
        request.pinned_worker is None,
        selector.worker_type@ == "decode"@ && (request.router_config_override matches Some(set) && (
            set.overlap_score_weight matches Some(zero) && (zero.bits == 0 || zero.bits
                == 0x8000_0000_0000_0000)) && set.track_prefill_tokens == Some(false)
                && set.assume_kv_reuse == Some(false)) ==> formula
            == WorkerSelectionFormula::OverlapLoad,
        !(selector.worker_type@ == "decode"@ && (request.router_config_override matches Some(set) && (
            set.overlap_score_weight matches Some(zero) && (zero.bits == 0 || zero.bits
                == 0x8000_0000_0000_0000)) && set.track_prefill_tokens == Some(false)
                && set.assume_kv_reuse == Some(false))) ==> formula
            == selector.worker_selection_formula,
        formula == WorkerSelectionFormula::Random,
        super::candidates::is_candidate(workers, request, other.worker),
        other.required_blocks == result.required_blocks,
        other.overlap_blocks == request.overlaps.scores.value_or(other.worker, 0),
    ensures
        selector.can_return(
            workers,
            request,
            block_size,
            sample,
            evaluate,
            accumulate,
            Ok::<WorkerSelectionResult, KvSchedulerError>(other),
        ),
{
    let scored = choose|scored: Seq<(WorkerWithDpRank, Binary64)>| #[trigger]
        selector.scores_candidates(workers, request, block_size, evaluate, scored)
            && selector.can_choose(request, scored, sample, accumulate, result.worker);
    let i = choose|i: int| 0 <= i < scored.len() && (#[trigger] scored[i]).0 == other.worker;
    assert(scored[i].0 == other.worker);
    assert(selector.can_choose(request, scored, sample, accumulate, other.worker));
}

/// Chance decides among workers that nothing tells apart: where all tied workers have trees of one
/// size, and under the kv-aware formula serve as many requests, each of them may win.
pub proof fn law_equal_workers_may_all_win(
    request: SchedulingRequest,
    formula: WorkerSelectionFormula,
    lowest: Seq<WorkerWithDpRank>,
    chosen: WorkerWithDpRank,
)
    requires
        lowest.contains(chosen),
        forall|i: int|
            0 <= i < lowest.len() ==> request.overlaps.tree_sizes.value_or(#[trigger] lowest[i], 0)
                == request.overlaps.tree_sizes.value_or(chosen, 0),
        formula == WorkerSelectionFormula::KvAware ==> forall|i: int|
            0 <= i < lowest.len() ==> request.active_request_counts.value_or(#[trigger] lowest[i], 0)
                == request.active_request_counts.value_or(chosen, 0),
    ensures
        super::selector::lowest_outcome(request, formula, lowest, chosen),
{
    super::tie_break::law_equal_trees_may_all_win(lowest, request, chosen);
    if formula == WorkerSelectionFormula::KvAware {
        super::tie_break::law_least_busy_serve_the_fewest(lowest, request);
        let kept = |w: WorkerWithDpRank|
            forall|j: int|
                0 <= j < lowest.len() ==> request.active_request_counts.value_or(w, 0)
                    <= request.active_request_counts.value_or(#[trigger] lowest[j], 0);
        assert forall|i: int| 0 <= i < lowest.len() implies kept(#[trigger] lowest[i]) by {
            assert(request.active_request_counts.value_or(lowest[i], 0)
                == request.active_request_counts.value_or(chosen, 0));
        }
        super::tie_break::lemma_filter_keeps_all(lowest, kept);
    }
}

/// A score is sure to be a number exactly where no outcome for its integers is a NaN.
pub proof fn law_when_a_score_is_a_number<E: Fn(ScoreTerms) -> Binary64>(evaluate: E, terms: ScoreTerms)
    ensures
        super::selector::gives_number(evaluate, terms) <==> !exists|logit: Binary64| #[trigger]
            call_ensures(evaluate, (terms,), logit) && logit.nan(),
{
}

} // verus!
