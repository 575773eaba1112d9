use kv_router::binary64::Binary64;
use kv_router::scheduling::config::{KvRouterConfig, RouterConfigOverride};
use kv_router::scheduling::formula::{
    kv_aware_running, kv_aware_score, lmetric_score, overlap_load_score, vllm_score, ScoreTerms,
    WorkerSelectionFormula,
};
use kv_router::scheduling::lowest::lowest_scored;
use kv_router::scheduling::selector::{
    choose_lowest, drawn_worker, is_disaggregated_decode_request, required_blocks, DefaultWorkerSelector,
    WorkerSelector,
};
use kv_router::scheduling::softmax::{
    drawn_place, first_lowest, softmax_sample_with_sample, softmax_weights, SoftmaxWeights,
};
use kv_router::scheduling::tie_break::{
    break_kv_aware_tie, break_tied_workers_by_tree_size, least_busy_workers,
    settle_tie_by_tree_size, tree_size_choice,
};
use kv_router::scheduling::types::{
    pinned_worker_config, KvSchedulerError, OverlapScores, SchedulingRequest, SimpleWorkerConfig,
    WorkerSelectionResult,
};
use kv_router::scheduling::workers::{WorkerMap, WorkerWithDpRank};
use rand::Rng;
use std::collections::{HashMap, HashSet};

fn number(value: f64) -> Binary64 {
    Binary64::from_bits(value.to_bits())
}

fn float(number: Binary64) -> f64 {
    f64::from_bits(number.to_bits())
}

/// The score that integers stand for.
fn evaluate(terms: ScoreTerms) -> Binary64 {
    number(match terms {
        ScoreTerms::OverlapLoad { overlap_weight, prefill_tokens, block_size, decode_blocks } => {
            let prefill_blocks = prefill_tokens as f64 / block_size as f64;
            let decode_blocks = decode_blocks.unwrap_or(prefill_blocks.floor() as usize) as f64;
            float(overlap_weight) * prefill_blocks + decode_blocks
        }
        ScoreTerms::Lmetric { new_tokens, requests } => new_tokens as f64 * requests as f64,
        ScoreTerms::Vllm { load } => load as f64,
        ScoreTerms::Random => 0.0,
        ScoreTerms::KvAware { miss_blocks, overlap_weight, running } => {
            miss_blocks as f64 * float(overlap_weight) + running as f64
        }
    })
}

fn probabilities(weights: &SoftmaxWeights) -> Vec<f64> {
    let values: Vec<f64> = weights.logits.iter().map(|logit| float(*logit)).collect();
    match weights.spread {
        None => vec![1.0 / values.len() as f64; values.len()],
        Some((low, high)) => {
            let range = float(high) - float(low);
            let temperature = float(weights.temperature);
            let scaled: Vec<f64> = values.iter().map(|&v| -(v / range) / temperature).collect();
            let max_scaled = scaled.iter().fold(f64::NEG_INFINITY, |a, &b| a.max(b));
            let mut probs: Vec<f64> = scaled.iter().map(|&v| (v - max_scaled).exp()).collect();
            let sum: f64 = probs.iter().sum();
            probs.iter_mut().for_each(|p| *p /= sum);
            probs
        }
    }
}

/// The running sums of the probabilities of a draw.
fn accumulate(weights: SoftmaxWeights) -> Vec<Binary64> {
    let mut cumsum = 0.0;
    probabilities(&weights)
        .iter()
        .map(|prob| {
            cumsum += prob;
            number(cumsum)
        })
        .collect()
}

fn softmax_sample(logits: &WorkerMap<Binary64>, temperature: f64) -> (WorkerWithDpRank, f64) {
    let sample: f64 = rand::rng().random();
    let (worker, logit) =
        softmax_sample_with_sample(logits, number(temperature), number(sample), &accumulate);
    (worker, float(logit))
}

fn select(
    selector: &DefaultWorkerSelector,
    workers: &HashMap<u64, SimpleWorkerConfig>,
    request: &SchedulingRequest,
    block_size: u32,
) -> Result<WorkerSelectionResult, KvSchedulerError> {
    let sample: f64 = rand::rng().random();
    selector.select_worker(workers, request, block_size, number(sample), &evaluate, &accumulate)
}

fn test_selector(formula: WorkerSelectionFormula) -> DefaultWorkerSelector {
    DefaultWorkerSelector {
        kv_router_config: KvRouterConfig { router_temperature: number(0.0), ..Default::default() },
        worker_type: "prefill",
        worker_selection_formula: formula,
    }
}

fn make_scheduling_request(
    isl_tokens: usize,
    overlaps: OverlapScores,
    active_request_counts: WorkerMap<usize>,
    router_config_override: Option<RouterConfigOverride>,
) -> SchedulingRequest {
    SchedulingRequest {
        isl_tokens,
        overlaps,
        decode_blocks: WorkerMap::new(),
        prefill_tokens: WorkerMap::new(),
        active_request_counts,
        track_prefill_tokens: true,
        router_config_override,
        pinned_worker: None,
        allowed_worker_ids: None,
    }
}

fn plain_request(isl_tokens: usize) -> SchedulingRequest {
    make_scheduling_request(isl_tokens, OverlapScores::new(), WorkerMap::new(), None)
}

fn two_workers() -> HashMap<u64, SimpleWorkerConfig> {
    HashMap::from([(0, SimpleWorkerConfig::default()), (1, SimpleWorkerConfig::default())])
}

fn decode_override(weight: f64) -> RouterConfigOverride {
    RouterConfigOverride {
        overlap_score_weight: Some(number(weight)),
        track_prefill_tokens: Some(false),
        assume_kv_reuse: Some(false),
        router_temperature: Some(number(0.0)),
    }
}

#[test]
fn test_kv_aware_score() {
    assert_eq!(float(evaluate(kv_aware_score(10, 8, 2, number(1.0)))), 5.0);
    assert_eq!(float(evaluate(kv_aware_score(10, 5, 0, number(1.0)))), 6.0);
    assert_eq!(kv_aware_running(2), 3);
}

#[test]
fn test_worker_selection_formula_parse() {
    assert_eq!(WorkerSelectionFormula::parse("kv-aware"), WorkerSelectionFormula::KvAware);
    assert_eq!(WorkerSelectionFormula::parse("kv_aware"), WorkerSelectionFormula::KvAware);
    assert_eq!(WorkerSelectionFormula::parse("kvaware"), WorkerSelectionFormula::KvAware);
    assert_eq!(WorkerSelectionFormula::parse("unknown-formula"), WorkerSelectionFormula::OverlapLoad);
}

#[test]
fn test_kv_aware_select_worker_lowest_score() {
    let worker_a = WorkerWithDpRank::new(0, 0);
    let worker_b = WorkerWithDpRank::new(1, 0);
    let mut overlaps = OverlapScores::new();
    overlaps.scores.insert(worker_a, 8);
    overlaps.scores.insert(worker_b, 5);

    let mut active_request_counts = WorkerMap::new();
    active_request_counts.insert(worker_a, 2);
    active_request_counts.insert(worker_b, 0);

    let request = make_scheduling_request(160, overlaps, active_request_counts, None);
    let workers = two_workers();

    let selector = test_selector(WorkerSelectionFormula::KvAware);
    let result = select(&selector, &workers, &request, 16).expect("selection should succeed");

    assert_eq!(result.worker, worker_a);
    assert_eq!(result.overlap_blocks, 8);
}

#[test]
fn test_kv_aware_tie_break_by_running() {
    let worker_a = WorkerWithDpRank::new(0, 0);
    let worker_b = WorkerWithDpRank::new(1, 0);
    let mut overlaps = OverlapScores::new();
    overlaps.scores.insert(worker_a, 7);
    overlaps.scores.insert(worker_b, 6);

    let mut active_request_counts = WorkerMap::new();
    active_request_counts.insert(worker_a, 1);
    active_request_counts.insert(worker_b, 0);

    let request = make_scheduling_request(160, overlaps, active_request_counts, None);
    let workers = two_workers();

    let selector = test_selector(WorkerSelectionFormula::KvAware);
    let result = select(&selector, &workers, &request, 16).expect("selection should succeed");

    assert_eq!(result.worker, worker_b);
    assert_eq!(result.overlap_blocks, 6);
}

#[test]
fn test_disagg_decode_override_uses_overlap_load() {
    let worker_a = WorkerWithDpRank::new(0, 0);
    let worker_b = WorkerWithDpRank::new(1, 0);
    let mut overlaps = OverlapScores::new();
    overlaps.scores.insert(worker_a, 8);
    overlaps.scores.insert(worker_b, 5);

    let mut decode_blocks = WorkerMap::new();
    decode_blocks.insert(worker_a, 100);
    decode_blocks.insert(worker_b, 10);

    let request = SchedulingRequest {
        isl_tokens: 160,
        overlaps,
        decode_blocks,
        prefill_tokens: WorkerMap::new(),
        active_request_counts: WorkerMap::new(),
        track_prefill_tokens: true,
        router_config_override: Some(decode_override(0.0)),
        pinned_worker: None,
        allowed_worker_ids: None,
    };

    let workers = two_workers();

    let selector = DefaultWorkerSelector {
        kv_router_config: KvRouterConfig { router_temperature: number(0.0), ..Default::default() },
        worker_type: "decode",
        worker_selection_formula: WorkerSelectionFormula::KvAware,
    };

    let result = select(&selector, &workers, &request, 16).expect("selection should succeed");

    assert_eq!(result.worker, worker_b);

    // A prefill worker is scored by the formula that is set.
    let selector = DefaultWorkerSelector { worker_type: "prefill", ..selector };
    let result = select(&selector, &workers, &request, 16).expect("selection should succeed");
    assert_eq!(selector.effective_formula(&request), WorkerSelectionFormula::KvAware);
    assert_eq!(result.required_blocks, 10);
}

#[test]
fn test_softmax_sample_single_key() {
    let worker = WorkerWithDpRank::from_worker_id(42);
    for (logit, temperature) in [
        (0.5, 0.1),
        (0.5, 1.0),
        (0.5, 10.0),
        (-100.0, 1.0),
        (100.0, 1.0),
        (0.0, 1.0),
        (0.0, 0.0),
    ] {
        let mut logits = WorkerMap::new();
        logits.insert(worker, number(logit));

        let result = softmax_sample(&logits, temperature);
        assert_eq!(result.0, worker, "Should return the only available worker");
        assert_eq!(result.1, logit, "Should return the selected worker's logit");
    }
}

#[test]
fn test_softmax_sample_zero_temperature() {
    let mut logits = WorkerMap::new();
    let worker1 = WorkerWithDpRank::from_worker_id(1);
    let worker2 = WorkerWithDpRank::from_worker_id(2);
    let worker3 = WorkerWithDpRank::from_worker_id(3);
    let worker4 = WorkerWithDpRank::from_worker_id(4);
    logits.insert(worker1, number(5.0));
    logits.insert(worker2, number(3.0));
    logits.insert(worker3, number(7.0));
    logits.insert(worker4, number(3.5));

    let result = softmax_sample(&logits, 0.0);
    assert_eq!(
        result.0, worker2,
        "Should return worker with smallest logit when temperature is 0"
    );
    assert_eq!(result.1, 3.0, "Should return the smallest logit when temperature is 0");

    let mut logits = WorkerMap::new();
    let worker5 = WorkerWithDpRank::from_worker_id(5);
    let worker6 = WorkerWithDpRank::from_worker_id(6);
    logits.insert(worker1, number(5.0));
    logits.insert(worker2, number(3.0));
    logits.insert(worker5, number(3.0));
    logits.insert(worker6, number(7.0));

    let result = softmax_sample(&logits, 0.0);
    assert!(
        result.0 == worker2 || result.0 == worker5,
        "Should return one of the workers tied for the smallest logit"
    );
    assert_eq!(result.1, 3.0, "Should return the tied minimum logit");

    let mut logits = WorkerMap::new();
    let worker10 = WorkerWithDpRank::from_worker_id(10);
    let worker20 = WorkerWithDpRank::from_worker_id(20);
    let worker30 = WorkerWithDpRank::from_worker_id(30);
    logits.insert(worker10, number(-1.0));
    logits.insert(worker20, number(-5.0));
    logits.insert(worker30, number(0.0));

    let result = softmax_sample(&logits, 0.0);
    assert_eq!(result.0, worker20, "Should handle negative logits correctly");
    assert_eq!(result.1, -5.0, "Should return the minimum negative logit");
}

#[test]
fn test_softmax_sample_with_sample_returns_selected_logit() {
    let worker1 = WorkerWithDpRank::from_worker_id(1);
    let worker2 = WorkerWithDpRank::from_worker_id(2);
    let worker3 = WorkerWithDpRank::from_worker_id(3);

    let mut logits = WorkerMap::new();
    for (worker, logit) in [(worker1, 0.0), (worker2, 3.0), (worker3, 9.0)] {
        logits.insert(worker, number(logit));
    }
    let entries: Vec<(WorkerWithDpRank, f64)> =
        logits.entries().iter().map(|(worker, logit)| (*worker, float(*logit))).collect();
    let values: Vec<f64> = entries.iter().map(|(_, logit)| *logit).collect();

    let min_val = values.iter().fold(f64::INFINITY, |a, &b| a.min(b));
    let max_val = values.iter().fold(f64::NEG_INFINITY, |a, &b| a.max(b));
    let temperature = 1.0;
    let range = max_val - min_val;
    let scaled: Vec<f64> = values.iter().map(|&v| -(v / range) / temperature).collect();
    let max_scaled = scaled.iter().fold(f64::NEG_INFINITY, |a, &b| a.max(b));
    let mut probabilities: Vec<f64> = scaled.iter().map(|&v| (v - max_scaled).exp()).collect();
    let sum: f64 = probabilities.iter().sum();
    probabilities.iter_mut().for_each(|p| *p /= sum);

    let target_idx = entries
        .iter()
        .position(|(_, logit)| *logit > min_val)
        .expect("expected at least one non-minimum logit");
    let cumsum_before: f64 = probabilities.iter().take(target_idx).sum();
    let sample = cumsum_before + probabilities[target_idx] / 2.0;

    let (worker, logit) =
        softmax_sample_with_sample(&logits, number(temperature), number(sample), &accumulate);
    assert_eq!((worker, float(logit)), entries[target_idx]);
}

#[test]
fn formulas_are_read_without_regard_to_case_and_space() {
    assert_eq!(WorkerSelectionFormula::parse("  LMetric\n"), WorkerSelectionFormula::Lmetric);
    assert_eq!(WorkerSelectionFormula::parse("\u{3000}VLLM\u{a0}"), WorkerSelectionFormula::Vllm);
    assert_eq!(WorkerSelectionFormula::parse("Random"), WorkerSelectionFormula::Random);
    assert_eq!(WorkerSelectionFormula::parse(""), WorkerSelectionFormula::OverlapLoad);
    assert_eq!(WorkerSelectionFormula::parse("   "), WorkerSelectionFormula::OverlapLoad);
    assert_eq!(WorkerSelectionFormula::parse("l metric"), WorkerSelectionFormula::OverlapLoad);
    assert_eq!(WorkerSelectionFormula::recognize("l metric"), None);
    assert_eq!(
        WorkerSelectionFormula::recognize("Overlap_Load"),
        Some(WorkerSelectionFormula::OverlapLoad)
    );
    assert_eq!(WorkerSelectionFormula::from_setting(None), WorkerSelectionFormula::OverlapLoad);
    assert_eq!(WorkerSelectionFormula::from_setting(Some("vllm")), WorkerSelectionFormula::Vllm);
}

#[test]
fn formula_names_are_read_back() {
    for formula in [
        WorkerSelectionFormula::OverlapLoad,
        WorkerSelectionFormula::Lmetric,
        WorkerSelectionFormula::Vllm,
        WorkerSelectionFormula::Random,
        WorkerSelectionFormula::KvAware,
    ] {
        assert_eq!(WorkerSelectionFormula::parse(formula.as_str()), formula);
    }
}

#[test]
fn scores_of_each_formula() {
    assert_eq!(float(evaluate(overlap_load_score(number(2.0), 40, 16, Some(3)))), 8.0);
    assert_eq!(float(evaluate(overlap_load_score(number(2.0), 40, 16, None))), 7.0);
    assert_eq!(
        lmetric_score(100, 2, 16, 3),
        ScoreTerms::Lmetric { new_tokens: 68, requests: 4 }
    );
    assert_eq!(
        lmetric_score(100, u32::MAX, u32::MAX, 0),
        ScoreTerms::Lmetric { new_tokens: 0, requests: 1 }
    );
    assert_eq!(vllm_score(9, 4), (ScoreTerms::Vllm { load: 28 }, 6, 4));
    assert_eq!(vllm_score(2, usize::MAX), (ScoreTerms::Vllm { load: 3 }, 0, 3));
    assert_eq!(vllm_score(2, 0), (ScoreTerms::Vllm { load: 12 }, 3, 0));
    assert_eq!(
        kv_aware_score(3, 7, 0, number(1.0)),
        ScoreTerms::KvAware { miss_blocks: 0, overlap_weight: number(1.0), running: 1 }
    );
}

#[test]
fn blocks_are_rounded_up() {
    assert_eq!(required_blocks(160, 16), 10);
    assert_eq!(required_blocks(161, 16), 11);
    assert_eq!(required_blocks(1, 16), 1);
    assert_eq!(required_blocks(0, 16), 0);
    assert_eq!(required_blocks(usize::MAX, 1), usize::MAX);
}

#[test]
fn numbers_compare_as_floats_do() {
    let values = [
        0.0,
        -0.0,
        1.0,
        -1.0,
        f64::MIN_POSITIVE,
        -f64::MIN_POSITIVE,
        5e-324,
        f64::MAX,
        f64::MIN,
        f64::INFINITY,
        f64::NEG_INFINITY,
        f64::NAN,
        -f64::NAN,
        0.1 + 0.2,
        0.3,
    ];
    for a in values {
        assert_eq!(number(a).is_nan(), a.is_nan());
        assert_eq!(number(a).is_zero(), a == 0.0);
        for b in values {
            assert_eq!(number(a).less_than(number(b)), a < b, "{a} < {b}");
            assert_eq!(number(a).same_number(number(b)), a == b, "{a} == {b}");
            assert_eq!(number(a).at_most(number(b)), a <= b, "{a} <= {b}");
        }
    }
}

#[test]
fn worker_maps_keep_what_is_inserted() {
    let mut map = WorkerMap::new();
    let a = WorkerWithDpRank::new(1, 2);
    let b = WorkerWithDpRank::new(2, 1);
    assert_eq!(map.insert(a, 5), None);
    assert_eq!(map.insert(a, 6), Some(5));
    assert_eq!(map.insert(b, 7), None);
    assert_eq!(map.get(&a), Some(6));
    assert_eq!(map.get(&WorkerWithDpRank::new(1, 1)), None);
    assert_eq!(map.get_or(&WorkerWithDpRank::new(1, 1), 9), 9);
    let mut entries = map.entries();
    entries.sort_by_key(|(worker, _)| worker.worker_id);
    assert_eq!(entries, vec![(a, 6), (b, 7)]);
}

#[test]
fn lowest_scores_are_found_in_order() {
    let w = WorkerWithDpRank::from_worker_id;
    let scored = vec![
        (w(1), number(f64::NAN)),
        (w(2), number(2.0)),
        (w(3), number(0.0)),
        (w(4), number(-0.0)),
        (w(5), number(1.0)),
    ];
    let (workers, score) = lowest_scored(&scored);
    assert_eq!(workers, vec![w(3), w(4)]);
    assert!(score.is_zero());

    let infinite = vec![(w(1), number(f64::INFINITY)), (w(2), number(f64::NAN))];
    assert_eq!(lowest_scored(&infinite).0, vec![w(1)]);

    let (workers, score) = lowest_scored(&vec![(w(1), number(f64::NAN))]);
    assert!(workers.is_empty());
    assert_eq!(float(score), f64::INFINITY);
}

#[test]
fn ties_go_to_the_smallest_tree() {
    let w = WorkerWithDpRank::from_worker_id;
    let mut request = plain_request(16);
    request.overlaps.tree_sizes.insert(w(1), 9);
    request.overlaps.tree_sizes.insert(w(2), 4);
    request.overlaps.tree_sizes.insert(w(3), 4);

    let tied = vec![w(1), w(2), w(3)];
    assert_eq!(tree_size_choice(&tied, &request), Some(1));
    assert_eq!(
        break_tied_workers_by_tree_size(&tied, &request, number(1.5)),
        (w(2), number(1.5))
    );
    // A worker without a tree has the smallest one.
    assert_eq!(tree_size_choice(&vec![w(1), w(7)], &request), Some(1));

    let equal = vec![w(2), w(3)];
    assert_eq!(tree_size_choice(&equal, &request), None);
    for drawn in 0..2 {
        let settled = settle_tie_by_tree_size(&equal, &request, number(1.5), drawn);
        assert_eq!(settled, (equal[drawn], number(1.5)));
    }
    for drawn in 0..3 {
        assert_eq!(settle_tie_by_tree_size(&tied, &request, number(1.5), drawn).0, w(2));
    }
    for _ in 0..100 {
        let (worker, score) = break_tied_workers_by_tree_size(&equal, &request, number(1.5));
        assert!(equal.contains(&worker));
        assert_eq!(score, number(1.5));
    }
}

#[test]
fn the_drawn_place_decides_among_candidates() {
    let w = WorkerWithDpRank::from_worker_id;
    let scored = vec![(w(4), number(2.0)), (w(5), number(1.0))];
    assert_eq!(drawn_worker(&scored, 0), w(4));
    assert_eq!(drawn_worker(&scored, 1), w(5));
}

#[test]
fn chance_reaches_every_tied_worker() {
    let w = WorkerWithDpRank::from_worker_id;
    let request = plain_request(16);
    let tied = vec![w(1), w(2), w(3)];
    let mut seen = HashSet::new();
    for _ in 0..1000 {
        seen.insert(break_tied_workers_by_tree_size(&tied, &request, number(0.0)).0.worker_id);
    }
    assert_eq!(seen, HashSet::from([1, 2, 3]));
}

#[test]
fn kv_aware_ties_go_to_the_least_busy() {
    let w = WorkerWithDpRank::from_worker_id;
    let mut request = plain_request(16);
    request.active_request_counts.insert(w(1), 3);
    request.active_request_counts.insert(w(2), 1);
    request.active_request_counts.insert(w(3), 1);
    request.overlaps.tree_sizes.insert(w(2), 8);
    request.overlaps.tree_sizes.insert(w(3), 5);

    let all = vec![w(1), w(2), w(3)];
    assert_eq!(least_busy_workers(&all, &request), vec![w(2), w(3)]);
    assert_eq!(break_kv_aware_tie(&all, &request, number(2.0)), (w(3), number(2.0)));
    assert_eq!(break_kv_aware_tie(&vec![w(1), w(2)], &request, number(2.0)).0, w(2));
    assert_eq!(
        choose_lowest(
            &request,
            WorkerSelectionFormula::KvAware,
            &vec![(w(1), number(1.0)), (w(2), number(1.0)), (w(3), number(4.0))]
        ),
        (w(2), number(1.0))
    );
}

#[test]
fn zero_temperature_takes_the_first_lowest_entry() {
    let w = WorkerWithDpRank::from_worker_id;
    let entries = |logits: &[f64]| -> Vec<(WorkerWithDpRank, Binary64)> {
        logits.iter().enumerate().map(|(i, logit)| (w(i as u64), number(*logit))).collect()
    };
    assert_eq!(first_lowest(&entries(&[4.0, 2.0, 2.0, 3.0])), 1);
    assert_eq!(first_lowest(&entries(&[4.0, f64::NAN, 3.0])), 2);
    assert_eq!(first_lowest(&entries(&[f64::NAN, 1.0])), 0);
}

#[test]
fn a_sample_falls_on_the_first_sum_that_reaches_it() {
    let sums = vec![number(0.25), number(0.5), number(1.0)];
    assert_eq!(drawn_place(3, &sums, number(0.0)), 0);
    assert_eq!(drawn_place(3, &sums, number(0.25)), 0);
    assert_eq!(drawn_place(3, &sums, number(0.3)), 1);
    assert_eq!(drawn_place(3, &sums, number(0.9)), 2);
    assert_eq!(drawn_place(3, &sums, number(1.5)), 2);
    assert_eq!(drawn_place(3, &vec![number(f64::NAN); 3], number(0.1)), 2);
}

#[test]
fn equal_scores_are_drawn_uniformly() {
    let w = WorkerWithDpRank::from_worker_id;
    let equal = softmax_weights(&vec![(w(1), number(3.0)), (w(2), number(3.0))], number(0.7));
    assert!(equal.spread.is_none());
    assert_eq!(equal.temperature, number(0.7));
    assert_eq!(accumulate(equal), vec![number(0.5), number(1.0)]);

    let spread = softmax_weights(
        &vec![(w(1), number(3.0)), (w(2), number(f64::NAN)), (w(3), number(-1.0))],
        number(1.0),
    );
    assert_eq!(spread.spread, Some((number(-1.0), number(3.0))));
}

#[test]
fn a_warm_selector_draws_by_softmax() {
    let mut request = plain_request(160);
    request.router_config_override = Some(RouterConfigOverride {
        overlap_score_weight: None,
        router_temperature: Some(number(1.0)),
        assume_kv_reuse: None,
        track_prefill_tokens: None,
    });
    let selector = test_selector(WorkerSelectionFormula::OverlapLoad);
    let workers = two_workers();
    let mut seen = HashSet::new();
    for _ in 0..500 {
        let result = select(&selector, &workers, &request, 16).unwrap();
        assert_eq!(result.required_blocks, 10);
        seen.insert(result.worker);
    }
    assert_eq!(seen, HashSet::from([WorkerWithDpRank::new(0, 0), WorkerWithDpRank::new(1, 0)]));
}

#[test]
fn random_selection_reaches_every_rank() {
    let workers = HashMap::from([(
        7,
        SimpleWorkerConfig {
            data_parallel_start_rank: 2,
            data_parallel_size: 3,
            ..SimpleWorkerConfig::default()
        },
    )]);
    let selector = test_selector(WorkerSelectionFormula::Random);
    let mut seen = HashSet::new();
    for _ in 0..500 {
        seen.insert(select(&selector, &workers, &plain_request(5), 16).unwrap().worker);
    }
    let expected = HashSet::from([
        WorkerWithDpRank::new(7, 2),
        WorkerWithDpRank::new(7, 3),
        WorkerWithDpRank::new(7, 4),
    ]);
    assert_eq!(seen, expected);
}

#[test]
fn a_pinned_worker_is_selected_whatever_its_score() {
    let mut request = plain_request(33);
    let worker = WorkerWithDpRank::new(1, 0);
    request.pinned_worker = Some(worker);
    request.overlaps.scores.insert(worker, 2);
    request.active_request_counts.insert(worker, 1000);
    let result = select(&test_selector(WorkerSelectionFormula::KvAware), &two_workers(), &request, 16);
    assert_eq!(
        result,
        Ok(WorkerSelectionResult { worker, required_blocks: 3, overlap_blocks: 2 })
    );
}

#[test]
fn selection_fails_without_a_worker() {
    let selector = test_selector(WorkerSelectionFormula::OverlapLoad);
    let none: HashMap<u64, SimpleWorkerConfig> = HashMap::new();
    assert_eq!(
        select(&selector, &none, &plain_request(1), 16),
        Err(KvSchedulerError::NoEndpoints)
    );

    let mut request = plain_request(1);
    request.allowed_worker_ids = Some(HashSet::from([5]));
    assert_eq!(
        select(&selector, &two_workers(), &request, 16),
        Err(KvSchedulerError::NoEndpoints)
    );

    request.pinned_worker = Some(WorkerWithDpRank::new(0, 0));
    assert_eq!(
        select(&selector, &two_workers(), &request, 16),
        Err(KvSchedulerError::PinnedWorkerNotAllowed { worker_id: 0 })
    );

    request.allowed_worker_ids = None;
    request.pinned_worker = Some(WorkerWithDpRank::new(0, 1));
    assert_eq!(
        select(&selector, &two_workers(), &request, 16),
        Err(KvSchedulerError::NoEndpoints)
    );
    request.pinned_worker = Some(WorkerWithDpRank::new(9, 0));
    assert!(pinned_worker_config(&two_workers(), WorkerWithDpRank::new(9, 0)).is_err());
    assert_eq!(
        select(&selector, &two_workers(), &request, 16),
        Err(KvSchedulerError::NoEndpoints)
    );
}

#[test]
fn only_allowed_workers_are_selected() {
    let mut request = plain_request(160);
    request.allowed_worker_ids = Some(HashSet::from([1, 8]));
    for formula in [WorkerSelectionFormula::OverlapLoad, WorkerSelectionFormula::Random] {
        let result = select(&test_selector(formula), &two_workers(), &request, 16).unwrap();
        assert_eq!(result.worker, WorkerWithDpRank::new(1, 0));
    }
}

#[test]
fn vllm_prefers_the_shorter_queue() {
    let workers = HashMap::from([
        (0, SimpleWorkerConfig { max_num_seqs: Some(2), ..SimpleWorkerConfig::default() }),
        (1, SimpleWorkerConfig { max_num_seqs: Some(8), ..SimpleWorkerConfig::default() }),
    ]);
    let mut request = plain_request(160);
    request.active_request_counts.insert(WorkerWithDpRank::new(0, 0), 3);
    request.active_request_counts.insert(WorkerWithDpRank::new(1, 0), 5);
    let result = select(&test_selector(WorkerSelectionFormula::Vllm), &workers, &request, 16);
    assert_eq!(result.unwrap().worker, WorkerWithDpRank::new(1, 0));
}

#[test]
fn lmetric_prefers_fewer_new_tokens() {
    let mut request = plain_request(160);
    request.overlaps.scores.insert(WorkerWithDpRank::new(0, 0), 9);
    request.active_request_counts.insert(WorkerWithDpRank::new(0, 0), 3);
    let result = select(&test_selector(WorkerSelectionFormula::Lmetric), &two_workers(), &request, 16);
    assert_eq!(
        result,
        Ok(WorkerSelectionResult {
            worker: WorkerWithDpRank::new(0, 0),
            required_blocks: 10,
            overlap_blocks: 9
        })
    );
}

#[test]
fn worker_scores_use_the_defaults_of_the_request() {
    let selector = test_selector(WorkerSelectionFormula::OverlapLoad);
    let worker = WorkerWithDpRank::new(0, 0);
    let config = SimpleWorkerConfig::default();
    let mut request = plain_request(40);
    let formula = WorkerSelectionFormula::OverlapLoad;
    let terms = |request: &SchedulingRequest| {
        selector.worker_score(request, worker, &config, 16, number(1.0), formula).terms
    };
    assert_eq!(float(evaluate(terms(&request))), 4.5);
    request.track_prefill_tokens = false;
    assert_eq!(float(evaluate(terms(&request))), 0.0);
    request.prefill_tokens.insert(worker, 32);
    assert_eq!(float(evaluate(terms(&request))), 4.0);
    request.decode_blocks.insert(worker, 5);
    assert_eq!(float(evaluate(terms(&request))), 7.0);
}

#[test]
fn the_decode_override_is_recognized() {
    let mut request = plain_request(1);
    assert!(!is_disaggregated_decode_request(&request));
    request.router_config_override = Some(decode_override(-0.0));
    assert!(is_disaggregated_decode_request(&request));
    request.router_config_override = Some(decode_override(0.5));
    assert!(!is_disaggregated_decode_request(&request));
    request.router_config_override =
        Some(RouterConfigOverride { assume_kv_reuse: None, ..decode_override(0.0) });
    assert!(!is_disaggregated_decode_request(&request));
    request.router_config_override =
        Some(RouterConfigOverride { track_prefill_tokens: Some(true), ..decode_override(0.0) });
    assert!(!is_disaggregated_decode_request(&request));
}

#[test]
fn selectors_are_made_from_settings() {
    let selector = DefaultWorkerSelector::new(None, "decode", Some(" KV-Aware "));
    assert_eq!(selector.worker_selection_formula, WorkerSelectionFormula::KvAware);
    assert_eq!(selector.worker_type, "decode");
    assert_eq!(float(selector.kv_router_config.overlap_score_weight), 1.0);
    assert_eq!(float(selector.kv_router_config.router_temperature), 0.0);

    let config = KvRouterConfig {
        overlap_score_weight: number(2.0),
        router_temperature: number(0.5),
    };
    let selector = DefaultWorkerSelector::new(Some(config), "prefill", None);
    assert_eq!(
        selector.kv_router_config.overlap_score_weight,
        config.overlap_score_weight
    );
    assert_eq!(selector.kv_router_config.router_temperature, config.router_temperature);
    assert_eq!(selector.worker_selection_formula, WorkerSelectionFormula::OverlapLoad);
    assert_eq!(DefaultWorkerSelector::default().worker_type, "unknown");
}

#[test]
fn requests_that_cannot_be_scored_are_told_apart() {
    let selector = test_selector(WorkerSelectionFormula::Vllm);
    let workers = two_workers();
    assert!(selector.is_selectable(&workers, &plain_request(1), 16));
    assert!(!selector.is_selectable(&workers, &plain_request(0), 16));
    assert!(!selector.is_selectable(&workers, &plain_request(1), 0));

    let none: HashMap<u64, SimpleWorkerConfig> = HashMap::new();
    assert!(selector.is_selectable(&none, &plain_request(1), 0));

    let config = SimpleWorkerConfig::default();
    let rankless = HashMap::from([(0, SimpleWorkerConfig { data_parallel_size: 0, ..config })]);
    assert!(!selector.is_selectable(&rankless, &plain_request(1), 16));
    let overflowing =
        HashMap::from([(0, SimpleWorkerConfig { data_parallel_start_rank: u32::MAX, ..config })]);
    assert!(!selector.is_selectable(&overflowing, &plain_request(1), 16));

    let mut busy = plain_request(1);
    busy.active_request_counts.insert(WorkerWithDpRank::new(1, 0), usize::MAX);
    assert!(!selector.is_selectable(&workers, &busy, 16));
    busy.pinned_worker = Some(WorkerWithDpRank::new(0, 0));
    assert!(selector.is_selectable(&workers, &busy, 16));
    busy.pinned_worker = Some(WorkerWithDpRank::new(1, 0));
    assert!(!selector.is_selectable(&workers, &busy, 16));

    let small = HashMap::from([(0, SimpleWorkerConfig { max_num_seqs: Some(1), ..config })]);
    let mut queued = plain_request(1);
    queued.active_request_counts.insert(WorkerWithDpRank::new(0, 0), usize::MAX / 2);
    assert!(!selector.is_selectable(&small, &queued, 16));
}
