//! Choosing among workers whose scores are equal.

use super::formula::kv_aware_running;
use super::types::SchedulingRequest;
use super::workers::WorkerWithDpRank;
use crate::binary64::Binary64;
use rand::Rng;
use vstd::prelude::*;

verus! {

/// `Rng::random_range` over `0..bound` on the thread's generator, `rand::rng()`.
///
/// Trusted: what comes back lies below `bound`. Which of these numbers it is, is left to chance.
#[verifier::external_body]
pub(crate) fn random_index(bound: usize) -> (index: usize)
    requires
        bound > 0,
    ensures
        index < bound,
{
    rand::rng().random_range(0..bound)
}

/// Whether `keys[i]` is the first of the smallest keys.
pub open spec fn is_first_smallest(keys: Seq<usize>, i: int) -> bool {
    &&& 0 <= i < keys.len()
    &&& forall|j: int| 0 <= j < keys.len() ==> keys[i] <= #[trigger] keys[j]
    &&& forall|j: int| 0 <= j < i ==> keys[i] < #[trigger] keys[j]
}

/// Whether all keys are one number.
pub open spec fn all_equal(keys: Seq<usize>) -> bool {
    forall|i: int| 0 <= i < keys.len() ==> #[trigger] keys[i] == keys[0]
}

/// The size of each worker's tree; zero where none is known.
pub open spec fn tree_sizes(
    workers: Seq<WorkerWithDpRank>,
    request: SchedulingRequest,
) -> Seq<usize> {
    workers.map_values(|w: WorkerWithDpRank| request.overlaps.tree_sizes.value_or(w, 0))
}

/// How many requests each worker serves; zero where none is known.
pub open spec fn active_counts(
    workers: Seq<WorkerWithDpRank>,
    request: SchedulingRequest,
) -> Seq<usize> {
    workers.map_values(|w: WorkerWithDpRank| request.active_request_counts.value_or(w, 0))
}

/// Whether breaking a tie by tree size can end with `chosen`: the first of the workers with the
/// smallest tree or, where all trees are of one size, any of the workers.
pub open spec fn tree_size_outcome(
    workers: Seq<WorkerWithDpRank>,
    request: SchedulingRequest,
    chosen: WorkerWithDpRank,
) -> bool {
    let sizes = tree_sizes(workers, request);
    if all_equal(sizes) {
        workers.contains(chosen)
    } else {
        exists|i: int| #[trigger] is_first_smallest(sizes, i) && chosen == workers[i]
    }
}

/// Whether no worker of `workers` serves fewer requests than `worker`.
pub open spec fn is_least_busy(
    workers: Seq<WorkerWithDpRank>,
    request: SchedulingRequest,
    worker: WorkerWithDpRank,
) -> bool {
    forall|i: int|
        0 <= i < workers.len() ==> request.active_request_counts.value_or(worker, 0)
            <= #[trigger] active_counts(workers, request)[i]
}

/// Those of `workers` that serve the fewest requests among them, in order.
pub open spec fn least_busy(
    workers: Seq<WorkerWithDpRank>,
    request: SchedulingRequest,
) -> Seq<WorkerWithDpRank> {
    workers.filter(|w: WorkerWithDpRank| is_least_busy(workers, request, w))
}

/// Whether breaking a tie of the kv-aware formula can end with `chosen`: the least busy worker or,
/// where several are, one of them as [`tree_size_outcome`] says.
pub open spec fn kv_aware_outcome(
    workers: Seq<WorkerWithDpRank>,
    request: SchedulingRequest,
    chosen: WorkerWithDpRank,
) -> bool {
    let idle = least_busy(workers, request);
    if idle.len() == 1 {
        chosen == idle[0]
    } else {
        tree_size_outcome(idle, request, chosen)
    }
}

/// The place of the first smallest key.
fn first_smallest(keys: &Vec<usize>) -> (place: usize)
    requires
        keys.len() > 0,
    ensures
        is_first_smallest(keys@, place as int),
{
    let mut place: usize = 0;
    let mut i: usize = 1;
    while i < keys.len()
        invariant
            1 <= i <= keys.len(),
            is_first_smallest(keys@.take(i as int), place as int),
        decreases keys.len() - i,
    {
        let ghost before = keys@.take(i as int);
        let ghost after = keys@.take(i + 1);
        assert(forall|j: int| 0 <= j < i ==> before[j] == after[j]);
        if keys[i] < keys[place] {
            place = i;
        }
        assert forall|j: int| 0 <= j < after.len() implies after[place as int]
            <= #[trigger] after[j] by {
            if j < i {
                assert(before[j] == after[j]);
            }
        }
        assert forall|j: int| 0 <= j < place implies after[place as int]
            < #[trigger] after[j] by {
            assert(before[j] == after[j]);
        }
        i = i + 1;
    }
    assert(keys@.take(keys@.len() as int) =~= keys@);
    place
}

/// Where the workers' tree sizes alone decide: the place of the worker to choose, or `None` where
/// all trees are of one size and chance decides.
pub fn tree_size_choice(workers: &Vec<WorkerWithDpRank>, request: &SchedulingRequest) -> (place: Option<
    usize,
>)
    requires
        workers.len() > 0,
    ensures
        place is None <==> all_equal(tree_sizes(workers@, *request)),
        place matches Some(i) ==> is_first_smallest(tree_sizes(workers@, *request), i as int),
        place is None <==> forall|j: int|
            0 <= j < workers.len() ==> request.overlaps.tree_sizes.value_or(
                #[trigger] workers@[j],
                0,
            ) == request.overlaps.tree_sizes.value_or(workers@[0], 0),
        place matches Some(i) ==> {
            &&& i < workers.len()
            &&& forall|j: int|
                0 <= j < workers.len() ==> request.overlaps.tree_sizes.value_or(workers@[i as int], 0)
                    <= request.overlaps.tree_sizes.value_or(#[trigger] workers@[j], 0)
            &&& forall|j: int|
                0 <= j < i ==> request.overlaps.tree_sizes.value_or(workers@[i as int], 0)
                    < request.overlaps.tree_sizes.value_or(#[trigger] workers@[j], 0)
        },
{
    let ghost wanted = tree_sizes(workers@, *request);
    let mut sizes: Vec<usize> = Vec::new();
    let mut equal: bool = true;
    let mut i: usize = 0;
    while i < workers.len()
        invariant
            i <= workers.len(),
            wanted == tree_sizes(workers@, *request),
            sizes@ == wanted.take(i as int),
            equal <==> forall|j: int| 0 <= j < i ==> #[trigger] wanted[j] == wanted[0],
        decreases workers.len() - i,
    {
        let size: usize = request.overlaps.tree_sizes.get_or(&workers[i], 0);
        assert(size == wanted[i as int]);
        sizes.push(size);
        assert(sizes@ =~= wanted.take(i + 1));
        if size != sizes[0] {
            equal = false;
        }
        i = i + 1;
    }
    assert(sizes@ =~= wanted);
    assert(forall|j: int|
        0 <= j < workers.len() ==> request.overlaps.tree_sizes.value_or(#[trigger] workers@[j], 0)
            == wanted[j]);
    if equal {
        None
    } else {
        let place: usize = first_smallest(&sizes);
        assert(wanted[place as int] == request.overlaps.tree_sizes.value_or(
            workers@[place as int],
            0,
        ));
        proof {
            let j = choose|j: int| 0 <= j < wanted.len() && #[trigger] wanted[j] != wanted[0];
            assert(request.overlaps.tree_sizes.value_or(workers@[j], 0) == wanted[j]);
        }
        Some(place)
    }
}

/// Breaks a tie in favour of the worker with the smallest tree; where all trees are of one size, in
/// favour of the worker at the place `drawn`.
pub fn settle_tie_by_tree_size(
    min_workers: &Vec<WorkerWithDpRank>,
    request: &SchedulingRequest,
    min_score: Binary64,
    drawn: usize,
) -> (choice: (WorkerWithDpRank, Binary64))
    requires
        drawn < min_workers.len(),
    ensures
        all_equal(tree_sizes(min_workers@, *request)) ==> choice.0 == min_workers@[drawn as int],
        forall|i: int| #[trigger]
            is_first_smallest(tree_sizes(min_workers@, *request), i) && !all_equal(
                tree_sizes(min_workers@, *request),
            ) ==> choice.0 == min_workers@[i],
        tree_size_outcome(min_workers@, *request, choice.0),
        (forall|j: int|
            0 <= j < min_workers.len() ==> request.overlaps.tree_sizes.value_or(
                #[trigger] min_workers@[j],
                0,
            ) == request.overlaps.tree_sizes.value_or(min_workers@[0], 0)) ==> choice.0
            == min_workers@[drawn as int],
        choice.1 == min_score,
{
    let idx: usize = match tree_size_choice(min_workers, request) {
        None => drawn,
        Some(idx) => idx,
    };
    assert(min_workers@.contains(min_workers@[idx as int]));
    assert forall|i: int| #[trigger]
        is_first_smallest(tree_sizes(min_workers@, *request), i) && !all_equal(
            tree_sizes(min_workers@, *request),
        ) implies i == idx by {
        let sizes = tree_sizes(min_workers@, *request);
        assert(is_first_smallest(sizes, idx as int));
        assert(sizes[i] <= sizes[idx as int] && sizes[idx as int] <= sizes[i]);
    }
    (min_workers[idx], min_score)
}

/// Breaks a tie in favour of the worker with the smallest tree; where all trees are of one size,
/// chance decides.
pub fn break_tied_workers_by_tree_size(
    min_workers: &Vec<WorkerWithDpRank>,
    request: &SchedulingRequest,
    min_score: Binary64,
) -> (choice: (WorkerWithDpRank, Binary64))
    requires
        min_workers.len() > 0,
    ensures
        tree_size_outcome(min_workers@, *request, choice.0),
        choice.1 == min_score,
{
    settle_tie_by_tree_size(min_workers, request, min_score, random_index(min_workers.len()))
}

/// Those of `min_workers` that serve the fewest requests, in order.
pub fn least_busy_workers(min_workers: &Vec<WorkerWithDpRank>,
    request: &SchedulingRequest) -> (idle: Vec<
    WorkerWithDpRank,
>)
    requires
        min_workers.len() > 0,
        forall|i: int|
            0 <= i < min_workers.len() ==> #[trigger] active_counts(min_workers@, *request)[i]
                < usize::MAX,
    ensures
        idle@ == least_busy(min_workers@, *request),
        idle@ == min_workers@.filter(
            |w: WorkerWithDpRank|
                forall|j: int|
                    0 <= j < min_workers@.len() ==> request.active_request_counts.value_or(w, 0)
                        <= request.active_request_counts.value_or(#[trigger] min_workers@[j], 0),
        ),
        idle.len() > 0,
{
    let ghost counts = active_counts(min_workers@, *request);
    let mut runnings: Vec<usize> = Vec::new();
    let mut i: usize = 0;
    while i < min_workers.len()
        invariant
            i <= min_workers.len(),
            counts == active_counts(min_workers@, *request),
            forall|j: int| 0 <= j < min_workers.len() ==> #[trigger] counts[j] < usize::MAX,
            runnings.len() == i,
            forall|j: int| 0 <= j < i ==> #[trigger] runnings@[j] == counts[j] + 1,
        decreases min_workers.len() - i,
    {
        let active: usize = request.active_request_counts.get_or(&min_workers[i], 0);
        assert(active == counts[i as int]);
        runnings.push(kv_aware_running(active));
        i = i + 1;
    }
    let min_running: usize = runnings[first_smallest(&runnings)];
    let mut min_running_workers: Vec<WorkerWithDpRank> = Vec::new();
    let ghost kept = |w: WorkerWithDpRank| is_least_busy(min_workers@, *request, w);
    let mut k: usize = 0;
    assert(min_workers@.take(0).filter(kept) =~= Seq::<WorkerWithDpRank>::empty()) by {
        reveal(Seq::filter);
    }
    while k < min_workers.len()
        invariant
            k <= min_workers.len(),
            counts == active_counts(min_workers@, *request),
            runnings.len() == min_workers.len(),
            forall|j: int| 0 <= j < runnings.len() ==> #[trigger] runnings@[j] == counts[j] + 1,
            forall|j: int| 0 <= j < runnings.len() ==> min_running <= #[trigger] runnings@[j],
            runnings@.contains(min_running),
            kept == (|w: WorkerWithDpRank| is_least_busy(min_workers@, *request, w)),
            min_running_workers@ == min_workers@.take(k as int).filter(kept),
        decreases min_workers.len() - k,
    {
        let ghost worker = min_workers@[k as int];
        proof {
            reveal(Seq::filter);
            assert(min_workers@.take(k + 1).drop_last() =~= min_workers@.take(k as int));
            let least = choose|j: int| 0 <= j < runnings@.len() && runnings@[j] == min_running;
            assert(counts[k as int] == request.active_request_counts.value_or(worker, 0));
            if runnings@[k as int] == min_running {
                assert forall|j: int| 0 <= j < min_workers@.len() implies
                    request.active_request_counts.value_or(worker, 0) <= #[trigger] active_counts(
                    min_workers@,
                    *request,
                )[j] by {
                    assert(min_running <= runnings@[j]);
                }
                assert(kept(worker));
            } else {
                assert(active_counts(min_workers@, *request)[least] == counts[least]);
                assert(!kept(worker));
            }
        }
        if runnings[k] == min_running {
            min_running_workers.push(min_workers[k]);
        }
        k = k + 1;
    }
    assert(min_workers@.take(min_workers@.len() as int) =~= min_workers@);
    assert(min_running_workers@.len() > 0) by {
        let least = choose|j: int| 0 <= j < runnings@.len() && runnings@[j] == min_running;
        assert forall|j: int| 0 <= j < min_workers@.len() implies
            request.active_request_counts.value_or(min_workers@[least], 0)
            <= #[trigger] active_counts(min_workers@, *request)[j] by {
            assert(min_running <= runnings@[j]);
            assert(counts[least] == request.active_request_counts.value_or(min_workers@[least], 0));
            assert(runnings@[least] == counts[least] + 1);
        }
        assert(kept(min_workers@[least]));
        broadcast use vstd::seq_lib::group_filter_ensures;

        assert(min_workers@.filter(kept).contains(min_workers@[least]));
    }
    proof {
        law_least_busy_serve_the_fewest(min_workers@, *request);
    }
    min_running_workers
}

/// Breaks a tie of the kv-aware formula in favour of the worker that serves the fewest requests, and
/// then by tree size.
pub fn break_kv_aware_tie(
    min_workers: &Vec<WorkerWithDpRank>,
    request: &SchedulingRequest,
    min_score: Binary64,
) -> (choice: (WorkerWithDpRank, Binary64))
    requires
        min_workers.len() > 0,
        forall|i: int|
            0 <= i < min_workers.len() ==> #[trigger] active_counts(min_workers@, *request)[i]
                < usize::MAX,
    ensures
        kv_aware_outcome(min_workers@, *request, choice.0),
        choice.1 == min_score,
{
    let min_running_workers: Vec<WorkerWithDpRank> = least_busy_workers(min_workers, request);
    if min_running_workers.len() == 1 {
        (min_running_workers[0], min_score)
    } else {
        break_tied_workers_by_tree_size(&min_running_workers, request, min_score)
    }
}

/// The places that a filter keeps, in order.
proof fn lemma_filter_keeps_places<T>(s: Seq<T>, p: spec_fn(T) -> bool) -> (places: Seq<int>)
    ensures
        places.len() == s.filter(p).len(),
        forall|k: int|
            0 <= k < places.len() ==> 0 <= #[trigger] places[k] < s.len() && p(s[places[k]])
                && s.filter(p)[k] == s[places[k]],
        forall|k: int, l: int|
            0 <= k < l < places.len() ==> #[trigger] places[k] < #[trigger] places[l],
        forall|i: int|
            0 <= i < s.len() && p(#[trigger] s[i]) ==> exists|k: int|
                0 <= k < places.len() && #[trigger] places[k] == i,
    decreases s.len(),
{
    reveal(Seq::filter);
    if s.len() == 0 {
        Seq::empty()
    } else {
        let before = lemma_filter_keeps_places(s.drop_last(), p);
        let n = s.len() - 1;
        let places = if p(s.last()) {
            before.push(n)
        } else {
            before
        };
        assert(forall|k: int| 0 <= k < before.len() ==> places[k] == #[trigger] before[k]);
        assert forall|i: int| 0 <= i < s.len() && p(#[trigger] s[i]) implies exists|k: int|
            0 <= k < places.len() && #[trigger] places[k] == i by {
            if i < n {
                assert(s.drop_last()[i] == s[i]);
                let k = choose|k: int| 0 <= k < before.len() && #[trigger] before[k] == i;
                assert(places[k] == i);
            } else {
                assert(places[before.len() as int] == n);
            }
        }
        assert forall|k: int| 0 <= k < places.len() implies 0 <= #[trigger] places[k] < s.len() && p(
            s[places[k]],
        ) && s.filter(p)[k] == s[places[k]] by {
            if k < before.len() {
                assert(before[k] == places[k]);
                assert(s.drop_last()[before[k]] == s[before[k]]);
            }
        }
        places
    }
}

/// The least busy of the tied workers are those that no tied worker serves fewer requests than, in
/// their order.
pub proof fn law_least_busy_serve_the_fewest(
    workers: Seq<WorkerWithDpRank>,
    request: SchedulingRequest,
)
    ensures
        least_busy(workers, request) == workers.filter(
            |w: WorkerWithDpRank|
                forall|j: int|
                    0 <= j < workers.len() ==> request.active_request_counts.value_or(w, 0)
                        <= request.active_request_counts.value_or(#[trigger] workers[j], 0),
        ),
{
    let stated = |w: WorkerWithDpRank|
        forall|j: int|
            0 <= j < workers.len() ==> request.active_request_counts.value_or(w, 0)
                <= request.active_request_counts.value_or(#[trigger] workers[j], 0);
    let named = |w: WorkerWithDpRank| is_least_busy(workers, request, w);
    let counts = active_counts(workers, request);
    assert(forall|j: int|
        0 <= j < workers.len() ==> #[trigger] counts[j] == request.active_request_counts.value_or(
            workers[j],
            0,
        ));
    assert forall|w: WorkerWithDpRank| #[trigger] stated(w) == named(w) by {
        if stated(w) {
            assert forall|i: int|
                0 <= i < workers.len() implies request.active_request_counts.value_or(w, 0)
                <= #[trigger] active_counts(workers, request)[i] by {
                assert(request.active_request_counts.value_or(workers[i], 0) == counts[i]);
            }
        }
        if named(w) {
            assert(is_least_busy(workers, request, w));
            assert forall|j: int|
                0 <= j < workers.len() implies request.active_request_counts.value_or(w, 0)
                <= request.active_request_counts.value_or(#[trigger] workers[j], 0) by {
                assert(request.active_request_counts.value_or(w, 0) <= active_counts(
                    workers,
                    request,
                )[j]);
                assert(counts[j] == request.active_request_counts.value_or(workers[j], 0));
            }
        }
    }
    assert(stated =~= named);
}

/// A tie that is broken by tree size goes to a worker with the smallest tree, and unless all trees are
/// of one size to the first of them.
pub proof fn law_tie_goes_to_the_first_smallest_tree(
    workers: Seq<WorkerWithDpRank>,
    request: SchedulingRequest,
    chosen: WorkerWithDpRank,
) -> (place: int)
    requires
        tree_size_outcome(workers, request, chosen),
    ensures
        0 <= place < workers.len(),
        chosen == workers[place],
        forall|j: int|
            0 <= j < workers.len() ==> request.overlaps.tree_sizes.value_or(chosen, 0)
                <= request.overlaps.tree_sizes.value_or(#[trigger] workers[j], 0),
        (forall|j: int|
            0 <= j < workers.len() ==> request.overlaps.tree_sizes.value_or(#[trigger] workers[j], 0)
                == request.overlaps.tree_sizes.value_or(chosen, 0)) || (forall|j: int|
            0 <= j < place ==> request.overlaps.tree_sizes.value_or(chosen, 0)
                < request.overlaps.tree_sizes.value_or(#[trigger] workers[j], 0)),
{
    let sizes = tree_sizes(workers, request);
    assert(forall|j: int|
        0 <= j < workers.len() ==> request.overlaps.tree_sizes.value_or(#[trigger] workers[j], 0)
            == sizes[j]);
    if all_equal(sizes) {
        choose|i: int| 0 <= i < workers.len() && workers[i] == chosen
    } else {
        choose|i: int| #[trigger] is_first_smallest(sizes, i) && chosen == workers[i]
    }
}

/// A tie of the kv-aware formula goes to a worker that serves the fewest requests, of these to one with
/// the smallest tree and, unless all their trees are of one size, to the first such.
pub proof fn law_kv_aware_tie_goes_to_the_first_smallest_tree(
    workers: Seq<WorkerWithDpRank>,
    request: SchedulingRequest,
    chosen: WorkerWithDpRank,
) -> (place: int)
    requires
        kv_aware_outcome(workers, request, chosen),
    ensures
        0 <= place < workers.len(),
        chosen == workers[place],
        forall|j: int|
            0 <= j < workers.len() ==> request.active_request_counts.value_or(chosen, 0)
                <= request.active_request_counts.value_or(#[trigger] workers[j], 0),
        forall|j: int|
            0 <= j < workers.len() && request.active_request_counts.value_or(#[trigger] workers[j], 0)
                == request.active_request_counts.value_or(chosen, 0)
                ==> request.overlaps.tree_sizes.value_or(chosen, 0)
                <= request.overlaps.tree_sizes.value_or(workers[j], 0),
        (forall|j: int|
            0 <= j < workers.len() && request.active_request_counts.value_or(#[trigger] workers[j], 0)
                == request.active_request_counts.value_or(chosen, 0)
                ==> request.overlaps.tree_sizes.value_or(workers[j], 0)
                == request.overlaps.tree_sizes.value_or(chosen, 0)) || (forall|j: int|
            0 <= j < place && request.active_request_counts.value_or(#[trigger] workers[j], 0)
                == request.active_request_counts.value_or(chosen, 0)
                ==> request.overlaps.tree_sizes.value_or(chosen, 0)
                < request.overlaps.tree_sizes.value_or(workers[j], 0)),
{
    let idle = least_busy(workers, request);
    let kept = |w: WorkerWithDpRank|
        forall|j: int|
            0 <= j < workers.len() ==> request.active_request_counts.value_or(w, 0)
                <= request.active_request_counts.value_or(#[trigger] workers[j], 0);
    law_least_busy_serve_the_fewest(workers, request);
    let places = lemma_filter_keeps_places(workers, kept);
    let k = if idle.len() == 1 {
        0
    } else {
        law_tie_goes_to_the_first_smallest_tree(idle, request, chosen)
    };
    let place = places[k];
    assert(kept(workers[place]));
    assert forall|j: int|
        0 <= j < workers.len() && request.active_request_counts.value_or(#[trigger] workers[j], 0)
            == request.active_request_counts.value_or(chosen, 0) implies exists|l: int|
        0 <= l < idle.len() && #[trigger] places[l] == j && idle[l] == workers[j] by {
        assert(kept(workers[j]));
        let l = choose|l: int| 0 <= l < places.len() && #[trigger] places[l] == j;
        assert(places[l] == j && idle[l] == workers[j]);
    }
    assert forall|j: int|
        0 <= j < workers.len() && request.active_request_counts.value_or(#[trigger] workers[j], 0)
            == request.active_request_counts.value_or(chosen, 0)
                implies request.overlaps.tree_sizes.value_or(
        chosen,
        0,
    ) <= request.overlaps.tree_sizes.value_or(workers[j], 0) by {
        let l = choose|l: int|
            0 <= l < idle.len() && #[trigger] places[l] == j && idle[l] == workers[j];
        assert(idle[l] == workers[j]);
    }
    if forall|l: int|
        0 <= l < idle.len() ==> request.overlaps.tree_sizes.value_or(#[trigger] idle[l], 0)
            == request.overlaps.tree_sizes.value_or(chosen, 0) {
        assert forall|j: int|
            0 <= j < workers.len() && request.active_request_counts.value_or(
                #[trigger] workers[j],
                0,
            ) == request.active_request_counts.value_or(chosen, 0) implies
            request.overlaps.tree_sizes.value_or(workers[j], 0)
            == request.overlaps.tree_sizes.value_or(chosen, 0) by {
            let l = choose|l: int|
                0 <= l < idle.len() && #[trigger] places[l] == j && idle[l] == workers[j];
            assert(idle[l] == workers[j]);
        }
    } else {
        assert forall|j: int|
            0 <= j < place && request.active_request_counts.value_or(#[trigger] workers[j], 0)
                == request.active_request_counts.value_or(chosen, 0) implies
            request.overlaps.tree_sizes.value_or(chosen, 0) < request.overlaps.tree_sizes.value_or(
            workers[j],
            0,
        ) by {
            let l = choose|l: int|
                0 <= l < idle.len() && #[trigger] places[l] == j && idle[l] == workers[j];
            if l >= k {
                if k < l {
                    assert(places[k] < places[l]);
                }
                assert(false);
            }
            assert(idle[l] == workers[j]);
        }
    }
    place
}

/// A filter that every element passes keeps them all.
pub proof fn lemma_filter_keeps_all<T>(s: Seq<T>, p: spec_fn(T) -> bool)
    requires
        forall|i: int| 0 <= i < s.len() ==> p(#[trigger] s[i]),
    ensures
        s.filter(p) == s,
    decreases s.len(),
{
    reveal(Seq::filter);
    if s.len() > 0 {
        assert forall|i: int| 0 <= i < s.drop_last().len() implies p(#[trigger] s.drop_last()[i]) by {
            assert(s.drop_last()[i] == s[i]);
        }
        lemma_filter_keeps_all(s.drop_last(), p);
        assert(p(s[s.len() - 1]));
    }
    assert(s.filter(p) =~= s);
}

/// Chance decides among workers whose trees are all of one size: each of them may win, and which one
/// does is left to the draw alone.
pub proof fn law_equal_trees_may_all_win(
    workers: Seq<WorkerWithDpRank>,
    request: SchedulingRequest,
    chosen: WorkerWithDpRank,
)
    requires
        workers.contains(chosen),
        forall|i: int|
            0 <= i < workers.len() ==> request.overlaps.tree_sizes.value_or(#[trigger] workers[i], 0)
                == request.overlaps.tree_sizes.value_or(chosen, 0),
    ensures
        tree_size_outcome(workers, request, chosen),
        workers.len() == 1 ==> chosen == workers[0],
{
    let sizes = tree_sizes(workers, request);
    assert forall|i: int| 0 <= i < sizes.len() implies #[trigger] sizes[i] == sizes[0] by {
        assert(sizes[i] == request.overlaps.tree_sizes.value_or(workers[i], 0));
        assert(sizes[0] == request.overlaps.tree_sizes.value_or(workers[0], 0));
    }
}

/// A tie that is broken by tree size goes to one of the tied workers, and no tied worker has a
/// smaller tree.
pub proof fn law_tie_goes_to_smallest_tree(
    workers: Seq<WorkerWithDpRank>,
    request: SchedulingRequest,
    chosen: WorkerWithDpRank,
)
    requires
        tree_size_outcome(workers, request, chosen),
    ensures
        workers.contains(chosen),
        forall|other: WorkerWithDpRank| #[trigger]
            workers.contains(other) ==> request.overlaps.tree_sizes.value_or(chosen, 0)
                <= request.overlaps.tree_sizes.value_or(other, 0),
{
    let sizes = tree_sizes(workers, request);
    let place = if all_equal(sizes) {
        choose|i: int| 0 <= i < workers.len() && workers[i] == chosen
    } else {
        choose|i: int| #[trigger] is_first_smallest(sizes, i) && chosen == workers[i]
    };
    assert(workers[place] == chosen);
    assert(sizes[place] == request.overlaps.tree_sizes.value_or(chosen, 0));
    assert forall|other: WorkerWithDpRank| #[trigger] workers.contains(other) implies
        request.overlaps.tree_sizes.value_or(chosen, 0)
        <= request.overlaps.tree_sizes.value_or(other, 0) by {
        let i = choose|i: int| 0 <= i < workers.len() && workers[i] == other;
        assert(sizes[i] == request.overlaps.tree_sizes.value_or(other, 0));
    }
}

/// A tie of the kv-aware formula goes to one of the tied workers; no tied worker serves fewer
/// requests, and none that serves as few has a smaller tree.
pub proof fn law_kv_aware_tie_goes_to_least_busy(
    workers: Seq<WorkerWithDpRank>,
    request: SchedulingRequest,
    chosen: WorkerWithDpRank,
)
    requires
        kv_aware_outcome(workers, request, chosen),
    ensures
        workers.contains(chosen),
        forall|other: WorkerWithDpRank| #[trigger]
            workers.contains(other) ==> {
                let mine = request.active_request_counts.value_or(chosen, 0);
                let theirs = request.active_request_counts.value_or(other, 0);
                mine < theirs || (mine == theirs && request.overlaps.tree_sizes.value_or(chosen, 0)
                    <= request.overlaps.tree_sizes.value_or(other, 0))
            },
{
    broadcast use vstd::seq_lib::group_filter_ensures;

    let idle = least_busy(workers, request);
    let kept = |w: WorkerWithDpRank| is_least_busy(workers, request, w);
    if idle.len() == 1 {
        assert(idle.contains(chosen));
    } else {
        law_tie_goes_to_smallest_tree(idle, request, chosen);
    }
    assert(idle == workers.filter(kept));
    workers.lemma_filter_contains_rev(kept, chosen);
    let place = choose|i: int| 0 <= i < idle.len() && idle[i] == chosen;
    assert(kept(idle[place]));
    assert(is_least_busy(workers, request, chosen));
    assert forall|other: WorkerWithDpRank| #[trigger] workers.contains(other) implies {
        let mine = request.active_request_counts.value_or(chosen, 0);
        let theirs = request.active_request_counts.value_or(other, 0);
        mine < theirs || (mine == theirs && request.overlaps.tree_sizes.value_or(chosen, 0)
            <= request.overlaps.tree_sizes.value_or(other, 0))
    } by {
        let i = choose|i: int| 0 <= i < workers.len() && workers[i] == other;
        let counts = active_counts(workers, request);
        assert(counts[i] == request.active_request_counts.value_or(other, 0));
        if request.active_request_counts.value_or(chosen, 0) == counts[i] {
            assert(kept(workers[i]));
            assert(idle.contains(other));
            if idle.len() == 1 {
                assert(other == chosen);
            }
        }
    }
}

} // verus!
