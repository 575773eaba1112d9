//! Finding the workers with the lowest score.

use super::workers::WorkerWithDpRank;
use crate::binary64::{Binary64, INFINITY_BITS};
use vstd::prelude::*;

verus! {

/// Whether `logit` is a number that no score in `scored` is below.
pub open spec fn is_lowest(scored: Seq<(WorkerWithDpRank, Binary64)>, logit: Binary64) -> bool {
    &&& !logit.nan()
    &&& forall|j: int| 0 <= j < scored.len() ==> !(#[trigger] scored[j]).1.num_lt(logit)
}

/// The workers whose score is lowest, in order. A worker whose score is a NaN is never among them.
pub open spec fn lowest_workers(scored: Seq<(WorkerWithDpRank, Binary64)>) -> Seq<
    WorkerWithDpRank,
> {
    scored.filter(|entry: (WorkerWithDpRank, Binary64)| is_lowest(scored, entry.1)).map_values(
        |entry: (WorkerWithDpRank, Binary64)| entry.0,
    )
}

/// The predicate of having the number `score`.
spec fn has_score(score: Binary64) -> spec_fn((WorkerWithDpRank, Binary64)) -> bool {
    |entry: (WorkerWithDpRank, Binary64)| entry.1.num_eq(score)
}

spec fn workers_of(scored: Seq<(WorkerWithDpRank, Binary64)>) -> Seq<WorkerWithDpRank> {
    scored.map_values(|entry: (WorkerWithDpRank, Binary64)| entry.0)
}

proof fn lemma_filter_agrees<A>(s: Seq<A>, p: spec_fn(A) -> bool, q: spec_fn(A) -> bool)
    requires
        forall|i: int| 0 <= i < s.len() ==> p(#[trigger] s[i]) == q(s[i]),
    ensures
        s.filter(p) == s.filter(q),
    decreases s.len(),
{
    reveal(Seq::filter);
    if s.len() > 0 {
        assert forall|i: int| 0 <= i < s.drop_last().len() implies p(#[trigger] s.drop_last()[i])
            == q(s.drop_last()[i]) by {
            assert(s.drop_last()[i] == s[i]);
        }
        lemma_filter_agrees(s.drop_last(), p, q);
        assert(p(s[s.len() - 1]) == q(s[s.len() - 1]));
    }
}

proof fn lemma_filter_keeps_nothing<A>(s: Seq<A>, p: spec_fn(A) -> bool)
    requires
        forall|i: int| 0 <= i < s.len() ==> !p(#[trigger] s[i]),
    ensures
        s.filter(p) == Seq::<A>::empty(),
    decreases s.len(),
{
    reveal(Seq::filter);
    if s.len() > 0 {
        assert forall|i: int| 0 <= i < s.drop_last().len() implies !p(
            #[trigger] s.drop_last()[i],
        ) by {
            assert(s.drop_last()[i] == s[i]);
        }
        lemma_filter_keeps_nothing(s.drop_last(), p);
        assert(!p(s[s.len() - 1]));
    }
    assert(s.filter(p) =~= Seq::<A>::empty());
}

/// The workers whose score is lowest, in order, and that score.
pub fn lowest_scored(scored: &Vec<(WorkerWithDpRank, Binary64)>) -> (lowest: (
    Vec<WorkerWithDpRank>,
    Binary64,
))
    ensures
        lowest.0@ == lowest_workers(scored@),
        lowest.0@ == scored@.filter(
            |entry: (WorkerWithDpRank, Binary64)|
                !entry.1.nan() && forall|j: int|
                    0 <= j < scored@.len() ==> !(#[trigger] scored@[j]).1.num_lt(entry.1),
        ).map_values(|entry: (WorkerWithDpRank, Binary64)| entry.0),
        forall|i: int|
            0 <= i < scored.len() && is_lowest(scored@, (#[trigger] scored@[i]).1)
                ==> lowest.1.num_eq(scored@[i].1),
        (forall|i: int| 0 <= i < scored.len() ==> (#[trigger] scored@[i]).1.nan()) ==> lowest.1.bits
            == INFINITY_BITS,
{
    let mut min_workers: Vec<WorkerWithDpRank> = Vec::new();
    let mut min_score: Binary64 = Binary64::from_bits(INFINITY_BITS);
    let mut i: usize = 0;
    proof {
        reveal(Seq::filter);
        assert(workers_of(scored@.take(0).filter(has_score(min_score))) =~= Seq::<
            WorkerWithDpRank,
        >::empty());
    }
    while i < scored.len()
        invariant
            i <= scored.len(),
            !min_score.nan(),
            min_workers@ == workers_of(scored@.take(i as int).filter(has_score(min_score))),
            forall|j: int| 0 <= j < i ==> !(#[trigger] scored@[j]).1.num_lt(min_score),
            min_score.bits == INFINITY_BITS || exists|j: int|
                0 <= j < i && (#[trigger] scored@[j]).1 == min_score,
        decreases scored.len() - i,
    {
        let entry: (WorkerWithDpRank, Binary64) = scored[i];
        let ghost before = scored@.take(i as int);
        let ghost after = scored@.take(i + 1);
        proof {
            assert(after.drop_last() =~= before);
            assert(after.last() == entry);
        }
        if entry.1.less_than(min_score) {
            proof {
                assert forall|j: int| 0 <= j < before.len() implies !has_score(entry.1)(
                    #[trigger] before[j],
                ) by {
                    assert(before[j] == scored@[j]);
                }
                lemma_filter_keeps_nothing(before, has_score(entry.1));
                reveal(Seq::filter);
                assert(after.filter(has_score(entry.1)) =~= seq![entry]);
            }
            min_workers.clear();
            min_workers.push(entry.0);
            min_score = entry.1;
            assert(min_workers@ =~= workers_of(after.filter(has_score(min_score))));
            assert(scored@[i as int].1 == min_score);
        } else if entry.1.same_number(min_score) {
            proof {
                reveal(Seq::filter);
                assert(after.filter(has_score(min_score)) == before.filter(
                    has_score(min_score),
                ).push(entry));
            }
            min_workers.push(entry.0);
            assert(min_workers@ =~= workers_of(after.filter(has_score(min_score))));
        } else {
            proof {
                reveal(Seq::filter);
                assert(after.filter(has_score(min_score)) == before.filter(has_score(min_score)));
            }
        }
        i = i + 1;
    }
    proof {
        assert(scored@.take(scored@.len() as int) =~= scored@);
        let lowest = |entry: (WorkerWithDpRank, Binary64)| is_lowest(scored@, entry.1);
        assert forall|k: int| 0 <= k < scored@.len() implies lowest(#[trigger] scored@[k])
            == has_score(min_score)(scored@[k]) by {
            if is_lowest(scored@, scored@[k].1) {
                if min_score.bits != INFINITY_BITS {
                    let j = choose|j: int|
                        0 <= j < scored@.len() && (#[trigger] scored@[j]).1 == min_score;
                    assert(!scored@[j].1.num_lt(scored@[k].1));
                }
            }
        }
        lemma_filter_agrees(scored@, lowest, has_score(min_score));
        assert(min_workers@ =~= lowest_workers(scored@));
        law_lowest_workers_stand_in_order(scored@);
    }
    (min_workers, min_score)
}

/// The lowest workers are those whose score is a number that no score is below, in the order in which
/// they are scored.
pub proof fn law_lowest_workers_stand_in_order(scored: Seq<(WorkerWithDpRank, Binary64)>)
    ensures
        lowest_workers(scored) == scored.filter(
            |entry: (WorkerWithDpRank, Binary64)|
                !entry.1.nan() && forall|j: int|
                    0 <= j < scored.len() ==> !(#[trigger] scored[j]).1.num_lt(entry.1),
        ).map_values(|entry: (WorkerWithDpRank, Binary64)| entry.0),
{
    let stated = |entry: (WorkerWithDpRank, Binary64)|
        !entry.1.nan() && forall|j: int|
            0 <= j < scored.len() ==> !(#[trigger] scored[j]).1.num_lt(entry.1);
    let named = |entry: (WorkerWithDpRank, Binary64)| is_lowest(scored, entry.1);
    assert forall|k: int| 0 <= k < scored.len() implies stated(#[trigger] scored[k]) == named(
        scored[k],
    ) by {}
    lemma_filter_agrees(scored, stated, named);
}

/// A worker is among the lowest exactly where its score is a number that no score is below, and
/// some worker is among them exactly where some score is a number.
pub proof fn law_lowest_workers_are_lowest(scored: Seq<(WorkerWithDpRank, Binary64)>)
    ensures
        forall|worker: WorkerWithDpRank|
            #![trigger lowest_workers(scored).contains(worker)]
            lowest_workers(scored).contains(worker) <==> exists|i: int|
                0 <= i < scored.len() && (#[trigger] scored[i]).0 == worker && is_lowest(
                    scored,
                    scored[i].1,
                ),
        lowest_workers(scored).len() > 0 <==> exists|i: int|
            0 <= i < scored.len() && !(#[trigger] scored[i]).1.nan(),
{
    broadcast use vstd::seq_lib::group_filter_ensures;

    let keep = |entry: (WorkerWithDpRank, Binary64)| is_lowest(scored, entry.1);
    let kept = scored.filter(keep);
    let workers = lowest_workers(scored);
    assert forall|worker: WorkerWithDpRank|
        #![trigger lowest_workers(scored).contains(worker)]
        lowest_workers(scored).contains(worker) <==> exists|i: int|
            0 <= i < scored.len() && (#[trigger] scored[i]).0 == worker && is_lowest(
                scored,
                scored[i].1,
            ) by {
        if workers.contains(worker) {
            let k = choose|k: int| 0 <= k < workers.len() && workers[k] == worker;
            assert(kept[k].0 == worker);
            assert(keep(kept[k]));
            scored.lemma_filter_contains_rev(keep, kept[k]);
            let i = choose|i: int| 0 <= i < scored.len() && scored[i] == kept[k];
            assert(scored[i].0 == worker);
        }
        if exists|i: int|
            0 <= i < scored.len() && (#[trigger] scored[i]).0 == worker && is_lowest(
                scored,
                scored[i].1,
            ) {
            let i = choose|i: int|
                0 <= i < scored.len() && (#[trigger] scored[i]).0 == worker && is_lowest(
                    scored,
                    scored[i].1,
                );
            assert(keep(scored[i]));
            assert(kept.contains(scored[i]));
            let k = choose|k: int| 0 <= k < kept.len() && kept[k] == scored[i];
            assert(workers[k] == worker);
        }
    }
    if workers.len() > 0 {
        assert(workers.contains(workers[0]));
    }
    if exists|i: int| 0 <= i < scored.len() && !(#[trigger] scored[i]).1.nan() {
        let i = choose|i: int| 0 <= i < scored.len() && !(#[trigger] scored[i]).1.nan();
        let least = lemma_some_lowest(scored, i);
        assert(workers.contains(scored[least].0));
    }
}

proof fn lemma_some_lowest(scored: Seq<(WorkerWithDpRank, Binary64)>, start: int) -> (least: int)
    requires
        0 <= start < scored.len(),
        !scored[start].1.nan(),
    ensures
        0 <= least < scored.len(),
        is_lowest(scored, scored[least].1),
    decreases scored[start].1.rank() + 0x7ff0_0000_0000_0000,
{
    if is_lowest(scored, scored[start].1) {
        start
    } else {
        let j = choose|j: int|
            0 <= j < scored.len() && (#[trigger] scored[j]).1.num_lt(scored[start].1);
        lemma_some_lowest(scored, j)
    }
}

} // verus!
