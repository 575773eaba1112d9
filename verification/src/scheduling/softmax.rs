//! Drawing a worker with probabilities that fall as scores rise.
//!
//! The rules stand here: which worker a zero temperature picks, when the draw is uniform, and which
//! worker a sample falls on. The probabilities themselves are binary64 arithmetic, which the caller
//! hands in as a function from [`SoftmaxWeights`] to their running sums.

use super::workers::{WorkerMap, WorkerWithDpRank};
use crate::binary64::{Binary64, INFINITY_BITS, NEG_INFINITY_BITS};
use vstd::prelude::*;

verus! {

/// What the probabilities of a draw are computed from.
#[derive(Clone, Debug)]
pub struct SoftmaxWeights {
    /// The scores, in the order of the workers.
    pub logits: Vec<Binary64>,
    pub temperature: Binary64,
    /// The least and the greatest score, or `None` where they are one number and every worker is
    /// equally likely.
    ///
    /// Otherwise, with `range` their difference, worker `i` has a probability in proportion to the
    /// exponential of `-(logits[i] / range) / temperature`.
    pub spread: Option<(Binary64, Binary64)>,
}

/// Whether `low` is the least of `values`, NaNs left aside; infinity where no number is among them.
pub open spec fn is_least(values: Seq<Binary64>, low: Binary64) -> bool {
    &&& !low.nan()
    &&& forall|j: int| 0 <= j < values.len() ==> !(#[trigger] values[j]).num_lt(low)
    &&& values.contains(low) || low.bits == INFINITY_BITS
}

/// Whether `high` is the greatest of `values`, NaNs left aside; negative infinity where no number
/// is among them.
pub open spec fn is_greatest(values: Seq<Binary64>, high: Binary64) -> bool {
    &&& !high.nan()
    &&& forall|j: int| 0 <= j < values.len() ==> !high.num_lt(#[trigger] values[j])
    &&& values.contains(high) || high.bits == NEG_INFINITY_BITS
}

/// Whether `weights` is what a draw among `entries` is computed from.
pub open spec fn weighs(
    entries: Seq<(WorkerWithDpRank, Binary64)>,
    temperature: Binary64,
    weights: SoftmaxWeights,
) -> bool {
    &&& weights.logits@ == entries.map_values(|entry: (WorkerWithDpRank, Binary64)| entry.1)
    &&& weights.temperature == temperature
    &&& match weights.spread {
        Some((low, high)) => is_least(weights.logits@, low) && is_greatest(weights.logits@, high)
            && !low.num_eq(high),
        None => exists|low: Binary64, high: Binary64| #[trigger]
            is_least(weights.logits@, low) && #[trigger] is_greatest(weights.logits@, high)
                && low.num_eq(high),
    }
}

/// Whether a draw among `count` workers falls on place `i`: the first whose running sum reaches the
/// sample, or the last place where none does.
pub open spec fn is_drawn(count: nat, sums: Seq<Binary64>, sample: Binary64, i: int) -> bool {
    &&& 0 <= i < count
    &&& forall|j: int| 0 <= j < i && j < sums.len() ==> !sample.num_le(#[trigger] sums[j])
    &&& (i < sums.len() && sample.num_le(sums[i])) || i == count - 1
}

/// Whether a zero temperature picks place `i`: the first of the lowest scores. Where the very first
/// score is a NaN, nothing is below it, and it is picked.
pub open spec fn is_first_lowest(entries: Seq<(WorkerWithDpRank, Binary64)>, i: int) -> bool {
    &&& 0 <= i < entries.len()
    &&& if entries[0].1.nan() {
        i == 0
    } else {
        &&& super::lowest::is_lowest(entries, entries[i].1)
        &&& forall|j: int| 0 <= j < i ==> !super::lowest::is_lowest(entries, (#[trigger] entries[j]).1)
    }
}

/// Whether a draw among `entries` can end with `chosen`, where `accumulate` gives the running sums.
pub open spec fn drawn_from<F: Fn(SoftmaxWeights) -> Vec<Binary64>>(
    entries: Seq<(WorkerWithDpRank, Binary64)>,
    temperature: Binary64,
    sample: Binary64,
    accumulate: F,
    chosen: (WorkerWithDpRank, Binary64),
) -> bool {
    if temperature.zero() {
        exists|i: int| #[trigger] is_first_lowest(entries, i) && chosen == entries[i]
    } else {
        exists|weights: SoftmaxWeights, sums: Vec<Binary64>, i: int| #[trigger]
            weighs(entries, temperature, weights) && #[trigger] call_ensures(
                accumulate,
                (weights,),
                sums,
            ) && #[trigger] is_drawn(entries.len(), sums@, sample, i) && chosen == entries[i]
    }
}

/// The place that a zero temperature picks.
pub fn first_lowest(entries: &Vec<(WorkerWithDpRank, Binary64)>) -> (place: usize)
    requires
        entries.len() > 0,
    ensures
        is_first_lowest(entries@, place as int),
        place < entries.len(),
        entries@[0].1.nan() ==> place == 0,
        !entries@[0].1.nan() ==> {
            &&& !entries@[place as int].1.nan()
            &&& forall|j: int|
                0 <= j < entries.len() ==> !(#[trigger] entries@[j]).1.num_lt(
                    entries@[place as int].1,
                )
            &&& forall|j: int|
                0 <= j < place && !(#[trigger] entries@[j]).1.nan()
                    ==> entries@[place as int].1.num_lt(entries@[j].1)
        },
{
    let mut place: usize = 0;
    let mut i: usize = 1;
    while i < entries.len()
        invariant
            1 <= i <= entries.len(),
            place < i,
            entries@[0].1.nan() ==> place == 0,
            !entries@[0].1.nan() ==> {
                &&& !entries@[place as int].1.nan()
                &&& forall|j: int|
                    0 <= j < i ==> !(#[trigger] entries@[j]).1.num_lt(entries@[place as int].1)
                &&& forall|j: int|
                    0 <= j < place && !(#[trigger] entries@[j]).1.nan()
                        ==> entries@[place as int].1.num_lt(entries@[j].1)
            },
        decreases entries.len() - i,
    {
        if entries[i].1.less_than(entries[place].1) {
            place = i;
        }
        i = i + 1;
    }
    place
}

/// What the probabilities of a draw among `entries` are computed from.
pub fn softmax_weights(
    entries: &Vec<(WorkerWithDpRank, Binary64)>,
    temperature: Binary64,
) -> (weights: SoftmaxWeights)
    ensures
        weighs(entries@, temperature, weights),
        weights.temperature == temperature,
        weights.logits.len() == entries.len(),
        forall|i: int| 0 <= i < entries.len() ==> #[trigger] weights.logits@[i] == entries@[i].1,
{
    let mut logits: Vec<Binary64> = Vec::new();
    let mut low: Binary64 = Binary64::from_bits(INFINITY_BITS);
    let mut high: Binary64 = Binary64::from_bits(NEG_INFINITY_BITS);
    let ghost wanted = entries@.map_values(|entry: (WorkerWithDpRank, Binary64)| entry.1);
    let mut i: usize = 0;
    while i < entries.len()
        invariant
            i <= entries.len(),
            wanted == entries@.map_values(|entry: (WorkerWithDpRank, Binary64)| entry.1),
            logits@ == wanted.take(i as int),
            is_least(logits@, low),
            is_greatest(logits@, high),
        decreases entries.len() - i,
    {
        let logit: Binary64 = entries[i].1;
        let ghost before = logits@;
        logits.push(logit);
        proof {
            assert(logits@ =~= wanted.take(i + 1));
            assert(logits@[i as int] == logit);
            if before.contains(low) {
                let j = choose|j: int| 0 <= j < before.len() && before[j] == low;
                assert(logits@[j] == low);
            }
            if before.contains(high) {
                let j = choose|j: int| 0 <= j < before.len() && before[j] == high;
                assert(logits@[j] == high);
            }
            assert(forall|j: int| 0 <= j < i ==> logits@[j] == before[j]);
        }
        if logit.less_than(low) {
            low = logit;
        }
        if high.less_than(logit) {
            high = logit;
        }
        i = i + 1;
    }
    assert(logits@ =~= wanted);
    let spread: Option<(Binary64, Binary64)> = if low.same_number(high) {
        None
    } else {
        Some((low, high))
    };
    let weights = SoftmaxWeights { logits, temperature, spread };
    assert(is_least(weights.logits@, low) && is_greatest(weights.logits@, high));
    weights
}

/// The place among `count` workers that a sample falls on, given the running sums of their
/// probabilities.
pub fn drawn_place(count: usize, sums: &Vec<Binary64>, sample: Binary64) -> (place: usize)
    requires
        count > 0,
    ensures
        is_drawn(count as nat, sums@, sample, place as int),
        place < count,
        forall|j: int| 0 <= j < place && j < sums.len() ==> !sample.num_le(#[trigger] sums@[j]),
        place < count - 1 ==> place < sums.len() && sample.num_le(sums@[place as int]),
{
    let mut i: usize = 0;
    while i < sums.len() && i < count - 1
        invariant
            i <= count - 1,
            count > 0,
            forall|j: int| 0 <= j < i && j < sums.len() ==> !sample.num_le(#[trigger] sums@[j]),
        decreases count - i,
    {
        if sample.at_most(sums[i]) {
            return i;
        }
        i = i + 1;
    }
    count - 1
}

/// Draws a worker, and returns it with its score. At zero temperature that is a worker with a
/// lowest score; otherwise `sample`, uniform between zero and one, decides.
pub fn softmax_sample_with_sample<F: Fn(SoftmaxWeights) -> Vec<Binary64>>(
    logits: &WorkerMap<Binary64>,
    temperature: Binary64,
    sample: Binary64,
    accumulate: &F,
) -> (chosen: (WorkerWithDpRank, Binary64))
    requires
        exists|worker: WorkerWithDpRank| logits@.contains_key(worker),
        forall|weights: SoftmaxWeights| call_requires(*accumulate, (weights,)),
    ensures
        logits@.contains_key(chosen.0),
        logits@[chosen.0] == chosen.1,
        exists|entries: Seq<(WorkerWithDpRank, Binary64)>| #[trigger]
            super::workers::lists(entries, logits@) && drawn_from(
                entries,
                temperature,
                sample,
                *accumulate,
                chosen,
            ),
{
    let entries: Vec<(WorkerWithDpRank, Binary64)> = logits.entries();
    proof {
        let worker = choose|worker: WorkerWithDpRank| logits@.contains_key(worker);
        assert(entries@.contains((worker, logits@[worker])));
    }
    if temperature.is_zero() {
        let place: usize = first_lowest(&entries);
        entries[place]
    } else {
        let weights: SoftmaxWeights = softmax_weights(&entries, temperature);
        let ghost given = weights;
        let sums: Vec<Binary64> = accumulate(weights);
        let place: usize = drawn_place(entries.len(), &sums, sample);
        assert(weighs(entries@, temperature, given));
        assert(call_ensures(*accumulate, (given,), sums));
        entries[place]
    }
}

/// A draw returns one of the workers together with that worker's own score.
pub proof fn law_draw_is_an_entry<F: Fn(SoftmaxWeights) -> Vec<Binary64>>(
    entries: Seq<(WorkerWithDpRank, Binary64)>,
    temperature: Binary64,
    sample: Binary64,
    accumulate: F,
    chosen: (WorkerWithDpRank, Binary64),
)
    requires
        drawn_from(entries, temperature, sample, accumulate, chosen),
    ensures
        exists|i: int| 0 <= i < entries.len() && #[trigger] entries[i] == chosen,
{
    if temperature.zero() {
        let i = choose|i: int| #[trigger] is_first_lowest(entries, i) && chosen == entries[i];
        assert(entries[i] == chosen);
    } else {
        let (weights, sums, i) = choose|
            weights: SoftmaxWeights,
            sums: Vec<Binary64>,
            i: int,
        | #[trigger]
            weighs(entries, temperature, weights) && #[trigger] call_ensures(
                accumulate,
                (weights,),
                sums,
            ) && #[trigger] is_drawn(entries.len(), sums@, sample, i) && chosen == entries[i];
        assert(entries[i] == chosen);
    }
}

/// At zero temperature a draw returns a worker with a lowest score, where all scores are numbers.
pub proof fn law_zero_temperature_draws_lowest<F: Fn(SoftmaxWeights) -> Vec<Binary64>>(
    entries: Seq<(WorkerWithDpRank, Binary64)>,
    temperature: Binary64,
    sample: Binary64,
    accumulate: F,
    chosen: (WorkerWithDpRank, Binary64),
)
    requires
        temperature.zero(),
        drawn_from(entries, temperature, sample, accumulate, chosen),
        forall|i: int| 0 <= i < entries.len() ==> !(#[trigger] entries[i]).1.nan(),
    ensures
        forall|i: int| 0 <= i < entries.len() ==> chosen.1.num_le((#[trigger] entries[i]).1),
{
    let i = choose|i: int| #[trigger] is_first_lowest(entries, i) && chosen == entries[i];
    assert(super::lowest::is_lowest(entries, entries[i].1));
}

/// A draw at a temperature that is not zero. The running sums are those of weights that hold the scores
/// of all entries, in their order, next to the temperature itself; the sample falls on the first entry
/// whose running sum reaches it, or on the last entry where none does.
pub proof fn law_draw_follows_the_sample<F: Fn(SoftmaxWeights) -> Vec<Binary64>>(
    entries: Seq<(WorkerWithDpRank, Binary64)>,
    temperature: Binary64,
    sample: Binary64,
    accumulate: F,
    chosen: (WorkerWithDpRank, Binary64),
) -> (draw: (SoftmaxWeights, Vec<Binary64>, int))
    requires
        drawn_from(entries, temperature, sample, accumulate, chosen),
        temperature.bits != 0 && temperature.bits != 0x8000_0000_0000_0000,
    ensures
        weighs(entries, temperature, draw.0),
        draw.0.temperature == temperature,
        draw.0.logits@.len() == entries.len(),
        forall|i: int| 0 <= i < entries.len() ==> #[trigger] draw.0.logits@[i] == entries[i].1,
        call_ensures(accumulate, (draw.0,), draw.1),
        0 <= draw.2 < entries.len(),
        chosen == entries[draw.2],
        forall|j: int| 0 <= j < draw.2 && j < draw.1@.len() ==> !sample.num_le(#[trigger] draw.1@[j]),
        draw.2 < entries.len() - 1 ==> draw.2 < draw.1@.len() && sample.num_le(draw.1@[draw.2]),
{
    let (weights, sums, i) = choose|weights: SoftmaxWeights, sums: Vec<Binary64>, i: int| #[trigger]
        weighs(entries, temperature, weights) && #[trigger] call_ensures(
            accumulate,
            (weights,),
            sums,
        ) && #[trigger] is_drawn(entries.len(), sums@, sample, i) && chosen == entries[i];
    (weights, sums, i)
}

/// The spread of a draw is that of its scores: where some score is a number, its ends are scores, none
/// is below the one and none above the other, and they differ as numbers.
pub proof fn law_spread_is_that_of_the_scores(
    entries: Seq<(WorkerWithDpRank, Binary64)>,
    temperature: Binary64,
    weights: SoftmaxWeights,
)
    requires
        weighs(entries, temperature, weights),
    ensures
        weights.temperature == temperature,
        weights.logits@.len() == entries.len(),
        forall|i: int| 0 <= i < entries.len() ==> #[trigger] weights.logits@[i] == entries[i].1,
        weights.spread matches Some((low, high)) ==> {
            &&& !low.num_eq(high)
            &&& forall|i: int|
                0 <= i < entries.len() ==> !(#[trigger] entries[i]).1.num_lt(low) && !high.num_lt(
                    entries[i].1,
                )
            &&& (exists|i: int| 0 <= i < entries.len() && !(#[trigger] entries[i]).1.nan()) ==> {
                &&& exists|i: int| 0 <= i < entries.len() && (#[trigger] entries[i]).1 == low
                &&& exists|i: int| 0 <= i < entries.len() && (#[trigger] entries[i]).1 == high
            }
        },
{
    let values = weights.logits@;
    assert(forall|i: int| 0 <= i < entries.len() ==> #[trigger] values[i] == entries[i].1);
    if let Some((low, high)) = weights.spread {
        assert forall|i: int| 0 <= i < entries.len() implies !(#[trigger] entries[i]).1.num_lt(low)
            && !high.num_lt(entries[i].1) by {
            assert(values[i] == entries[i].1);
        }
        if exists|i: int| 0 <= i < entries.len() && !(#[trigger] entries[i]).1.nan() {
            let k = choose|k: int| 0 <= k < entries.len() && !(#[trigger] entries[k]).1.nan();
            assert(!values[k].num_lt(low) && !high.num_lt(values[k]));
            if !values.contains(low) {
                assert(values[k].bits == low.bits);
                assert(values[k] == low);
            }
            if !values.contains(high) {
                assert(values[k].bits == high.bits);
                assert(values[k] == high);
            }
            let i = choose|i: int| 0 <= i < values.len() && values[i] == low;
            let j = choose|j: int| 0 <= j < values.len() && values[j] == high;
            assert(entries[i].1 == low && entries[j].1 == high);
        }
    }
}

/// A draw at zero temperature takes the first of the lowest scores, NaNs left aside; where the very
/// first score is a NaN it takes that one.
pub proof fn law_zero_temperature_draws_the_first_lowest<F: Fn(SoftmaxWeights) -> Vec<Binary64>>(
    entries: Seq<(WorkerWithDpRank, Binary64)>,
    temperature: Binary64,
    sample: Binary64,
    accumulate: F,
    chosen: (WorkerWithDpRank, Binary64),
) -> (place: int)
    requires
        temperature.bits == 0 || temperature.bits == 0x8000_0000_0000_0000,
        drawn_from(entries, temperature, sample, accumulate, chosen),
    ensures
        0 <= place < entries.len(),
        chosen == entries[place],
        entries[0].1.nan() ==> place == 0,
        !entries[0].1.nan() ==> {
            &&& !chosen.1.nan()
            &&& forall|j: int| 0 <= j < entries.len() ==> !(#[trigger] entries[j]).1.num_lt(chosen.1)
            &&& forall|j: int|
                0 <= j < place && !(#[trigger] entries[j]).1.nan() ==> chosen.1.num_lt(entries[j].1)
        },
{
    let i = choose|i: int| #[trigger] is_first_lowest(entries, i) && chosen == entries[i];
    if !entries[0].1.nan() {
        assert forall|j: int| 0 <= j < i && !(#[trigger] entries[j]).1.nan() implies chosen.1.num_lt(
            entries[j].1,
        ) by {
            assert(!super::lowest::is_lowest(entries, entries[j].1));
            let k = choose|k: int|
                0 <= k < entries.len() && (#[trigger] entries[k]).1.num_lt(entries[j].1);
            assert(!entries[k].1.num_lt(chosen.1));
        }
    }
    i
}

/// The running sums and the sample leave no choice: a draw falls on exactly one place.
pub proof fn law_draw_is_determined(
    count: nat,
    sums: Seq<Binary64>,
    sample: Binary64,
    i: int,
    j: int,
)
    requires
        is_drawn(count, sums, sample, i),
        is_drawn(count, sums, sample, j),
    ensures
        i == j,
{
}

/// A draw is uniform exactly where some score is a number and all scores that are numbers are equal.
pub proof fn law_equal_scores_draw_uniformly(
    entries: Seq<(WorkerWithDpRank, Binary64)>,
    temperature: Binary64,
    weights: SoftmaxWeights,
)
    requires
        weighs(entries, temperature, weights),
    ensures
        weights.spread is None <==> {
            &&& exists|i: int| 0 <= i < entries.len() && !(#[trigger] entries[i]).1.nan()
            &&& forall|i: int, j: int|
                0 <= i < entries.len() && 0 <= j < entries.len() && !(
                #[trigger] entries[i]).1.nan() && !(#[trigger] entries[j]).1.nan()
                    ==> entries[i].1.num_eq(entries[j].1)
        },
{
    let values = weights.logits@;
    assert(forall|i: int| 0 <= i < entries.len() ==> #[trigger] values[i] == entries[i].1);
    match weights.spread {
        None => {
            let (low, high) = choose|low: Binary64, high: Binary64| #[trigger]
                is_least(values, low) && #[trigger] is_greatest(values, high) && low.num_eq(high);
            if values.contains(low) {
                let i = choose|i: int| 0 <= i < values.len() && values[i] == low;
                assert(!entries[i].1.nan());
            } else {
                let i = choose|i: int| 0 <= i < values.len() && values[i] == high;
                assert(values.contains(high));
                assert(!entries[i].1.nan());
            }
            assert forall|i: int, j: int|
                0 <= i < entries.len() && 0 <= j < entries.len() && !(
                #[trigger] entries[i]).1.nan()
                    && !(#[trigger] entries[j]).1.nan() implies entries[i].1.num_eq(
                entries[j].1,
            ) by {
                assert(!values[i].num_lt(low) && !high.num_lt(values[i]));
                assert(!values[j].num_lt(low) && !high.num_lt(values[j]));
            }
        },
        Some((low, high)) => {
            if exists|i: int| 0 <= i < entries.len() && !(#[trigger] entries[i]).1.nan() {
                let k = choose|k: int| 0 <= k < entries.len() && !(#[trigger] entries[k]).1.nan();
                assert(!values[k].num_lt(low) && !high.num_lt(values[k]));
                if values.contains(low) && values.contains(high) {
                    let i = choose|i: int| 0 <= i < values.len() && values[i] == low;
                    let j = choose|j: int| 0 <= j < values.len() && values[j] == high;
                    assert(!entries[i].1.nan() && !entries[j].1.nan());
                    assert(!entries[i].1.num_eq(entries[j].1));
                }
            }
        },
    }
}

} // verus!
