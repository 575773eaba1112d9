//! The formulas that workers are scored by.

use crate::binary64::Binary64;
use crate::text::{normalize, spells};
use vstd::prelude::*;

verus! {

/// How workers are scored. A lower score is better.
#[derive(Clone, Copy, Debug, PartialEq, Eq, Structural)]
pub enum WorkerSelectionFormula {
    /// Weighted prefill blocks plus decode blocks.
    OverlapLoad,
    /// Tokens to prefill times requests to serve.
    Lmetric,
    /// Requests in line, four times as heavy as requests that run.
    Vllm,
    /// No score: every worker is as good as another.
    Random,
    /// Weighted missing blocks plus requests to serve.
    KvAware,
}

/// The formula that a lower-case name without surrounding white space stands for, if it is known.
/// The empty name is known too: it stands for the default.
pub open spec fn named_formula(name: Seq<char>) -> Option<WorkerSelectionFormula> {
    if name == ""@ || name == "default"@ || name == "overlap-load"@ || name == "overlap_load"@ || name
        == "overlapload"@ {
        Some(WorkerSelectionFormula::OverlapLoad)
    } else if name == "lmetric"@ {
        Some(WorkerSelectionFormula::Lmetric)
    } else if name == "vllm"@ {
        Some(WorkerSelectionFormula::Vllm)
    } else if name == "random"@ {
        Some(WorkerSelectionFormula::Random)
    } else if name == "kv-aware"@ || name == "kv_aware"@ || name == "kvaware"@ {
        Some(WorkerSelectionFormula::KvAware)
    } else {
        None
    }
}

/// The formula that a setting stands for; an unknown one stands for overlap-load.
pub open spec fn formula_of(setting: Seq<char>) -> WorkerSelectionFormula {
    match named_formula(crate::text::normalized(setting)) {
        Some(formula) => formula,
        None => WorkerSelectionFormula::OverlapLoad,
    }
}

impl WorkerSelectionFormula {
    /// The formula's canonical name.
    pub open spec fn name(self) -> Seq<char> {
        match self {
            WorkerSelectionFormula::OverlapLoad => "overlap-load"@,
            WorkerSelectionFormula::Lmetric => "lmetric"@,
            WorkerSelectionFormula::Vllm => "vllm"@,
            WorkerSelectionFormula::Random => "random"@,
            WorkerSelectionFormula::KvAware => "kv-aware"@,
        }
    }

    /// The formula that a setting names, or `None` where the name is not known.
    pub fn recognize(setting: &str) -> (formula: Option<Self>)
        ensures
            formula == named_formula(crate::text::normalized(setting@)),
            formula == Some(WorkerSelectionFormula::OverlapLoad)
                <==> crate::text::normalized(setting@).len() == 0
                || crate::text::normalized(setting@) == "default"@
                || crate::text::normalized(setting@) == "overlap-load"@
                || crate::text::normalized(setting@) == "overlap_load"@
                || crate::text::normalized(setting@) == "overlapload"@,
            formula == Some(WorkerSelectionFormula::Lmetric)
                <==> crate::text::normalized(setting@) == "lmetric"@,
            formula == Some(WorkerSelectionFormula::Vllm)
                <==> crate::text::normalized(setting@) == "vllm"@,
            formula == Some(WorkerSelectionFormula::Random)
                <==> crate::text::normalized(setting@) == "random"@,
            formula == Some(WorkerSelectionFormula::KvAware)
                <==> crate::text::normalized(setting@) == "kv-aware"@
                || crate::text::normalized(setting@) == "kv_aware"@
                || crate::text::normalized(setting@) == "kvaware"@,
    {
        proof {
            law_names_of_formulas(crate::text::normalized(setting@));
        }
        let name: Vec<char> = normalize(setting);
        if spells(&name, "") || spells(&name, "default") || spells(&name, "overlap-load") || spells(
            &name,
            "overlap_load",
        ) || spells(&name, "overlapload") {
            Some(WorkerSelectionFormula::OverlapLoad)
        } else if spells(&name, "lmetric") {
            Some(WorkerSelectionFormula::Lmetric)
        } else if spells(&name, "vllm") {
            Some(WorkerSelectionFormula::Vllm)
        } else if spells(&name, "random") {
            Some(WorkerSelectionFormula::Random)
        } else if spells(&name, "kv-aware") || spells(&name, "kv_aware") || spells(&name, "kvaware") {
            Some(WorkerSelectionFormula::KvAware)
        } else {
            None
        }
    }

    /// The formula that a setting stands for; an unknown one stands for overlap-load.
    pub fn parse(value: &str) -> (formula: Self)
        ensures
            formula == formula_of(value@),
            named_formula(crate::text::normalized(value@)) matches Some(named) ==> formula == named,
            named_formula(crate::text::normalized(value@)) is None ==> formula
                == WorkerSelectionFormula::OverlapLoad,
    {
        match Self::recognize(value) {
            Some(formula) => formula,
            None => WorkerSelectionFormula::OverlapLoad,
        }
    }

    /// The formula that the environment asks for: overlap-load where it holds no setting.
    pub fn from_setting(setting: Option<&str>) -> (formula: Self)
        ensures
            formula == (match setting {
                Some(value) => formula_of(value@),
                None => WorkerSelectionFormula::OverlapLoad,
            }),
    {
        match setting {
            Some(value) => Self::parse(value),
            None => WorkerSelectionFormula::OverlapLoad,
        }
    }

    pub fn as_str(self) -> (name: &'static str)
        ensures
            name@ == self.name(),
            self == WorkerSelectionFormula::OverlapLoad ==> name@ == "overlap-load"@,
            self == WorkerSelectionFormula::Lmetric ==> name@ == "lmetric"@,
            self == WorkerSelectionFormula::Vllm ==> name@ == "vllm"@,
            self == WorkerSelectionFormula::Random ==> name@ == "random"@,
            self == WorkerSelectionFormula::KvAware ==> name@ == "kv-aware"@,
    {
        match self {
            WorkerSelectionFormula::OverlapLoad => "overlap-load",
            WorkerSelectionFormula::Lmetric => "lmetric",
            WorkerSelectionFormula::Vllm => "vllm",
            WorkerSelectionFormula::Random => "random",
            WorkerSelectionFormula::KvAware => "kv-aware",
        }
    }
}

/// The integers that make up a score, with the arithmetic on binary64 numbers still to be done.
#[derive(Clone, Copy, Debug, PartialEq, Eq, Structural)]
pub enum ScoreTerms {
    /// `overlap_weight * (prefill_tokens / block_size) + decode_blocks`, where `decode_blocks`
    /// defaults to the whole blocks of the quotient.
    OverlapLoad {
        overlap_weight: Binary64,
        prefill_tokens: usize,
        block_size: u32,
        decode_blocks: Option<usize>,
    },
    /// `new_tokens * requests`.
    Lmetric { new_tokens: usize, requests: usize },
    /// `load` itself.
    Vllm { load: usize },
    /// Zero.
    Random,
    /// `miss_blocks * overlap_weight + running`.
    KvAware { miss_blocks: usize, overlap_weight: Binary64, running: usize },
}

/// `a - b`, or zero where `b` is larger.
pub open spec fn excess(a: int, b: int) -> int {
    if a > b {
        a - b
    } else {
        0
    }
}

/// Tokens of the request that are not cached, out of `isl`.
pub open spec fn uncached_tokens(isl: int, overlap_blocks: int, block_size: int) -> int {
    excess(isl, overlap_blocks * block_size)
}

/// Of the requests that a worker would have with one more, those that wait for room in the batch.
pub open spec fn waiting_requests(active_requests: int, max_batch: int) -> int {
    excess(active_requests + 1, max_batch)
}

/// Of the requests that a worker would have with one more, those that run.
pub open spec fn running_requests(active_requests: int, max_batch: int) -> int {
    if active_requests + 1 <= max_batch {
        active_requests + 1
    } else {
        max_batch
    }
}

/// What a worker's queue weighs with one more request: four for each that waits, one for each
/// that runs.
pub open spec fn queue_load(active_requests: int, max_batch: int) -> int {
    waiting_requests(active_requests, max_batch) * 4 + running_requests(active_requests, max_batch)
}

pub fn overlap_load_score(
    overlap_weight: Binary64,
    prefill_tokens: usize,
    block_size: u32,
    decode_blocks: Option<usize>,
) -> (terms: ScoreTerms)
    ensures
        terms == (ScoreTerms::OverlapLoad {
            overlap_weight,
            prefill_tokens,
            block_size,
            decode_blocks,
        }),
{
    ScoreTerms::OverlapLoad { overlap_weight, prefill_tokens, block_size, decode_blocks }
}

/// Tokens that are not cached, and the requests that they are multiplied by.
pub fn lmetric_score(isl: usize, overlap_blocks: u32, block_size: u32,
    active_requests: usize) -> (terms:
    ScoreTerms)
    requires
        active_requests < usize::MAX,
    ensures
        terms matches ScoreTerms::Lmetric { new_tokens, requests } && new_tokens == uncached_tokens(
            isl as int,
            overlap_blocks as int,
            block_size as int,
        ) && requests == active_requests + 1,
        terms matches ScoreTerms::Lmetric { new_tokens, requests } && (if isl >= overlap_blocks
            * block_size {
            new_tokens + overlap_blocks * block_size == isl
        } else {
            new_tokens == 0
        }) && requests == active_requests + 1,
{
    assert(overlap_blocks * block_size <= 0xffff_ffff * 0xffff_ffff) by (nonlinear_arith)
        requires
            overlap_blocks <= 0xffff_ffff,
            block_size <= 0xffff_ffff,
    ;
    let cached_tokens: u64 = overlap_blocks as u64 * block_size as u64;
    let new_tokens: usize = if isl as u64 > cached_tokens {
        (isl as u64 - cached_tokens) as usize
    } else {
        0
    };
    ScoreTerms::Lmetric { new_tokens, requests: active_requests + 1 }
}

/// The load of a worker's queue with one more request, with the requests in it that wait and that
/// run.
pub fn vllm_score(active_requests: usize, max_batch: usize) -> (score: (ScoreTerms, usize, usize))
    requires
        active_requests < usize::MAX,
        queue_load(active_requests as int, max_batch as int) <= usize::MAX,
    ensures
        score.0 matches ScoreTerms::Vllm { load } && load == queue_load(
            active_requests as int,
            max_batch as int,
        ),
        score.1 == waiting_requests(active_requests as int, max_batch as int),
        score.2 == running_requests(active_requests as int, max_batch as int),
        score.1 + score.2 == active_requests + 1,
        score.2 <= max_batch,
        score.1 > 0 ==> score.2 == max_batch,
        score.0 matches ScoreTerms::Vllm { load } && load == 4 * score.1 + score.2,
{
    let candidate_active_requests: usize = active_requests + 1;
    let running: usize = if candidate_active_requests <= max_batch {
        candidate_active_requests
    } else {
        max_batch
    };
    let waiting: usize = candidate_active_requests.saturating_sub(max_batch);
    (ScoreTerms::Vllm { load: waiting * 4 + running }, waiting, running)
}

/// The requests that a worker would be serving with one more.
pub fn kv_aware_running(active_requests: usize) -> (running: usize)
    requires
        active_requests < usize::MAX,
    ensures
        running == active_requests + 1,
{
    active_requests + 1
}

/// The blocks that a worker is missing, with their weight, and the requests that it would serve.
pub fn kv_aware_score(
    request_blocks: usize,
    overlap_blocks: u32,
    active_requests: usize,
    overlap_weight: Binary64,
) -> (terms: ScoreTerms)
    requires
        active_requests < usize::MAX,
    ensures
        terms matches ScoreTerms::KvAware { miss_blocks, overlap_weight: weight, running }
            && miss_blocks == excess(request_blocks as int, overlap_blocks as int) && weight
            == overlap_weight && running == active_requests + 1,
        terms matches ScoreTerms::KvAware { miss_blocks, overlap_weight: weight, running } && (
        if request_blocks >= overlap_blocks {
            miss_blocks + overlap_blocks == request_blocks
        } else {
            miss_blocks == 0
        }) && weight == overlap_weight && running == active_requests + 1,
{
    let miss_blocks: usize = request_blocks.saturating_sub(overlap_blocks as usize);
    ScoreTerms::KvAware { miss_blocks, overlap_weight, running: kv_aware_running(active_requests) }
}

/// Which names stand for which formula, and that no other name stands for any.
pub proof fn law_names_of_formulas(name: Seq<char>)
    ensures
        named_formula(name) == Some(WorkerSelectionFormula::OverlapLoad) <==> name.len() == 0
            || name == "default"@ || name == "overlap-load"@ || name == "overlap_load"@
            || name == "overlapload"@,
        named_formula(name) == Some(WorkerSelectionFormula::Lmetric) <==> name == "lmetric"@,
        named_formula(name) == Some(WorkerSelectionFormula::Vllm) <==> name == "vllm"@,
        named_formula(name) == Some(WorkerSelectionFormula::Random) <==> name == "random"@,
        named_formula(name) == Some(WorkerSelectionFormula::KvAware) <==> name == "kv-aware"@
            || name == "kv_aware"@ || name == "kvaware"@,
{
    reveal_strlit("");
    reveal_strlit("default");
    reveal_strlit("overlap-load");
    reveal_strlit("overlap_load");
    reveal_strlit("overlapload");
    reveal_strlit("lmetric");
    reveal_strlit("vllm");
    reveal_strlit("random");
    reveal_strlit("kv-aware");
    reveal_strlit("kv_aware");
    reveal_strlit("kvaware");
    assert(name.len() == 0 ==> name =~= ""@);
    assert(name == "lmetric"@ ==> name[0] == 'l');
    assert(name == "vllm"@ ==> name[0] == 'v');
    assert(name == "random"@ ==> name[0] == 'r');
    assert(name == "kv-aware"@ || name == "kv_aware"@ || name == "kvaware"@ ==> name[0] == 'k');
    assert(name == "default"@ ==> name[0] == 'd');
    assert(name == "overlap-load"@ || name == "overlap_load"@ || name == "overlapload"@ ==> name[0]
        == 'o');
}

/// A setting stands for the formula that its normalized form names, and for overlap-load where it names
/// none. Every formula has a name of its own.
pub proof fn law_settings_stand_for_formulas(
    setting: Seq<char>,
    a: WorkerSelectionFormula,
    b: WorkerSelectionFormula,
)
    ensures
        named_formula(crate::text::normalized(setting)) matches Some(formula) ==> formula_of(setting)
            == formula,
        named_formula(crate::text::normalized(setting)) is None ==> formula_of(setting)
            == WorkerSelectionFormula::OverlapLoad,
        a.name() == b.name() ==> a == b,
        WorkerSelectionFormula::OverlapLoad.name() == "overlap-load"@,
        WorkerSelectionFormula::Lmetric.name() == "lmetric"@,
        WorkerSelectionFormula::Vllm.name() == "vllm"@,
        WorkerSelectionFormula::Random.name() == "random"@,
        WorkerSelectionFormula::KvAware.name() == "kv-aware"@,
{
    law_parse_reads_back_names(a);
    law_parse_reads_back_names(b);
}

/// What the integers of the formulas count. Tokens and blocks that a worker holds are taken off those
/// of the request, and none are left over where it holds more; a request more is counted in; a request
/// that waits weighs as much as four that run.
pub proof fn law_integers_count(
    isl: nat,
    overlap_blocks: nat,
    block_size: nat,
    active_requests: nat,
    max_batch: nat,
)
    ensures
        isl >= overlap_blocks * block_size ==> uncached_tokens(
            isl as int,
            overlap_blocks as int,
            block_size as int,
        ) + overlap_blocks * block_size == isl,
        isl < overlap_blocks * block_size ==> uncached_tokens(
            isl as int,
            overlap_blocks as int,
            block_size as int,
        ) == 0,
        isl >= overlap_blocks ==> excess(isl as int, overlap_blocks as int) + overlap_blocks == isl,
        isl < overlap_blocks ==> excess(isl as int, overlap_blocks as int) == 0,
        active_requests < max_batch ==> queue_load(active_requests as int, max_batch as int)
            == active_requests + 1,
        active_requests >= max_batch ==> queue_load(active_requests as int, max_batch as int)
            == max_batch + 4 * (active_requests + 1 - max_batch),
        queue_load(active_requests as int, max_batch as int) == 4 * waiting_requests(
            active_requests as int,
            max_batch as int,
        ) + running_requests(active_requests as int, max_batch as int),
{
}

proof fn lemma_names_are_normal(formula: WorkerSelectionFormula)
    ensures
        crate::text::normalized(formula.name()) == formula.name(),
{
    reveal_strlit("overlap-load");
    reveal_strlit("lmetric");
    reveal_strlit("vllm");
    reveal_strlit("random");
    reveal_strlit("kv-aware");
    crate::text::lemma_normal_text(formula.name());
}

/// Reading back the name of a formula gives that formula.
pub proof fn law_parse_reads_back_names(formula: WorkerSelectionFormula)
    ensures
        formula_of(formula.name()) == formula,
        named_formula(formula.name()) == Some(formula),
{
    lemma_names_are_normal(formula);
    reveal_strlit("");
    reveal_strlit("default");
    reveal_strlit("overlap-load");
    reveal_strlit("overlap_load");
    reveal_strlit("overlapload");
    reveal_strlit("lmetric");
    reveal_strlit("vllm");
    reveal_strlit("random");
    reveal_strlit("kv-aware");
    reveal_strlit("kv_aware");
    reveal_strlit("kvaware");
    let name = formula.name();
    assert(name.len() > 0);
    assert(formula == WorkerSelectionFormula::Vllm ==> name[0] == 'v');
    assert(formula == WorkerSelectionFormula::Random ==> name[0] == 'r');
    assert(formula == WorkerSelectionFormula::Lmetric ==> name[0] == 'l');
    assert(formula == WorkerSelectionFormula::KvAware ==> name[0] == 'k');
}

/// A setting is read without regard to white space around it and to ASCII case: it stands for what
/// its normalized form stands for.
pub proof fn law_parse_ignores_case_and_space(setting: Seq<char>)
    ensures
        formula_of(setting) == formula_of(crate::text::normalized(setting)),
{
    crate::text::law_normalizing_twice(setting);
}

/// Every request that a worker would have either waits or runs, and no more run than the batch
/// holds; requests wait only where the batch is full.
pub proof fn law_queue_is_split(active_requests: nat, max_batch: nat)
    ensures
        waiting_requests(active_requests as int, max_batch as int) + running_requests(
            active_requests as int,
            max_batch as int,
        ) == active_requests + 1,
        running_requests(active_requests as int, max_batch as int) <= max_batch,
        waiting_requests(active_requests as int, max_batch as int) > 0 ==> running_requests(
            active_requests as int,
            max_batch as int,
        ) == max_batch,
{
}

/// A worker that holds more blocks of the request, or serves fewer requests, never has the heavier
/// integers under any formula: neither its tokens, nor its missing blocks, nor its queue.
pub proof fn law_better_workers_weigh_less(
    isl: nat,
    block_size: nat,
    request_blocks: nat,
    max_batch: nat,
    overlap_low: nat,
    overlap_high: nat,
    active_low: nat,
    active_high: nat,
)
    requires
        overlap_low <= overlap_high,
        active_low <= active_high,
    ensures
        uncached_tokens(isl as int, overlap_high as int, block_size as int) <= uncached_tokens(
            isl as int,
            overlap_low as int,
            block_size as int,
        ),
        excess(request_blocks as int, overlap_high as int) <= excess(
            request_blocks as int,
            overlap_low as int,
        ),
        queue_load(active_low as int, max_batch as int) <= queue_load(
            active_high as int,
            max_batch as int,
        ),
{
    assert(overlap_low * block_size <= overlap_high * block_size) by (nonlinear_arith)
        requires
            overlap_low <= overlap_high,
    ;
}

} // verus!
