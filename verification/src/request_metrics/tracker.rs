//! What is recorded of a request while it is served.

use crate::binary64::Binary64;
use vstd::prelude::*;

verus! {

/// The part of serving that a request is in.
#[derive(Clone, Copy, Debug, PartialEq, Eq, Structural)]
pub enum RequestPhase {
    Prefill,
    Decode,
    Aggregated,
}

impl RequestPhase {
    pub open spec fn name(self) -> Seq<char> {
        match self {
            RequestPhase::Prefill => "prefill"@,
            RequestPhase::Decode => "decode"@,
            RequestPhase::Aggregated => "aggregated"@,
        }
    }

    pub fn as_str(self) -> (name: &'static str)
        ensures
            name@ == self.name(),
            self == RequestPhase::Prefill ==> name@ == "prefill"@,
            self == RequestPhase::Decode ==> name@ == "decode"@,
            self == RequestPhase::Aggregated ==> name@ == "aggregated"@,
    {
        match self {
            RequestPhase::Prefill => "prefill",
            RequestPhase::Decode => "decode",
            RequestPhase::Aggregated => "aggregated",
        }
    }
}

/// The workers that served a request, as far as they were recorded.
#[derive(Clone, Copy, Debug, PartialEq, Eq, Structural)]
pub struct WorkerIdInfo {
    pub prefill_worker_id: Option<u64>,
    pub prefill_dp_rank: Option<u32>,
    pub decode_worker_id: Option<u64>,
    pub decode_dp_rank: Option<u32>,
}

/// A predicted KV hit rate: the quotient of the blocks that are held and the blocks of the input.
#[derive(Clone, Copy, Debug, PartialEq, Eq, Structural)]
pub struct KvHitRate {
    pub overlap_blocks: u32,
    pub input_blocks: usize,
}

/// What is recorded of one request. Times are measured by the caller.
#[derive(Clone, Copy, Debug)]
pub struct RequestTracker {
    pub isl_tokens: Option<usize>,
    pub cached_tokens: Option<usize>,
    pub osl_tokens: u64,
    pub request_received_epoch_ms: u64,
    pub ttft_ms: Option<Binary64>,
    pub total_time_ms: Option<Binary64>,
    pub worker: Option<WorkerIdInfo>,
    pub phase: RequestPhase,
    /// The rate on the selected worker, as first recorded.
    pub kv_hit: Option<KvHitRate>,
    /// The greatest rate over all workers, as first recorded.
    pub max_kv_hit: Option<KvHitRate>,
    /// The phase in which either rate was first recorded.
    pub kv_phase: Option<RequestPhase>,
}

/// A rate that can be computed: there are input blocks to divide by.
pub open spec fn usable(rate: Option<KvHitRate>) -> Option<KvHitRate> {
    match rate {
        Some(rate) if rate.input_blocks > 0 => Some(rate),
        _ => None,
    }
}

/// The first of two values that is there.
pub open spec fn first<T>(earlier: Option<T>, later: Option<T>) -> Option<T> {
    match earlier {
        Some(value) => Some(value),
        None => later,
    }
}

impl RequestTracker {
    /// The phase to report for the KV metrics: the one in which they were first recorded, or the
    /// current one where they were not.
    pub open spec fn routing_phase(self) -> RequestPhase {
        match self.kv_phase {
            Some(phase) => phase,
            None => self.phase,
        }
    }

    /// The tracker after [`RequestTracker::record_isl`].
    pub open spec fn with_isl(self, isl_tokens: usize, cached_tokens: Option<usize>) -> Self {
        RequestTracker {
            isl_tokens: first(self.isl_tokens, Some(isl_tokens)),
            cached_tokens: first(self.cached_tokens, cached_tokens),
            ..self
        }
    }

    /// The tracker after [`RequestTracker::record_osl`].
    pub open spec fn with_osl(self, osl_tokens: u64) -> Self {
        RequestTracker { osl_tokens, ..self }
    }

    /// The tracker after [`RequestTracker::set_phase`].
    pub open spec fn with_phase(self, phase: RequestPhase) -> Self {
        RequestTracker { phase, ..self }
    }

    /// The tracker after [`RequestTracker::record_kv_hit`].
    pub open spec fn with_kv_hit(self, overlap_blocks: u32, input_blocks: usize) -> Self {
        RequestTracker {
            kv_hit: first(self.kv_hit, Some(KvHitRate { overlap_blocks, input_blocks })),
            kv_phase: first(self.kv_phase, Some(self.phase)),
            ..self
        }
    }

    /// The tracker after [`RequestTracker::record_max_kv_hit`].
    pub open spec fn with_max_kv_hit(self, overlap_blocks: u32, input_blocks: usize) -> Self {
        RequestTracker {
            max_kv_hit: first(self.max_kv_hit, Some(KvHitRate { overlap_blocks, input_blocks })),
            kv_phase: first(self.kv_phase, Some(self.phase)),
            ..self
        }
    }

    /// Nothing is recorded yet.
    pub fn new() -> (tracker: Self)
        ensures
            tracker == (RequestTracker {
                isl_tokens: None,
                cached_tokens: None,
                osl_tokens: 0,
                request_received_epoch_ms: 0,
                ttft_ms: None,
                total_time_ms: None,
                worker: None,
                phase: RequestPhase::Aggregated,
                kv_hit: None,
                max_kv_hit: None,
                kv_phase: None,
            }),
    {
        RequestTracker {
            isl_tokens: None,
            cached_tokens: None,
            osl_tokens: 0,
            request_received_epoch_ms: 0,
            ttft_ms: None,
            total_time_ms: None,
            worker: None,
            phase: RequestPhase::Aggregated,
            kv_hit: None,
            max_kv_hit: None,
            kv_phase: None,
        }
    }

    /// Records the length of the input, and how much of it is cached. What was recorded first stays.
    pub fn record_isl(&mut self, isl_tokens: usize, cached_tokens: Option<usize>)
        ensures
            *final(self) == old(self).with_isl(isl_tokens, cached_tokens),
            old(self).isl_tokens is Some ==> final(self).isl_tokens == old(self).isl_tokens,
            old(self).isl_tokens is None ==> final(self).isl_tokens == Some(isl_tokens),
            old(self).cached_tokens is Some ==> final(self).cached_tokens == old(self).cached_tokens,
            old(self).cached_tokens is None ==> final(self).cached_tokens == cached_tokens,
            final(self).osl_tokens == old(self).osl_tokens,
            final(self).request_received_epoch_ms == old(self).request_received_epoch_ms,
            final(self).ttft_ms == old(self).ttft_ms,
            final(self).total_time_ms == old(self).total_time_ms,
            final(self).worker == old(self).worker,
            final(self).phase == old(self).phase,
            final(self).kv_hit == old(self).kv_hit,
            final(self).max_kv_hit == old(self).max_kv_hit,
            final(self).kv_phase == old(self).kv_phase,
    {
        if self.isl_tokens.is_none() {
            self.isl_tokens = Some(isl_tokens);
        }
        if self.cached_tokens.is_none() {
            self.cached_tokens = cached_tokens;
        }
    }

    /// Records the length of the output so far.
    pub fn record_osl(&mut self, osl_tokens: u64)
        ensures
            *final(self) == old(self).with_osl(osl_tokens),
            final(self).osl_tokens == osl_tokens,
            final(self).isl_tokens == old(self).isl_tokens,
            final(self).cached_tokens == old(self).cached_tokens,
            final(self).request_received_epoch_ms == old(self).request_received_epoch_ms,
            final(self).ttft_ms == old(self).ttft_ms,
            final(self).total_time_ms == old(self).total_time_ms,
            final(self).worker == old(self).worker,
            final(self).phase == old(self).phase,
            final(self).kv_hit == old(self).kv_hit,
            final(self).max_kv_hit == old(self).max_kv_hit,
            final(self).kv_phase == old(self).kv_phase,
    {
        self.osl_tokens = osl_tokens;
    }

    /// Moves the request to another phase.
    pub fn set_phase(&mut self, phase: RequestPhase)
        ensures
            *final(self) == old(self).with_phase(phase),
            final(self).phase == phase,
            final(self).isl_tokens == old(self).isl_tokens,
            final(self).cached_tokens == old(self).cached_tokens,
            final(self).osl_tokens == old(self).osl_tokens,
            final(self).request_received_epoch_ms == old(self).request_received_epoch_ms,
            final(self).ttft_ms == old(self).ttft_ms,
            final(self).total_time_ms == old(self).total_time_ms,
            final(self).worker == old(self).worker,
            final(self).kv_hit == old(self).kv_hit,
            final(self).max_kv_hit == old(self).max_kv_hit,
            final(self).kv_phase == old(self).kv_phase,
    {
        self.phase = phase;
    }

    /// Records the hit rate on the selected worker. What was recorded first stays.
    pub fn record_kv_hit(&mut self, overlap_blocks: u32, input_blocks: usize)
        ensures
            *final(self) == old(self).with_kv_hit(overlap_blocks, input_blocks),
            old(self).kv_hit is Some ==> final(self).kv_hit == old(self).kv_hit,
            old(self).kv_hit is None ==> final(self).kv_hit == Some(
                (KvHitRate { overlap_blocks, input_blocks }),
            ),
            old(self).kv_phase is Some ==> final(self).kv_phase == old(self).kv_phase,
            old(self).kv_phase is None ==> final(self).kv_phase == Some(old(self).phase),
            final(self).isl_tokens == old(self).isl_tokens,
            final(self).cached_tokens == old(self).cached_tokens,
            final(self).osl_tokens == old(self).osl_tokens,
            final(self).request_received_epoch_ms == old(self).request_received_epoch_ms,
            final(self).ttft_ms == old(self).ttft_ms,
            final(self).total_time_ms == old(self).total_time_ms,
            final(self).worker == old(self).worker,
            final(self).phase == old(self).phase,
            final(self).max_kv_hit == old(self).max_kv_hit,
    {
        if self.kv_hit.is_none() {
            self.kv_hit = Some(KvHitRate { overlap_blocks, input_blocks });
        }
        if self.kv_phase.is_none() {
            self.kv_phase = Some(self.phase);
        }
    }

    /// Records the greatest hit rate over all workers. What was recorded first stays.
    pub fn record_max_kv_hit(&mut self, overlap_blocks: u32, input_blocks: usize)
        ensures
            *final(self) == old(self).with_max_kv_hit(overlap_blocks, input_blocks),
            old(self).max_kv_hit is Some ==> final(self).max_kv_hit == old(self).max_kv_hit,
            old(self).max_kv_hit is None ==> final(self).max_kv_hit == Some(
                (KvHitRate { overlap_blocks, input_blocks }),
            ),
            old(self).kv_phase is Some ==> final(self).kv_phase == old(self).kv_phase,
            old(self).kv_phase is None ==> final(self).kv_phase == Some(old(self).phase),
            final(self).isl_tokens == old(self).isl_tokens,
            final(self).cached_tokens == old(self).cached_tokens,
            final(self).osl_tokens == old(self).osl_tokens,
            final(self).request_received_epoch_ms == old(self).request_received_epoch_ms,
            final(self).ttft_ms == old(self).ttft_ms,
            final(self).total_time_ms == old(self).total_time_ms,
            final(self).worker == old(self).worker,
            final(self).phase == old(self).phase,
            final(self).kv_hit == old(self).kv_hit,
    {
        if self.max_kv_hit.is_none() {
            self.max_kv_hit = Some(KvHitRate { overlap_blocks, input_blocks });
        }
        if self.kv_phase.is_none() {
            self.kv_phase = Some(self.phase);
        }
    }

    /// The hit rate on the selected worker, if there is one.
    pub fn kv_hit_rate(&self) -> (rate: Option<KvHitRate>)
        ensures
            rate == usable(self.kv_hit),
            (self.kv_hit matches Some(hit) && hit.input_blocks > 0) ==> rate == self.kv_hit,
            !(self.kv_hit matches Some(hit) && hit.input_blocks > 0) ==> rate is None,
    {
        match self.kv_hit {
            Some(rate) => if rate.input_blocks > 0 {
                Some(rate)
            } else {
                None
            },
            None => None,
        }
    }

    /// The greatest hit rate over all workers, if there is one.
    pub fn max_kv_hit_rate(&self) -> (rate: Option<KvHitRate>)
        ensures
            rate == usable(self.max_kv_hit),
            (self.max_kv_hit matches Some(hit) && hit.input_blocks > 0) ==> rate == self.max_kv_hit,
            !(self.max_kv_hit matches Some(hit) && hit.input_blocks > 0) ==> rate is None,
    {
        match self.max_kv_hit {
            Some(rate) => if rate.input_blocks > 0 {
                Some(rate)
            } else {
                None
            },
            None => None,
        }
    }

    /// The phase to report for the KV metrics.
    pub fn phase_at_routing(&self) -> (phase: RequestPhase)
        ensures
            phase == self.routing_phase(),
            self.kv_phase matches Some(first) ==> phase == first,
            self.kv_phase is None ==> phase == self.phase,
    {
        match self.kv_phase {
            Some(phase) => phase,
            None => self.phase,
        }
    }
}

/// The first recorded length of the input stays, as does the first cached part; nothing else changes.
pub proof fn law_recording_input_length(tracker: RequestTracker, isl_tokens: usize,
    cached_tokens: Option<usize>, later: RequestTracker)
    requires
        later == tracker.with_isl(isl_tokens, cached_tokens),
    ensures
        tracker.isl_tokens is Some ==> later.isl_tokens == tracker.isl_tokens,
        tracker.isl_tokens is None ==> later.isl_tokens == Some(isl_tokens),
        tracker.cached_tokens is Some ==> later.cached_tokens == tracker.cached_tokens,
        tracker.cached_tokens is None ==> later.cached_tokens == cached_tokens,
        later.osl_tokens == tracker.osl_tokens,
        later.request_received_epoch_ms == tracker.request_received_epoch_ms,
        later.ttft_ms == tracker.ttft_ms,
        later.total_time_ms == tracker.total_time_ms,
        later.worker == tracker.worker,
        later.phase == tracker.phase,
        later.kv_hit == tracker.kv_hit,
        later.max_kv_hit == tracker.max_kv_hit,
        later.kv_phase == tracker.kv_phase,
{
}

/// The latest recorded length of the output counts; nothing else changes.
pub proof fn law_recording_output_length(tracker: RequestTracker, osl_tokens: u64,
    later: RequestTracker)
    requires
        later == tracker.with_osl(osl_tokens),
    ensures
        later.osl_tokens == osl_tokens,
        later.isl_tokens == tracker.isl_tokens,
        later.cached_tokens == tracker.cached_tokens,
        later.request_received_epoch_ms == tracker.request_received_epoch_ms,
        later.ttft_ms == tracker.ttft_ms,
        later.total_time_ms == tracker.total_time_ms,
        later.worker == tracker.worker,
        later.phase == tracker.phase,
        later.kv_hit == tracker.kv_hit,
        later.max_kv_hit == tracker.max_kv_hit,
        later.kv_phase == tracker.kv_phase,
{
}

/// A request is in the phase that it was last moved to; nothing else changes.
pub proof fn law_changing_phase(tracker: RequestTracker, phase: RequestPhase, later: RequestTracker)
    requires
        later == tracker.with_phase(phase),
    ensures
        later.phase == phase,
        later.isl_tokens == tracker.isl_tokens,
        later.cached_tokens == tracker.cached_tokens,
        later.osl_tokens == tracker.osl_tokens,
        later.request_received_epoch_ms == tracker.request_received_epoch_ms,
        later.ttft_ms == tracker.ttft_ms,
        later.total_time_ms == tracker.total_time_ms,
        later.worker == tracker.worker,
        later.kv_hit == tracker.kv_hit,
        later.max_kv_hit == tracker.max_kv_hit,
        later.kv_phase == tracker.kv_phase,
{
}

/// The first recorded rate on the selected worker stays, with the phase of the first routing; nothing else
/// changes.
pub proof fn law_recording_kv_hit(tracker: RequestTracker, overlap_blocks: u32,
    input_blocks: usize, later: RequestTracker)
    requires
        later == tracker.with_kv_hit(overlap_blocks, input_blocks),
    ensures
        tracker.kv_hit is Some ==> later.kv_hit == tracker.kv_hit,
        tracker.kv_hit is None ==> later.kv_hit == Some(
                (KvHitRate { overlap_blocks, input_blocks }),
            ),
        tracker.kv_phase is Some ==> later.kv_phase == tracker.kv_phase,
        tracker.kv_phase is None ==> later.kv_phase == Some(tracker.phase),
        later.isl_tokens == tracker.isl_tokens,
        later.cached_tokens == tracker.cached_tokens,
        later.osl_tokens == tracker.osl_tokens,
        later.request_received_epoch_ms == tracker.request_received_epoch_ms,
        later.ttft_ms == tracker.ttft_ms,
        later.total_time_ms == tracker.total_time_ms,
        later.worker == tracker.worker,
        later.phase == tracker.phase,
        later.max_kv_hit == tracker.max_kv_hit,
{
}

/// The first recorded greatest rate stays, with the phase of the first routing; nothing else changes.
pub proof fn law_recording_max_kv_hit(tracker: RequestTracker, overlap_blocks: u32,
    input_blocks: usize, later: RequestTracker)
    requires
        later == tracker.with_max_kv_hit(overlap_blocks, input_blocks),
    ensures
        tracker.max_kv_hit is Some ==> later.max_kv_hit == tracker.max_kv_hit,
        tracker.max_kv_hit is None ==> later.max_kv_hit == Some(
                (KvHitRate { overlap_blocks, input_blocks }),
            ),
        tracker.kv_phase is Some ==> later.kv_phase == tracker.kv_phase,
        tracker.kv_phase is None ==> later.kv_phase == Some(tracker.phase),
        later.isl_tokens == tracker.isl_tokens,
        later.cached_tokens == tracker.cached_tokens,
        later.osl_tokens == tracker.osl_tokens,
        later.request_received_epoch_ms == tracker.request_received_epoch_ms,
        later.ttft_ms == tracker.ttft_ms,
        later.total_time_ms == tracker.total_time_ms,
        later.worker == tracker.worker,
        later.phase == tracker.phase,
        later.kv_hit == tracker.kv_hit,
{
}

/// A rate is reported as recorded, if there are input blocks to divide by. The phase that is reported
/// is the one of the first routing, or the current one where there was none, under its own name.
pub proof fn law_rates_and_phase_are_reported_as_recorded(
    tracker: RequestTracker,
    rate: KvHitRate,
)
    ensures
        rate.input_blocks > 0 ==> usable(Some(rate)) == Some(rate),
        rate.input_blocks == 0 ==> usable(Some(rate)) is None,
        usable(None) is None,
        tracker.kv_phase matches Some(first) ==> tracker.routing_phase() == first,
        tracker.kv_phase is None ==> tracker.routing_phase() == tracker.phase,
        RequestPhase::Prefill.name() == "prefill"@,
        RequestPhase::Decode.name() == "decode"@,
        RequestPhase::Aggregated.name() == "aggregated"@,
{
}

/// What has been recorded of the KV metrics stays: no later recording changes a rate that is there,
/// nor the phase in which the first one was recorded.
pub proof fn law_first_kv_metrics_stay(
    tracker: RequestTracker,
    overlap_blocks: u32,
    input_blocks: usize,
    isl_tokens: usize,
    cached_tokens: Option<usize>,
    osl_tokens: u64,
    phase: RequestPhase,
    later: RequestTracker,
)
    requires
        later == tracker.with_kv_hit(overlap_blocks, input_blocks) || later
            == tracker.with_max_kv_hit(overlap_blocks, input_blocks) || later == tracker.with_isl(
            isl_tokens,
            cached_tokens,
        ) || later == tracker.with_osl(osl_tokens) || later == tracker.with_phase(phase),
    ensures
        tracker.kv_hit is Some ==> later.kv_hit == tracker.kv_hit,
        tracker.max_kv_hit is Some ==> later.max_kv_hit == tracker.max_kv_hit,
        tracker.kv_phase is Some ==> later.kv_phase == tracker.kv_phase && later.routing_phase()
            == tracker.routing_phase(),
{
}

} // verus!
