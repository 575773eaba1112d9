//! The record of a completed request.

use super::tracker::{KvHitRate, RequestTracker, WorkerIdInfo};
use crate::binary64::Binary64;
use vstd::prelude::*;

verus! {

/// Per-request metrics snapshot emitted to sinks at request completion.
#[derive(Debug)]
pub struct RequestMetricsRecord {
    pub schema_version: u32,
    pub request_id: String,
    pub model: String,
    pub input_tokens: u64,
    pub output_tokens: u64,
    pub request_received_ms: u64,
    pub ttft_ms: Option<Binary64>,
    pub total_time_ms: Option<Binary64>,
    pub worker: Option<WorkerIdInfo>,
    /// Router-predicted KV hit rate on the selected worker. KV router mode only.
    pub selected_kv_hit_rate: Option<KvHitRate>,
    /// Router-predicted maximum KV hit rate across all workers. KV router mode only.
    pub max_kv_hit_rate: Option<KvHitRate>,
    /// Request phase when KV routing metrics were first recorded: of several routings the first
    /// wins.
    pub phase_at_routing: Option<String>,
    pub router_mode: Option<String>,
}

impl Clone for RequestMetricsRecord {
    fn clone(&self) -> (record: Self)
        ensures
            record == *self,
    {
        RequestMetricsRecord {
            schema_version: self.schema_version,
            request_id: self.request_id.clone(),
            model: self.model.clone(),
            input_tokens: self.input_tokens,
            output_tokens: self.output_tokens,
            request_received_ms: self.request_received_ms,
            ttft_ms: self.ttft_ms,
            total_time_ms: self.total_time_ms,
            worker: self.worker,
            selected_kv_hit_rate: self.selected_kv_hit_rate,
            max_kv_hit_rate: self.max_kv_hit_rate,
            phase_at_routing: match &self.phase_at_routing {
                Some(phase) => Some(phase.clone()),
                None => None,
            },
            router_mode: match &self.router_mode {
                Some(mode) => Some(mode.clone()),
                None => None,
            },
        }
    }
}

/// Whether `held` is `wanted` as a string.
pub open spec fn spelled(held: Option<String>, wanted: Option<Seq<char>>) -> bool {
    match (held, wanted) {
        (Some(text), Some(chars)) => text@ == chars,
        (None, None) => true,
        _ => false,
    }
}

impl RequestMetricsRecord {
    /// The version of the layout of a record.
    pub const SCHEMA_VERSION: u32 = 1;

    /// Whether this is the record of `tracker`, with KV metrics or without.
    pub open spec fn records(
        self,
        tracker: RequestTracker,
        request_id: Seq<char>,
        model: Seq<char>,
        router_mode: Option<Seq<char>>,
        include_kv_metrics: bool,
    ) -> bool {
        &&& self.schema_version == Self::SCHEMA_VERSION
        &&& self.request_id@ == request_id
        &&& self.model@ == model
        &&& self.input_tokens == (match tracker.isl_tokens {
            Some(tokens) => tokens as u64,
            None => 0,
        })
        &&& self.output_tokens == tracker.osl_tokens
        &&& self.request_received_ms == tracker.request_received_epoch_ms
        &&& self.ttft_ms == tracker.ttft_ms
        &&& self.total_time_ms == tracker.total_time_ms
        &&& self.worker == tracker.worker
        &&& self.selected_kv_hit_rate == (if include_kv_metrics {
            super::tracker::usable(tracker.kv_hit)
        } else {
            None
        })
        &&& self.max_kv_hit_rate == (if include_kv_metrics {
            super::tracker::usable(tracker.max_kv_hit)
        } else {
            None
        })
        &&& spelled(
            self.phase_at_routing,
            if include_kv_metrics {
                Some(tracker.routing_phase().name())
            } else {
                None
            },
        )
        &&& spelled(self.router_mode, router_mode)
    }

    pub fn from_tracker(
        tracker: &RequestTracker,
        request_id: &str,
        model: &str,
        router_mode: Option<&str>,
        include_kv_metrics: bool,
    ) -> (record: Self)
        ensures
            record.records(
                *tracker,
                request_id@,
                model@,
                match router_mode {
                    Some(mode) => Some(mode@),
                    None => None,
                },
                include_kv_metrics,
            ),
            record.schema_version == 1,
            record.request_id@ == request_id@,
            record.model@ == model@,
            tracker.isl_tokens matches Some(tokens) ==> record.input_tokens == tokens,
            tracker.isl_tokens is None ==> record.input_tokens == 0,
            record.output_tokens == tracker.osl_tokens,
            record.request_received_ms == tracker.request_received_epoch_ms,
            record.ttft_ms == tracker.ttft_ms,
            record.total_time_ms == tracker.total_time_ms,
            record.worker == tracker.worker,
            record.selected_kv_hit_rate matches Some(rate) ==> include_kv_metrics && tracker.kv_hit
                == Some(rate) && rate.input_blocks > 0,
            record.max_kv_hit_rate matches Some(rate) ==> include_kv_metrics && tracker.max_kv_hit
                == Some(rate) && rate.input_blocks > 0,
            include_kv_metrics && (tracker.kv_hit matches Some(rate) && rate.input_blocks > 0)
                ==> record.selected_kv_hit_rate == tracker.kv_hit,
            include_kv_metrics && (tracker.max_kv_hit matches Some(rate) && rate.input_blocks > 0)
                ==> record.max_kv_hit_rate == tracker.max_kv_hit,
            !include_kv_metrics ==> record.phase_at_routing is None,
            include_kv_metrics ==> (record.phase_at_routing matches Some(name) && (
            match tracker.kv_phase {
                Some(phase) => phase,
                None => tracker.phase,
            }).name() == name@),
            router_mode matches Some(mode)
                ==> (record.router_mode matches Some(held) && held@ == mode@),
            router_mode is None ==> record.router_mode is None,
    {
        let selected_kv_hit_rate: Option<KvHitRate> = if include_kv_metrics {
            tracker.kv_hit_rate()
        } else {
            None
        };
        let max_kv_hit_rate: Option<KvHitRate> = if include_kv_metrics {
            tracker.max_kv_hit_rate()
        } else {
            None
        };
        let phase_at_routing: Option<String> = if include_kv_metrics {
            Some(tracker.phase_at_routing().as_str().to_owned())
        } else {
            None
        };
        let router_mode: Option<String> = match router_mode {
            Some(mode) => Some(mode.to_owned()),
            None => None,
        };
        RequestMetricsRecord {
            schema_version: Self::SCHEMA_VERSION,
            request_id: request_id.to_owned(),
            model: model.to_owned(),
            input_tokens: match tracker.isl_tokens {
                Some(tokens) => tokens as u64,
                None => 0,
            },
            output_tokens: tracker.osl_tokens,
            request_received_ms: tracker.request_received_epoch_ms,
            ttft_ms: tracker.ttft_ms,
            total_time_ms: tracker.total_time_ms,
            worker: tracker.worker,
            selected_kv_hit_rate,
            max_kv_hit_rate,
            phase_at_routing,
            router_mode,
        }
    }
}

/// A record holds what its tracker holds: identity, token counts, times and workers, with KV metrics
/// and without. With KV metrics it also holds the rates that can be computed and the phase of the
/// routing; without, none of these.
pub proof fn law_record_holds_what_the_tracker_holds(
    record: RequestMetricsRecord,
    tracker: RequestTracker,
    request_id: Seq<char>,
    model: Seq<char>,
    router_mode: Option<Seq<char>>,
    include_kv_metrics: bool,
)
    requires
        record.records(tracker, request_id, model, router_mode, include_kv_metrics),
    ensures
        record.schema_version == 1,
        record.request_id@ == request_id,
        record.model@ == model,
        tracker.isl_tokens matches Some(tokens) ==> record.input_tokens == tokens,
        tracker.isl_tokens is None ==> record.input_tokens == 0,
        record.output_tokens == tracker.osl_tokens,
        record.request_received_ms == tracker.request_received_epoch_ms,
        record.ttft_ms == tracker.ttft_ms,
        record.total_time_ms == tracker.total_time_ms,
        record.worker == tracker.worker,
        include_kv_metrics && (tracker.kv_hit matches Some(rate) && rate.input_blocks > 0)
            ==> record.selected_kv_hit_rate == tracker.kv_hit,
        !(include_kv_metrics && (tracker.kv_hit matches Some(rate) && rate.input_blocks > 0))
            ==> record.selected_kv_hit_rate is None,
        include_kv_metrics && (tracker.max_kv_hit matches Some(rate) && rate.input_blocks > 0)
            ==> record.max_kv_hit_rate == tracker.max_kv_hit,
        !(include_kv_metrics && (tracker.max_kv_hit matches Some(rate) && rate.input_blocks > 0))
            ==> record.max_kv_hit_rate is None,
        !include_kv_metrics ==> record.phase_at_routing is None,
        include_kv_metrics && tracker.kv_phase is Some ==> (record.phase_at_routing matches Some(name)
            && name@ == tracker.kv_phase->0.name()),
        include_kv_metrics && tracker.kv_phase is None ==> (record.phase_at_routing matches Some(name)
            && name@ == tracker.phase.name()),
        router_mode matches Some(mode) ==> (record.router_mode matches Some(held) && held@ == mode),
        router_mode is None ==> record.router_mode is None,
{
}

/// Records of one request, one with KV metrics and one without, differ in the rates and the phase
/// alone.
pub proof fn law_kv_metrics_change_nothing_else(
    with: RequestMetricsRecord,
    without: RequestMetricsRecord,
    tracker: RequestTracker,
    request_id: Seq<char>,
    model: Seq<char>,
    router_mode: Option<Seq<char>>,
)
    requires
        with.records(tracker, request_id, model, router_mode, true),
        without.records(tracker, request_id, model, router_mode, false),
    ensures
        with.schema_version == without.schema_version,
        with.request_id@ == without.request_id@,
        with.model@ == without.model@,
        with.input_tokens == without.input_tokens,
        with.output_tokens == without.output_tokens,
        with.request_received_ms == without.request_received_ms,
        with.ttft_ms == without.ttft_ms,
        with.total_time_ms == without.total_time_ms,
        with.worker == without.worker,
        with.router_mode is Some <==> without.router_mode is Some,
        with.router_mode is Some ==> with.router_mode->0@ == without.router_mode->0@,
{
}

} // verus!
