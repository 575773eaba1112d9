//! Per-request metrics: recording, publishing and writing them.

pub mod bus;
pub mod config;
pub mod record;
pub mod sink;
pub mod tracker;

use bus::{BusEvent, MetricsBus, Publication};
use record::RequestMetricsRecord;
use tokio::sync::broadcast::Receiver;
use tracker::RequestTracker;
use vstd::prelude::*;

verus! {

/// Whether a tracker has KV metrics to report.
pub open spec fn has_kv_metrics(tracker: RequestTracker) -> bool {
    tracker::usable(tracker.kv_hit) is Some || tracker::usable(tracker.max_kv_hit) is Some
}

/// Whether `record` is the record of a completed request: with KV metrics, and with `kv` as its
/// router mode, where there are any.
pub open spec fn is_completed_record(
    record: RequestMetricsRecord,
    tracker: RequestTracker,
    request_id: Seq<char>,
    model: Seq<char>,
) -> bool {
    let include_kv = has_kv_metrics(tracker);
    record.records(
        tracker,
        request_id,
        model,
        if include_kv {
            Some("kv"@)
        } else {
            None
        },
        include_kv,
    )
}

/// Starts the bus. A bus that is started already stays as it is.
pub fn init_bus(bus: &mut MetricsBus, capacity: usize)
    requires
        bus::is_channel_capacity(capacity),
    ensures
        old(bus).is_started() ==> *final(bus) == *old(bus),
        !old(bus).is_started() ==> final(bus).is_fresh(capacity),
        final(bus).is_started(),
        !old(bus).is_started() ==> capacity <= final(bus).capacity() < 2 * capacity
            && final(bus).sent().len() == 0,
{
    bus.init(capacity);
}

/// Publishes a record, if metrics are on and the bus is started. A caller that holds a receiver of the
/// bus may show it as `listener`: then somebody listens.
pub fn publish(
    bus: &mut MetricsBus,
    enabled: bool,
    listener: Option<&Receiver<RequestMetricsRecord>>,
    record: RequestMetricsRecord,
) -> (publication: Publication)
    ensures
        bus::is_published(*old(bus), *final(bus), enabled, listener, record, publication),
        !enabled ==> publication is Disabled && *final(bus) == *old(bus),
        enabled && !old(bus).is_started() ==> publication is NotStarted && *final(bus) == *old(bus),
        enabled && old(bus).is_started() ==> publication is Sent || publication is Unheard,
        publication is Sent ==> final(bus).sent() == old(bus).sent().push(record)
            && final(bus).unheard() == old(bus).unheard(),
        publication is Unheard ==> final(bus).sent() == old(bus).sent() && final(bus).unheard()
            == old(bus).unheard().push(record),
        final(bus).channel() == old(bus).channel(),
        final(bus).capacity() == old(bus).capacity(),
        enabled && (listener matches Some(rx) && old(bus).channel() == Some(
            bus::receiver_channel(*rx),
        )) ==> publication is Sent,
{
    bus.publish(enabled, listener, record)
}

/// The record of a completed request.
pub fn completed_record(tracker: &RequestTracker, request_id: &str, model: &str) -> (record:
    RequestMetricsRecord)
    ensures
        is_completed_record(record, *tracker, request_id@, model@),
        record.schema_version == 1,
        record.request_id@ == request_id@,
        record.model@ == model@,
        tracker.isl_tokens matches Some(tokens) ==> record.input_tokens == tokens,
        tracker.isl_tokens is None ==> record.input_tokens == 0,
        record.output_tokens == tracker.osl_tokens,
        record.request_received_ms == tracker.request_received_epoch_ms,
        record.ttft_ms == tracker.ttft_ms,
        record.total_time_ms == tracker.total_time_ms,
        record.worker == tracker.worker,
        ((tracker.kv_hit matches Some(rate) && rate.input_blocks > 0) || (
        tracker.max_kv_hit matches Some(rate) && rate.input_blocks > 0)) ==> {
            &&& record.router_mode matches Some(mode) && mode@ == "kv"@
            &&& record.selected_kv_hit_rate == (match tracker.kv_hit {
                Some(rate) if rate.input_blocks > 0 => Some(rate),
                _ => None,
            })
            &&& record.max_kv_hit_rate == (match tracker.max_kv_hit {
                Some(rate) if rate.input_blocks > 0 => Some(rate),
                _ => None,
            })
            &&& record.phase_at_routing matches Some(name) && name@ == (match tracker.kv_phase {
                Some(phase) => phase,
                None => tracker.phase,
            }).name()
        },
        !((tracker.kv_hit matches Some(rate) && rate.input_blocks > 0) || (
        tracker.max_kv_hit matches Some(rate) && rate.input_blocks > 0))
            ==> record.router_mode is None && record.selected_kv_hit_rate is None
            && record.max_kv_hit_rate is None && record.phase_at_routing is None,
{
    let include_kv: bool = tracker.kv_hit_rate().is_some() || tracker.max_kv_hit_rate().is_some();
    RequestMetricsRecord::from_tracker(
        tracker,
        request_id,
        model,
        if include_kv {
            Some("kv")
        } else {
            None
        },
        include_kv,
    )
}

/// Publishes the record of a completed request, if metrics are on and the bus is started. A caller that
/// holds a receiver of the bus may show it as `listener`: then somebody listens.
pub fn publish_from_tracker(
    bus: &mut MetricsBus,
    enabled: bool,
    listener: Option<&Receiver<RequestMetricsRecord>>,
    tracker: &RequestTracker,
    request_id: &str,
    model: &str,
) -> (publication: Publication)
    ensures
        !enabled ==> publication is Disabled && *final(bus) == *old(bus),
        enabled && !old(bus).is_started() ==> publication is NotStarted && *final(bus) == *old(bus),
        publication is Sent ==> final(bus).sent().len() == old(bus).sent().len() + 1
            && final(bus).sent().drop_last() == old(bus).sent() && is_completed_record(
            final(bus).sent().last(),
            *tracker,
            request_id@,
            model@,
        ),
        publication is Sent || publication is Unheard ==> enabled && old(bus).is_started(),
        publication is Unheard ==> final(bus).sent() == old(bus).sent(),
        enabled && (listener matches Some(rx) && old(bus).channel() == Some(
            bus::receiver_channel(*rx),
        )) ==> publication is Sent,
        enabled ==> exists|record: RequestMetricsRecord| #[trigger]
            is_completed_record(record, *tracker, request_id@, model@) && bus::is_published(
                *old(bus),
                *final(bus),
                enabled,
                listener,
                record,
                publication,
            ),
{
    if !enabled {
        return Publication::Disabled;
    }
    let record: RequestMetricsRecord = completed_record(tracker, request_id, model);
    let ghost published = record;
    let publication: Publication = publish(bus, enabled, listener, record);
    assert(is_completed_record(published, *tracker, request_id@, model@));
    assert(publication is Sent ==> bus.sent().drop_last() =~= old(bus).sent());
    publication
}

/// A receiver that is held while the record of a completed request is published has exactly one record
/// more before it, and that is the request's; it is what it receives next if it had received all that
/// was published before. The record names the router mode `kv` exactly where it holds a KV hit rate.
pub proof fn law_completed_request_is_received(
    before: MetricsBus,
    after: MetricsBus,
    tracker: RequestTracker,
    request_id: Seq<char>,
    model: Seq<char>,
    record: RequestMetricsRecord,
    publication: Publication,
    rx: Receiver<RequestMetricsRecord>,
    event: Option<BusEvent>,
    next: nat,
)
    requires
        before.capacity() > 0,
        before.is_heard_by(rx),
        is_completed_record(record, tracker, request_id, model),
        bus::is_published(before, after, true, Some(&rx), record, publication),
        bus::is_next_event(
            after.sent(),
            bus::receiver_place(rx),
            after.capacity(),
            event,
            next,
        ),
    ensures
        publication is Sent,
        after.sent().skip(bus::receiver_place(rx) as int) == before.sent().skip(
            bus::receiver_place(rx) as int,
        ).push(record),
        bus::receiver_place(rx) == before.sent().len() ==> event == Some(BusEvent::Record(record))
            && next == after.sent().len(),
        record.router_mode is Some <==> record.selected_kv_hit_rate is Some
            || record.max_kv_hit_rate is Some,
        record.router_mode matches Some(mode) ==> mode@ == "kv"@,
{
    bus::law_published_record_is_received(before, after, record, publication, rx, event, next);
    law_router_mode_tells_kv_metrics(record, tracker, request_id, model);
}

/// The record of a completed request holds all that its tracker holds. Where either KV hit rate can be
/// computed it also holds the rates, the phase of the routing, and the router mode `kv`; otherwise none
/// of these.
pub proof fn law_completed_record_holds_the_request(
    record: RequestMetricsRecord,
    tracker: RequestTracker,
    request_id: Seq<char>,
    model: Seq<char>,
)
    requires
        is_completed_record(record, tracker, request_id, model),
    ensures
        record.schema_version == 1,
        record.request_id@ == request_id,
        record.model@ == model,
        tracker.isl_tokens matches Some(tokens) ==> record.input_tokens == tokens,
        tracker.isl_tokens is None ==> record.input_tokens == 0,
        record.output_tokens == tracker.osl_tokens,
        record.request_received_ms == tracker.request_received_epoch_ms,
        record.ttft_ms == tracker.ttft_ms,
        record.total_time_ms == tracker.total_time_ms,
        record.worker == tracker.worker,
        ((tracker.kv_hit matches Some(rate) && rate.input_blocks > 0) || (
        tracker.max_kv_hit matches Some(rate) && rate.input_blocks > 0)) ==> {
            &&& record.router_mode matches Some(mode) && mode@ == "kv"@
            &&& record.selected_kv_hit_rate == (match tracker.kv_hit {
                Some(rate) if rate.input_blocks > 0 => Some(rate),
                _ => None,
            })
            &&& record.max_kv_hit_rate == (match tracker.max_kv_hit {
                Some(rate) if rate.input_blocks > 0 => Some(rate),
                _ => None,
            })
            &&& record.phase_at_routing matches Some(name) && name@ == (match tracker.kv_phase {
                Some(phase) => phase,
                None => tracker.phase,
            }).name()
        },
        !((tracker.kv_hit matches Some(rate) && rate.input_blocks > 0) || (
        tracker.max_kv_hit matches Some(rate) && rate.input_blocks > 0))
            ==> record.router_mode is None && record.selected_kv_hit_rate is None
            && record.max_kv_hit_rate is None && record.phase_at_routing is None,
{
}

/// The record of a completed request names the router mode `kv` exactly where it holds a KV hit
/// rate, and only then does it hold the phase at routing.
pub proof fn law_router_mode_tells_kv_metrics(
    record: RequestMetricsRecord,
    tracker: RequestTracker,
    request_id: Seq<char>,
    model: Seq<char>,
)
    requires
        is_completed_record(record, tracker, request_id, model),
    ensures
        record.router_mode is Some <==> record.selected_kv_hit_rate is Some
            || record.max_kv_hit_rate is Some,
        record.router_mode matches Some(mode) ==> mode@ == "kv"@,
        record.phase_at_routing is Some <==> record.router_mode is Some,
{
}

/// The record of a request that was routed more than once reports the first routing: its hit rate,
/// and the phase that it was in.
pub proof fn law_first_routing_is_reported(
    tracker: RequestTracker,
    overlap_blocks: u32,
    input_blocks: usize,
    phase: tracker::RequestPhase,
    later_overlap_blocks: u32,
    later_input_blocks: usize,
    record: RequestMetricsRecord,
    request_id: Seq<char>,
    model: Seq<char>,
)
    requires
        tracker.kv_hit is None,
        tracker.kv_phase is None,
        input_blocks > 0,
        is_completed_record(
            record,
            tracker.with_kv_hit(overlap_blocks, input_blocks).with_phase(phase).with_kv_hit(
                later_overlap_blocks,
                later_input_blocks,
            ),
            request_id,
            model,
        ),
    ensures
        record.selected_kv_hit_rate == Some(tracker::KvHitRate { overlap_blocks, input_blocks }),
        record.phase_at_routing matches Some(name) && name@ == tracker.phase.name(),
{
}

} // verus!
