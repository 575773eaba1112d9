use kv_router::binary64::Binary64;
use kv_router::request_metrics::bus::{BusEvent, MetricsBus, Publication};
use kv_router::request_metrics::config::{
    bus_capacity, enabled, init_from_setting, policy, RequestMetricsPolicy,
};
use kv_router::request_metrics::record::RequestMetricsRecord;
use kv_router::request_metrics::sink::{
    json_line, parse_sinks, sink_path, sinks_to_serve, subscribe_sinks, unknown_sinks,
    worker_action, SinkKind, StderrSink, WorkerAction,
};
use kv_router::request_metrics::tracker::{KvHitRate, RequestPhase, RequestTracker, WorkerIdInfo};
use kv_router::request_metrics::{completed_record, init_bus, publish, publish_from_tracker};
use tokio::sync::broadcast::error::TryRecvError;

/// The quotient that a hit rate stands for.
fn quotient(rate: Option<KvHitRate>) -> Option<f64> {
    rate.map(|rate| rate.overlap_blocks as f64 / rate.input_blocks as f64)
}

/// Asserts that two records hold the same texts, counts and bit patterns.
fn assert_same_record(a: &RequestMetricsRecord, b: &RequestMetricsRecord) {
    assert_eq!(format!("{a:?}"), format!("{b:?}"));
}

#[test]
fn test_from_tracker_with_kv_metrics() {
    let mut tracker = RequestTracker::new();
    tracker.record_isl(100, Some(30));
    tracker.record_kv_hit(3, 10);
    tracker.record_max_kv_hit(7, 10);
    tracker.record_osl(50);

    let rec =
        RequestMetricsRecord::from_tracker(&tracker, "req-1", "test-model", Some("kv"), true);

    assert_eq!(rec.request_id, "req-1");
    assert_eq!(rec.input_tokens, 100);
    assert_eq!(rec.output_tokens, 50);
    assert_eq!(quotient(rec.selected_kv_hit_rate), Some(0.3));
    assert_eq!(quotient(rec.max_kv_hit_rate), Some(0.7));
    assert_eq!(rec.router_mode, Some("kv".to_string()));
}

#[test]
fn test_from_tracker_without_kv_metrics() {
    let mut tracker = RequestTracker::new();
    tracker.record_isl(64, Some(0));

    let rec = RequestMetricsRecord::from_tracker(&tracker, "req-2", "m", None, false);

    assert!(rec.selected_kv_hit_rate.is_none());
    assert!(rec.max_kv_hit_rate.is_none());
    assert!(rec.phase_at_routing.is_none());
}

#[test]
fn test_request_metrics_bus_publish() {
    let mut bus = MetricsBus::new();
    init_bus(&mut bus, 8);

    let mut rx = bus.subscribe();

    let mut tracker = RequestTracker::new();
    tracker.record_isl(100, Some(30));
    tracker.record_kv_hit(3, 10);
    tracker.record_max_kv_hit(7, 10);
    tracker.record_osl(42);

    let rec =
        RequestMetricsRecord::from_tracker(&tracker, "test-req", "test-model", Some("kv"), true);
    assert!(matches!(publish(&mut bus, true, Some(&rx), rec.clone()), Publication::Sent(1)));

    let received = rx.try_recv().expect("channel closed");

    assert_eq!(received.request_id, "test-req");
    assert_eq!(received.input_tokens, 100);
    assert_eq!(received.output_tokens, 42);
    assert_eq!(quotient(received.selected_kv_hit_rate), Some(0.3));
    assert_eq!(quotient(received.max_kv_hit_rate), Some(0.7));
    assert_same_record(&received, &rec);
}

#[test]
fn records_hold_all_that_the_tracker_holds() {
    let mut tracker = RequestTracker::new();
    let worker = WorkerIdInfo {
        prefill_worker_id: Some(1),
        prefill_dp_rank: Some(0),
        decode_worker_id: Some(2),
        decode_dp_rank: None,
    };
    tracker.worker = Some(worker);
    tracker.request_received_epoch_ms = 1716123456789;
    tracker.ttft_ms = Some(Binary64::from_bits(45.2f64.to_bits()));
    tracker.total_time_ms = Some(Binary64::from_bits(3200.5f64.to_bits()));

    let rec = completed_record(&tracker, "abc-123", "Qwen/Qwen3-0.6B");
    assert_eq!(rec.schema_version, 1);
    assert_eq!(RequestMetricsRecord::SCHEMA_VERSION, 1);
    assert_eq!(rec.model, "Qwen/Qwen3-0.6B");
    assert_eq!(rec.input_tokens, 0);
    assert_eq!(rec.request_received_ms, 1716123456789);
    assert_eq!(rec.ttft_ms.map(|ms| f64::from_bits(ms.to_bits())), Some(45.2));
    assert_eq!(rec.total_time_ms.map(|ms| f64::from_bits(ms.to_bits())), Some(3200.5));
    assert_eq!(rec.worker, Some(worker));
    assert_eq!(rec.router_mode, None);
    assert_eq!(rec.phase_at_routing, None);
}

#[test]
fn the_first_routing_is_reported() {
    let mut tracker = RequestTracker::new();
    tracker.set_phase(RequestPhase::Prefill);
    tracker.record_kv_hit(3, 10);
    tracker.record_max_kv_hit(7, 10);
    tracker.set_phase(RequestPhase::Decode);
    tracker.record_kv_hit(9, 10);
    tracker.record_max_kv_hit(10, 10);

    let rec = completed_record(&tracker, "r", "m");
    assert_eq!(rec.selected_kv_hit_rate, Some(KvHitRate { overlap_blocks: 3, input_blocks: 10 }));
    assert_eq!(rec.max_kv_hit_rate, Some(KvHitRate { overlap_blocks: 7, input_blocks: 10 }));
    assert_eq!(rec.phase_at_routing, Some("prefill".to_string()));
    assert_eq!(rec.router_mode, Some("kv".to_string()));
}

#[test]
fn one_rate_is_enough_for_kv_mode() {
    let mut tracker = RequestTracker::new();
    tracker.record_max_kv_hit(0, 4);
    let rec = completed_record(&tracker, "r", "m");
    assert_eq!(rec.selected_kv_hit_rate, None);
    assert_eq!(quotient(rec.max_kv_hit_rate), Some(0.0));
    assert_eq!(rec.router_mode, Some("kv".to_string()));
    assert_eq!(rec.phase_at_routing, Some("aggregated".to_string()));

    let mut tracker = RequestTracker::new();
    tracker.record_kv_hit(0, 0);
    assert_eq!(completed_record(&tracker, "r", "m").router_mode, None);

    let rec = RequestMetricsRecord::from_tracker(&RequestTracker::new(), "r", "m", None, true);
    assert_eq!(rec.phase_at_routing, Some("aggregated".to_string()));
}

#[test]
fn input_length_stays_and_output_length_moves() {
    let mut tracker = RequestTracker::new();
    tracker.record_isl(100, None);
    tracker.record_isl(200, Some(5));
    tracker.record_osl(1);
    tracker.record_osl(2);
    assert_eq!(tracker.isl_tokens, Some(100));
    assert_eq!(tracker.cached_tokens, Some(5));
    assert_eq!(tracker.osl_tokens, 2);
}

#[test]
fn a_started_bus_stays_as_it_is() {
    let mut bus = MetricsBus::new();
    bus.init(4);
    let mut rx = bus.subscribe();
    bus.init(1);
    let rec = completed_record(&RequestTracker::new(), "kept", "m");
    assert!(matches!(bus.publish(true, None, rec), Publication::Sent(1)));
    assert_eq!(rx.try_recv().unwrap().request_id, "kept");
}

#[test]
fn lagging_receivers_lose_the_oldest_records() {
    let mut bus = MetricsBus::new();
    bus.init(3);
    let mut rx = bus.subscribe();
    for id in ["a", "b", "c", "d", "e"] {
        bus.publish(true, None, completed_record(&RequestTracker::new(), id, "m"));
    }
    // Three slots are rounded up to four.
    assert_eq!(rx.try_recv().err(), Some(TryRecvError::Lagged(1)));
    assert_eq!(rx.try_recv().unwrap().request_id, "b");
}

#[test]
fn every_subscriber_receives_every_record() {
    let mut bus = MetricsBus::new();
    bus.init(8);
    let mut first = bus.subscribe();
    let mut second = bus.subscribe();
    let tracker = RequestTracker::new();
    let published = publish_from_tracker(&mut bus, true, None, &tracker, "id", "m");
    assert!(matches!(published, Publication::Sent(2)));
    assert_same_record(&first.try_recv().unwrap(), &completed_record(&tracker, "id", "m"));
    assert_eq!(second.try_recv().unwrap().request_id, "id");
    assert_eq!(second.try_recv().err(), Some(TryRecvError::Empty));
}

#[test]
fn records_are_dropped_where_nobody_can_receive_them() {
    let tracker = RequestTracker::new();
    let mut bus = MetricsBus::new();
    assert!(matches!(
        publish_from_tracker(&mut bus, true, None, &tracker, "id", "m"),
        Publication::NotStarted
    ));
    bus.init(1);
    match publish_from_tracker(&mut bus, true, None, &tracker, "id", "m") {
        Publication::Unheard(record) => assert_eq!(record.request_id, "id"),
        other => panic!("{other:?}"),
    }
    let mut rx = bus.subscribe();
    assert!(matches!(
        publish_from_tracker(&mut bus, false, None, &tracker, "id", "m"),
        Publication::Disabled
    ));
    assert_eq!(rx.try_recv().err(), Some(TryRecvError::Empty));
}

/// The identifiers of the records that are ready for a receiver, and the counts of lost ones.
fn drain(
    bus: &MetricsBus,
    rx: &mut tokio::sync::broadcast::Receiver<RequestMetricsRecord>,
) -> Vec<String> {
    let mut seen = Vec::new();
    while let Some(event) = bus.receive(rx) {
        seen.push(match event {
            BusEvent::Record(record) => record.request_id,
            BusEvent::Lagged(dropped) => format!("lost {dropped}"),
            BusEvent::Closed => "closed".to_string(),
        });
    }
    seen
}

#[test]
fn subscribers_receive_what_is_published_after_they_subscribe() {
    let mut bus = MetricsBus::new();
    assert!(!bus.has_started());
    bus.init(4);
    assert!(bus.has_started());
    let tracker = RequestTracker::new();
    let mut early = bus.subscribe();
    assert!(bus.receive(&mut early).is_none());
    publish_from_tracker(&mut bus, true, None, &tracker, "a", "m");
    let mut late = bus.subscribe();
    publish_from_tracker(&mut bus, true, None, &tracker, "b", "m");
    publish_from_tracker(&mut bus, false, None, &tracker, "off", "m");
    assert_eq!(drain(&bus, &mut early), ["a", "b"]);
    publish_from_tracker(&mut bus, true, None, &tracker, "c", "m");
    assert_eq!(drain(&bus, &mut early), ["c"]);
    assert_eq!(drain(&bus, &mut late), ["b", "c"]);
    assert_eq!(drain(&bus, &mut late), [""; 0]);
}

#[test]
fn received_records_are_the_published_ones() {
    let mut bus = MetricsBus::new();
    bus.init(1);
    let mut rx = bus.subscribe();
    let mut tracker = RequestTracker::new();
    tracker.record_isl(100, Some(30));
    tracker.record_kv_hit(3, 10);
    let record = completed_record(&tracker, "id", "m");
    assert!(matches!(bus.publish(true, None, record.clone()), Publication::Sent(1)));
    match bus.receive(&mut rx) {
        Some(BusEvent::Record(received)) => assert_same_record(&received, &record),
        other => panic!("{other:?}"),
    }
}

#[test]
fn every_record_is_received_or_counted_as_lost() {
    let mut bus = MetricsBus::new();
    bus.init(2);
    let mut rx = bus.subscribe();
    for id in ["a", "b", "c", "d", "e"] {
        bus.publish(true, None, completed_record(&RequestTracker::new(), id, "m"));
    }
    assert_eq!(drain(&bus, &mut rx), ["lost 3", "d", "e"]);
    bus.publish(true, None, completed_record(&RequestTracker::new(), "f", "m"));
    assert_eq!(drain(&bus, &mut rx), ["f"]);
}

#[test]
fn a_held_receiver_makes_a_publication_heard() {
    let mut bus = MetricsBus::new();
    bus.init(2);
    let mut rx = bus.subscribe();
    let mut tracker = RequestTracker::new();
    tracker.record_max_kv_hit(7, 10);
    let published = publish_from_tracker(&mut bus, true, Some(&rx), &tracker, "id", "m");
    assert!(matches!(published, Publication::Sent(1)));
    match bus.receive(&mut rx) {
        Some(BusEvent::Record(received)) => {
            assert_same_record(&received, &completed_record(&tracker, "id", "m"));
            assert_eq!(received.router_mode, Some("kv".to_string()));
        }
        other => panic!("{other:?}"),
    }
    assert!(bus.receive(&mut rx).is_none());

    let mut other = MetricsBus::new();
    other.init(2);
    let unheard = publish_from_tracker(&mut other, true, Some(&rx), &tracker, "id", "m");
    assert!(matches!(unheard, Publication::Unheard(_)));
}

#[test]
fn every_sink_is_handed_every_record() {
    let mut bus = MetricsBus::new();
    assert!(subscribe_sinks::<SinkKind, u8>(&bus, Ok(vec![])).unwrap().is_empty());
    assert_eq!(subscribe_sinks::<SinkKind, u8>(&bus, Err(7)).err(), Some(7));
    bus.init(2);
    let early = completed_record(&RequestTracker::new(), "early", "m");
    bus.publish(true, None, early);
    let opened: Result<Vec<SinkKind>, u8> = Ok(vec![SinkKind::Stderr, SinkKind::File]);
    let mut subscribed = subscribe_sinks(&bus, opened).unwrap();
    assert_eq!(subscribed.len(), 2);
    assert_eq!(subscribed[0].0, SinkKind::Stderr);
    assert_eq!(subscribed[1].0, SinkKind::File);
    for id in ["a", "b"] {
        let record = completed_record(&RequestTracker::new(), id, "m");
        assert!(matches!(bus.publish(true, None, record), Publication::Sent(2)));
    }
    for (_, rx) in subscribed.iter_mut() {
        let mut emitted = Vec::new();
        while let Some(event) = bus.receive(rx) {
            match worker_action(event) {
                WorkerAction::Emit(record) => emitted.push(record.request_id),
                other => panic!("{other:?}"),
            }
        }
        assert_eq!(emitted, ["a", "b"]);
    }
}

#[test]
fn lost_records_are_reported() {
    let mut bus = MetricsBus::new();
    bus.init(2);
    let mut rx = bus.subscribe();
    for id in ["a", "b", "c"] {
        bus.publish(true, None, completed_record(&RequestTracker::new(), id, "m"));
    }
    let event = bus.receive(&mut rx).unwrap();
    assert!(matches!(worker_action(event), WorkerAction::ReportDropped(1)));
    assert_eq!(drain(&bus, &mut rx), ["b", "c"]);
}

#[test]
fn unheard_records_are_not_received_later() {
    let mut bus = MetricsBus::new();
    bus.init(2);
    let record = completed_record(&RequestTracker::new(), "lost", "m");
    assert!(matches!(bus.publish(true, None, record), Publication::Unheard(_)));
    let mut rx = bus.subscribe();
    assert_eq!(drain(&bus, &mut rx), [""; 0]);
}

#[test]
fn a_slot_of_the_bus_is_small() {
    assert!(std::mem::size_of::<RequestMetricsRecord>() + 128 < 512);
}

#[test]
fn metrics_are_on_where_the_setting_says_true() {
    assert!(init_from_setting(Some("true")).enabled);
    for off in [None, Some("false"), Some("TRUE"), Some("1"), Some(""), Some(" true")] {
        assert!(!init_from_setting(off).enabled);
    }
}

#[test]
fn the_policy_is_read_once() {
    let mut cell = None;
    let on = RequestMetricsPolicy { enabled: true };
    assert_eq!(policy(&mut cell, || Some("true".to_string())), on);
    assert_eq!(policy(&mut cell, || panic!("read twice")), on);
    assert!(enabled(&mut cell, || Some("false".to_string())));

    let mut cell = None;
    assert!(!enabled(&mut cell, || None));
    assert!(!enabled(&mut cell, || Some("true".to_string())));
}

#[test]
fn sinks_are_read_from_a_list() {
    assert_eq!(parse_sinks(None), vec![SinkKind::Stderr]);
    assert_eq!(parse_sinks(Some("")), vec![SinkKind::Stderr]);
    assert_eq!(parse_sinks(Some("file")), vec![SinkKind::File]);
    assert_eq!(parse_sinks(Some("stderr,file")), vec![SinkKind::Stderr, SinkKind::File]);
    assert_eq!(
        parse_sinks(Some(" File ,STDERR, kafka ,file,")),
        vec![SinkKind::File, SinkKind::Stderr, SinkKind::File, SinkKind::Stderr]
    );
    assert_eq!(parse_sinks(Some("f\u{130}le,st derr")), vec![]);
}

#[test]
fn unknown_sinks_are_listed() {
    assert_eq!(unknown_sinks(None), [""; 0]);
    assert_eq!(unknown_sinks(Some("")), [""; 0]);
    assert_eq!(unknown_sinks(Some("stderr, FILE ,")), [""; 0]);
    assert_eq!(unknown_sinks(Some(" Kafka ,file,st derr")), ["kafka", "st derr"]);
    assert_eq!(unknown_sinks(Some("x,\u{c4}")), ["x", "\u{e4}"]);
}

#[test]
fn joined_lists_give_joined_sinks() {
    let mut both = parse_sinks(Some("file,x"));
    both.extend(parse_sinks(Some("stderr")));
    assert_eq!(parse_sinks(Some("file,x,stderr")), both);
    for sink in [SinkKind::Stderr, SinkKind::File] {
        assert_eq!(parse_sinks(Some(sink.name())), vec![sink]);
    }
    assert_eq!(StderrSink.name(), "stderr");
}

#[test]
fn sinks_are_served_where_metrics_are_on() {
    assert_eq!(sinks_to_serve(true, Some("file")), vec![SinkKind::File]);
    assert_eq!(sinks_to_serve(true, None), vec![SinkKind::Stderr]);
    assert_eq!(sinks_to_serve(false, Some("file")), vec![]);
}

#[test]
fn files_get_one_line_per_record() {
    assert_eq!(sink_path(None), "/tmp/dynamo_request_metrics.jsonl");
    assert_eq!(sink_path(Some("/var/log/m.jsonl".to_string())), "/var/log/m.jsonl");
    assert_eq!(json_line("{}".to_string()), "{}\n");
}

#[test]
fn workers_stop_only_where_the_bus_is_gone() {
    let record = completed_record(&RequestTracker::new(), "id", "m");
    match worker_action(BusEvent::Record(record.clone())) {
        WorkerAction::Emit(emitted) => assert_same_record(&emitted, &record),
        other => panic!("{other:?}"),
    }
    assert!(matches!(worker_action(BusEvent::Lagged(7)), WorkerAction::ReportDropped(7)));
    assert!(matches!(worker_action(BusEvent::Closed), WorkerAction::Stop));
}

#[test]
fn the_bus_capacity_is_read_from_a_setting() {
    assert_eq!(bus_capacity(None), 1024);
    assert_eq!(bus_capacity(Some("8")), 8);
    assert_eq!(bus_capacity(Some("+0064")), 64);
    assert_eq!(bus_capacity(Some("0")), 0);
    assert_eq!(bus_capacity(Some(&usize::MAX.to_string())), usize::MAX);
    for wrong in ["", "+", "-1", "12a", " 8", "1_000", "99999999999999999999999999"] {
        assert_eq!(wrong.parse::<usize>().ok(), None);
        assert_eq!(bus_capacity(Some(wrong)), 1024);
    }
}
