//! Where records are written to.

use super::bus::{BusEvent, MetricsBus};
use super::record::RequestMetricsRecord;
use crate::text::{characters, same_text, trimmed_range};
use tokio::sync::broadcast::Receiver;
use vstd::prelude::*;
use vstd::string::*;

verus! {

/// The text that `str::to_lowercase` makes of a text.
pub uninterp spec fn unicode_lower(text: Seq<char>) -> Seq<char>;

/// `str::to_lowercase`.
///
/// Trusted: the result depends on the characters alone, and an ASCII text only has `A` to `Z`
/// replaced by `a` to `z`. What Unicode says of other characters is left unsaid.
#[verifier::external_body]
fn lowercase(text: &str) -> (lower: String)
    ensures
        lower@ == unicode_lower(text@),
        vstd::utf8::is_ascii_chars(text@) ==> lower@ == crate::text::ascii_lower(text@),
{
    text.to_lowercase()
}

/// A place that records are written to.
#[derive(Clone, Copy, Debug, PartialEq, Eq, Structural)]
pub enum SinkKind {
    Stderr,
    File,
}

/// Writes records to the log.
#[derive(Clone, Copy, Debug, PartialEq, Eq, Structural)]
pub struct StderrSink;

impl StderrSink {
    pub fn name(&self) -> (name: &'static str)
        ensures
            name@ == SinkKind::Stderr.spelling(),
            name@ == "stderr"@,
    {
        SinkKind::Stderr.name()
    }
}

impl SinkKind {
    pub open spec fn spelling(self) -> Seq<char> {
        match self {
            SinkKind::Stderr => "stderr"@,
            SinkKind::File => "file"@,
        }
    }

    pub fn name(self) -> (name: &'static str)
        ensures
            name@ == self.spelling(),
            self == SinkKind::Stderr ==> name@ == "stderr"@,
            self == SinkKind::File ==> name@ == "file"@,
    {
        match self {
            SinkKind::Stderr => "stderr",
            SinkKind::File => "file",
        }
    }
}

/// The sink that a lower-case name without surrounding white space stands for. The empty name stands
/// for the log; an unknown one stands for none.
pub open spec fn named_sink(name: Seq<char>) -> Option<SinkKind> {
    if name == "stderr"@ || name == ""@ {
        Some(SinkKind::Stderr)
    } else if name == "file"@ {
        Some(SinkKind::File)
    } else {
        None
    }
}

/// The name that a piece of a setting spells: without surrounding white space, and in lower case.
pub open spec fn name_in(piece: Seq<char>) -> Seq<char> {
    unicode_lower(crate::text::trim(piece))
}

/// The sinks that the setting `DYN_REQUEST_METRICS_SINKS`, a list with commas, stands for, in order.
pub open spec fn sinks_of(setting: Seq<char>) -> Seq<SinkKind> {
    crate::text::pieces(setting, ',').filter_map(|piece: Seq<char>| named_sink(name_in(piece)))
}

/// The name that a piece of a setting spells, where it stands for no sink.
pub open spec fn unknown_name(piece: Seq<char>) -> Option<Seq<char>> {
    if named_sink(name_in(piece)) is None {
        Some(name_in(piece))
    } else {
        None
    }
}

/// The names in a list with commas that stand for no sink, in order.
pub open spec fn unknown_names_of(setting: Seq<char>) -> Seq<Seq<char>> {
    crate::text::pieces(setting, ',').filter_map(|piece: Seq<char>| unknown_name(piece))
}

/// The sinks that a list in ASCII stands for: every piece without surrounding white space, and
/// without regard to case.
pub open spec fn ascii_sinks_of(setting: Seq<char>) -> Seq<SinkKind> {
    crate::text::pieces(setting, ',').filter_map(
        |piece: Seq<char>| named_sink(crate::text::normalized(piece)),
    )
}

/// The sink that a name stands for.
pub fn sink_named(name: &str) -> (sink: Option<SinkKind>)
    ensures
        sink == named_sink(name@),
        sink == Some(SinkKind::Stderr) <==> name@ == "stderr"@ || name@.len() == 0,
        sink == Some(SinkKind::File) <==> name@ == "file"@,
{
    proof {
        law_names_of_sinks(name@);
    }
    if same_text(name, "stderr") || same_text(name, "") {
        Some(SinkKind::Stderr)
    } else if same_text(name, "file") {
        Some(SinkKind::File)
    } else {
        None
    }
}

/// Which names stand for which sink, and that no other name stands for any.
pub proof fn law_names_of_sinks(name: Seq<char>)
    ensures
        named_sink(name) == Some(SinkKind::Stderr) <==> name == "stderr"@ || name.len() == 0,
        named_sink(name) == Some(SinkKind::File) <==> name == "file"@,
        SinkKind::Stderr.spelling() == "stderr"@,
        SinkKind::File.spelling() == "file"@,
{
    reveal_strlit("stderr");
    reveal_strlit("file");
    reveal_strlit("");
    assert(name.len() == 0 ==> name =~= ""@);
    assert(name == "stderr"@ ==> name[0] == 's');
    assert(name == "file"@ ==> name[0] == 'f');
}

/// A list stands for the sinks of its pieces: one without a comma for the sink that it names, without
/// surrounding white space and in lower case, or for none and then it is reported; one that is joined
/// of two for those of both.
pub proof fn law_lists_stand_for_their_pieces(a: Seq<char>, b: Seq<char>)
    ensures
        sinks_of(a.push(',') + b) == sinks_of(a) + sinks_of(b),
        unknown_names_of(a.push(',') + b) == unknown_names_of(a) + unknown_names_of(b),
        ascii_sinks_of(a.push(',') + b) == ascii_sinks_of(a) + ascii_sinks_of(b),
        (forall|i: int| 0 <= i < a.len() ==> #[trigger] a[i] != ',') ==> {
            let name = unicode_lower(crate::text::trim(a));
            &&& sinks_of(a) == (match named_sink(name) {
                Some(sink) => seq![sink],
                None => Seq::empty(),
            })
            &&& unknown_names_of(a) == (if named_sink(name) is None {
                seq![name]
            } else {
                Seq::empty()
            })
            &&& ascii_sinks_of(a) == (match named_sink(crate::text::normalized(a)) {
                Some(sink) => seq![sink],
                None => Seq::empty(),
            })
        },
{
    let meaning = |piece: Seq<char>| named_sink(name_in(piece));
    let unknown = |piece: Seq<char>| unknown_name(piece);
    let ascii = |piece: Seq<char>| named_sink(crate::text::normalized(piece));
    let of_a = crate::text::pieces(a, ',');
    let of_b = crate::text::pieces(b, ',');
    crate::text::law_text_is_cut_at_separators(a, b, ',');
    lemma_filter_map_of_joined(of_a, of_b, meaning);
    lemma_filter_map_of_joined(of_a, of_b, unknown);
    lemma_filter_map_of_joined(of_a, of_b, ascii);
    if forall|i: int| 0 <= i < a.len() ==> #[trigger] a[i] != ',' {
        assert(of_a == seq![a]);
        assert(seq![a].drop_last() =~= Seq::empty());
        assert(seq![a].last() == a);
        assert(Seq::<Seq<char>>::empty().filter_map(meaning) =~= Seq::empty());
        assert(Seq::<Seq<char>>::empty().filter_map(unknown) =~= Seq::empty());
        assert(Seq::<Seq<char>>::empty().filter_map(ascii) =~= Seq::empty());
        assert(sinks_of(a) =~= match named_sink(unicode_lower(crate::text::trim(a))) {
            Some(sink) => seq![sink],
            None => Seq::empty(),
        });
        assert(unknown_names_of(a) =~= if named_sink(
            unicode_lower(crate::text::trim(a)),
        ) is None {
            seq![unicode_lower(crate::text::trim(a))]
        } else {
            Seq::empty()
        });
        assert(ascii_sinks_of(a) =~= match named_sink(crate::text::normalized(a)) {
            Some(sink) => seq![sink],
            None => Seq::empty(),
        });
    }
}

/// The name that the characters `from..to` of a setting spell.
fn read_name(setting: &str, chars: &Vec<char>, from: usize, to: usize) -> (name: String)
    requires
        chars@ == setting@,
        from <= to <= chars.len(),
    ensures
        name@ == name_in(chars@.subrange(from as int, to as int)),
        vstd::utf8::is_ascii_chars(setting@) ==> name@ == crate::text::normalized(
            chars@.subrange(from as int, to as int),
        ),
{
    let range: (usize, usize) = trimmed_range(chars, from, to);
    lowercase(setting.substring_char(range.0, range.1))
}

/// The names that a list with commas spells, in order.
fn list_names(setting: &str) -> (names: Vec<String>)
    ensures
        names.len() == crate::text::pieces(setting@, ',').len(),
        forall|k: int|
            0 <= k < names.len() ==> (#[trigger] names@[k])@ == name_in(
                crate::text::pieces(setting@, ',')[k],
            ),
        vstd::utf8::is_ascii_chars(setting@) ==> forall|k: int|
            0 <= k < names.len() ==> (#[trigger] names@[k])@ == crate::text::normalized(
                crate::text::pieces(setting@, ',')[k],
            ),
{
    let chars: Vec<char> = characters(setting);
    let mut names: Vec<String> = Vec::new();
    let mut from: usize = 0;
    let mut i: usize = 0;
    assert(crate::text::pieces(chars@.take(0), ',').drop_last() =~= Seq::<Seq<char>>::empty());
    assert(chars@.subrange(0, 0) =~= Seq::<char>::empty());
    while i < chars.len()
        invariant
            from <= i <= chars.len(),
            chars@ == setting@,
            crate::text::pieces(chars@.take(i as int), ',').len() == names.len() + 1,
            crate::text::pieces(chars@.take(i as int), ',').last() == chars@.subrange(
                from as int,
                i as int,
            ),
            forall|k: int|
                0 <= k < names.len() ==> (#[trigger] names@[k])@ == name_in(
                    crate::text::pieces(chars@.take(i as int), ',')[k],
                ),
            vstd::utf8::is_ascii_chars(setting@) ==> forall|k: int|
                0 <= k < names.len() ==> (#[trigger] names@[k])@ == crate::text::normalized(
                    crate::text::pieces(chars@.take(i as int), ',')[k],
                ),
        decreases chars.len() - i,
    {
        let ghost before = crate::text::pieces(chars@.take(i as int), ',');
        let ghost after = crate::text::pieces(chars@.take(i + 1), ',');
        proof {
            assert(chars@.take(i + 1).drop_last() =~= chars@.take(i as int));
            assert(chars@.take(i + 1).last() == chars@[i as int]);
        }
        if chars[i] == ',' {
            names.push(read_name(setting, &chars, from, i));
            from = i + 1;
            proof {
                assert(after.drop_last() =~= before);
                assert(after.last() =~= chars@.subrange(i + 1, i + 1));
            }
        } else {
            proof {
                assert(after.drop_last() =~= before.drop_last());
                assert(after.last() =~= chars@.subrange(from as int, i + 1));
            }
        }
        i = i + 1;
    }
    names.push(read_name(setting, &chars, from, chars.len()));
    assert(chars@.take(chars@.len() as int) =~= setting@);
    names
}

/// The sinks that the setting `DYN_REQUEST_METRICS_SINKS` stands for; the log where it is not there.
pub fn parse_sinks(setting: Option<&str>) -> (sinks: Vec<SinkKind>)
    ensures
        sinks@ == (match setting {
            Some(value) => sinks_of(value@),
            None => seq![SinkKind::Stderr],
        }),
        setting matches Some(value) ==> (vstd::utf8::is_ascii_chars(value@) ==> sinks@
            == ascii_sinks_of(value@)),
{
    let mut sinks: Vec<SinkKind> = Vec::new();
    let value: &str = match setting {
        Some(value) => value,
        None => {
            sinks.push(SinkKind::Stderr);
            assert(sinks@ =~= seq![SinkKind::Stderr]);
            return sinks;
        },
    };
    let names: Vec<String> = list_names(value);
    let ghost pieces = crate::text::pieces(value@, ',');
    let ghost meaning = |piece: Seq<char>| named_sink(name_in(piece));
    let ghost ascii_meaning = |piece: Seq<char>| named_sink(crate::text::normalized(piece));
    let mut i: usize = 0;
    assert(pieces.take(0).filter_map(meaning) =~= Seq::<SinkKind>::empty());
    assert(pieces.take(0).filter_map(ascii_meaning) =~= Seq::<SinkKind>::empty());
    while i < names.len()
        invariant
            i <= names.len() == pieces.len(),
            pieces == crate::text::pieces(value@, ','),
            meaning == |piece: Seq<char>| named_sink(name_in(piece)),
            ascii_meaning == |piece: Seq<char>| named_sink(crate::text::normalized(piece)),
            forall|k: int| 0 <= k < names.len() ==> (#[trigger] names@[k])@ == name_in(pieces[k]),
            vstd::utf8::is_ascii_chars(value@) ==> forall|k: int|
                0 <= k < names.len() ==> (#[trigger] names@[k])@ == crate::text::normalized(
                    pieces[k],
                ),
            sinks@ == pieces.take(i as int).filter_map(meaning),
            vstd::utf8::is_ascii_chars(value@) ==> sinks@ == pieces.take(i as int).filter_map(
                ascii_meaning,
            ),
        decreases names.len() - i,
    {
        assert(pieces.take(i + 1).drop_last() =~= pieces.take(i as int));
        assert(names@[i as int]@ == name_in(pieces[i as int]));
        match sink_named(names[i].as_str()) {
            Some(sink) => {
                let ghost before = sinks@;
                sinks.push(sink);
                assert(sinks@ =~= before + seq![sink]);
            },
            None => {},
        }
        i = i + 1;
    }
    assert(pieces.take(pieces.len() as int) =~= pieces);
    sinks
}

/// The names in the setting `DYN_REQUEST_METRICS_SINKS` that stand for no sink and are ignored.
pub fn unknown_sinks(setting: Option<&str>) -> (unknown: Vec<String>)
    ensures
        unknown@.map_values(|name: String| name@) == (match setting {
            Some(value) => unknown_names_of(value@),
            None => Seq::empty(),
        }),
{
    let mut unknown: Vec<String> = Vec::new();
    let ghost text = |name: String| name@;
    let value: &str = match setting {
        Some(value) => value,
        None => {
            assert(unknown@.map_values(text) =~= Seq::empty());
            return unknown;
        },
    };
    let names: Vec<String> = list_names(value);
    let ghost pieces = crate::text::pieces(value@, ',');
    let ghost meaning = |piece: Seq<char>| unknown_name(piece);
    let mut i: usize = 0;
    assert(unknown@.map_values(text) =~= pieces.take(0).filter_map(meaning));
    while i < names.len()
        invariant
            i <= names.len() == pieces.len(),
            pieces == crate::text::pieces(value@, ','),
            meaning == |piece: Seq<char>| unknown_name(piece),
            text == |name: String| name@,
            forall|k: int| 0 <= k < names.len() ==> (#[trigger] names@[k])@ == name_in(pieces[k]),
            unknown@.map_values(text) == pieces.take(i as int).filter_map(meaning),
        decreases names.len() - i,
    {
        assert(pieces.take(i + 1).drop_last() =~= pieces.take(i as int));
        assert(names@[i as int]@ == name_in(pieces[i as int]));
        if sink_named(names[i].as_str()).is_none() {
            let ghost before = unknown@;
            unknown.push(names[i].clone());
            assert(unknown@.map_values(text) =~= before.map_values(text) + seq![
                name_in(pieces[i as int]),
            ]);
        }
        i = i + 1;
    }
    assert(pieces.take(pieces.len() as int) =~= pieces);
    unknown
}

/// The sinks that get a worker: those of the setting where metrics are on, else none.
pub fn sinks_to_serve(enabled: bool, setting: Option<&str>) -> (sinks: Vec<SinkKind>)
    ensures
        sinks@ == (if !enabled {
            Seq::<SinkKind>::empty()
        } else {
            match setting {
                Some(value) => sinks_of(value@),
                None => seq![SinkKind::Stderr],
            }
        }),
        enabled && (setting matches Some(value) && vstd::utf8::is_ascii_chars(value@)) ==> sinks@
            == ascii_sinks_of(setting->0@),
{
    if enabled {
        parse_sinks(setting)
    } else {
        Vec::new()
    }
}

/// The file that the setting `DYN_REQUEST_METRICS_FILE` names, or the default one.
pub fn sink_path(setting: Option<String>) -> (path: String)
    ensures
        path@ == (match setting {
            Some(value) => value@,
            None => "/tmp/dynamo_request_metrics.jsonl"@,
        }),
{
    match setting {
        Some(path) => path,
        None => "/tmp/dynamo_request_metrics.jsonl".to_owned(),
    }
}

/// What is appended to the file for a record in JSON: one line.
pub fn json_line(json: String) -> (line: String)
    ensures
        line@ == json@ + "\n"@,
{
    json.concat("\n")
}

/// What a worker does next.
#[derive(Clone, Debug)]
pub enum WorkerAction {
    /// Hands the record to the sink, and waits for more.
    Emit(RequestMetricsRecord),
    /// Reports how many records were dropped, and waits for more.
    ReportDropped(u64),
    /// Ends.
    Stop,
}

/// What a worker does on an event.
pub open spec fn action_on(event: BusEvent) -> WorkerAction {
    match event {
        BusEvent::Record(record) => WorkerAction::Emit(record),
        BusEvent::Lagged(dropped) => WorkerAction::ReportDropped(dropped),
        BusEvent::Closed => WorkerAction::Stop,
    }
}

/// What a worker does with what it receives.
pub fn worker_action(event: BusEvent) -> (action: WorkerAction)
    ensures
        action == action_on(event),
        event matches BusEvent::Record(record) ==> action == WorkerAction::Emit(record),
        event matches BusEvent::Lagged(dropped) ==> action == WorkerAction::ReportDropped(dropped),
        event is Closed ==> action is Stop,
{
    match event {
        BusEvent::Record(record) => WorkerAction::Emit(record),
        BusEvent::Lagged(dropped) => WorkerAction::ReportDropped(dropped),
        BusEvent::Closed => WorkerAction::Stop,
    }
}

/// Whether `assigned` gives each of `sinks`, in order, a receiver of its own that receives what is
/// published on `bus` from now on.
pub open spec fn are_subscribed<S>(
    bus: MetricsBus,
    sinks: Seq<S>,
    assigned: Seq<(S, Receiver<RequestMetricsRecord>)>,
) -> bool {
    &&& assigned.len() == sinks.len()
    &&& forall|i: int|
        0 <= i < sinks.len() ==> (#[trigger] assigned[i]).0 == sinks[i] && bus.is_heard_by(
            assigned[i].1,
        ) && super::bus::receiver_place(assigned[i].1) == bus.sent().len()
}

/// Subscribes every sink to the bus, one receiver each, if all sinks could be opened; otherwise none.
pub fn subscribe_sinks<S, E>(bus: &MetricsBus, opened: Result<Vec<S>, E>) -> (subscribed: Result<
    Vec<(S, Receiver<RequestMetricsRecord>)>,
    E,
>)
    requires
        (opened matches Ok(sinks) && sinks.len() > 0) ==> bus.is_started(),
    ensures
        opened matches Err(error) ==> subscribed == Err::<
            Vec<(S, Receiver<RequestMetricsRecord>)>,
            E,
        >(error),
        opened matches Ok(sinks) ==> (subscribed matches Ok(assigned) && are_subscribed(
            *bus,
            sinks@,
            assigned@,
        )),
        opened matches Ok(sinks) ==> (subscribed matches Ok(assigned) && assigned.len() == sinks.len()
            && forall|i: int|
            0 <= i < sinks.len() ==> (#[trigger] assigned@[i]).0 == sinks@[i] && bus.channel() == Some(
                super::bus::receiver_channel(assigned@[i].1),
            ) && super::bus::receiver_place(assigned@[i].1) == bus.sent().len()),
{
    match opened {
        Err(error) => Err(error),
        Ok(sinks) => {
            let mut assigned: Vec<(S, Receiver<RequestMetricsRecord>)> = Vec::new();
            let ghost all = sinks@;
            for sink in it: sinks
                invariant
                    it.seq() == all,
                    all.len() > 0 ==> bus.is_started(),
                    are_subscribed(*bus, all.take(it.index() as int), assigned@),
            {
                assigned.push((sink, bus.subscribe()));
                assert(all.take(it.index() + 1).drop_last() =~= all.take(it.index() as int));
            }
            assert(all.take(all.len() as int) =~= all);
            Ok(assigned)
        },
    }
}

/// What a worker does, event by event. Where nothing is ready it does nothing.
pub open spec fn actions_on(events: Seq<Option<BusEvent>>) -> Seq<WorkerAction> {
    events.filter_map(
        |event: Option<BusEvent>|
            match event {
                Some(event) => Some(action_on(event)),
                None => None,
            },
    )
}

/// The records that actions hand to the sink.
pub open spec fn emitted_records(actions: Seq<WorkerAction>) -> Seq<RequestMetricsRecord> {
    actions.filter_map(
        |action: WorkerAction|
            match action {
                WorkerAction::Emit(record) => Some(record),
                _ => None,
            },
    )
}

/// How many records actions report as dropped.
pub open spec fn reported_drops(actions: Seq<WorkerAction>) -> nat
    decreases actions.len(),
{
    if actions.len() == 0 {
        0
    } else {
        reported_drops(actions.drop_last()) + match actions.last() {
            WorkerAction::ReportDropped(dropped) => dropped as nat,
            _ => 0,
        }
    }
}

/// A worker emits the records that it receives, and reports the losses that it is told of.
pub proof fn law_worker_acts_on_what_it_receives(events: Seq<Option<BusEvent>>)
    ensures
        emitted_records(actions_on(events)) == super::bus::received_records(events),
        reported_drops(actions_on(events)) == super::bus::lost_records(events),
        actions_on(events).contains(WorkerAction::Stop) <==> events.contains(
            Some(BusEvent::Closed),
        ),
    decreases events.len(),
{
    let actions = actions_on(events);
    if events.len() > 0 {
        let rest = actions_on(events.drop_last());
        law_worker_acts_on_what_it_receives(events.drop_last());
        match events.last() {
            Some(event) => {
                assert(actions =~= rest.push(action_on(event)));
                assert(actions.drop_last() =~= rest);
                assert(actions.last() == action_on(event));
            },
            None => {
                assert(actions =~= rest);
            },
        }
        assert(events =~= events.drop_last().push(events.last()));
        if events.drop_last().contains(Some(BusEvent::Closed)) {
            let i = choose|i: int|
                0 <= i < events.drop_last().len() && events.drop_last()[i] == Some(
                    BusEvent::Closed,
                );
            let k = choose|k: int| 0 <= k < rest.len() && rest[k] == WorkerAction::Stop;
            assert(events[i] == Some(BusEvent::Closed));
            assert(actions[k] == WorkerAction::Stop);
        }
        if events.last() == Some(BusEvent::Closed) {
            assert(events[events.len() - 1] == Some(BusEvent::Closed));
            assert(actions[actions.len() - 1] == WorkerAction::Stop);
        }
        if actions.contains(WorkerAction::Stop) {
            let k = choose|k: int| 0 <= k < actions.len() && actions[k] == WorkerAction::Stop;
            if k < rest.len() {
                assert(rest[k] == WorkerAction::Stop);
            }
        }
    }
}

/// A worker whose receiver never lags behind by more than the capacity emits exactly the records that
/// were sent after it subscribed, each once and in order, up to the place where its receiver is. It
/// reports no losses and does not stop.
pub proof fn law_worker_emits_what_is_sent(
    sent: Seq<Seq<RequestMetricsRecord>>,
    places: Seq<nat>,
    capacity: nat,
    events: Seq<Option<BusEvent>>,
)
    requires
        super::bus::is_reception(sent, places, capacity, events),
        events.len() > 0,
        forall|i: int| 0 <= i < events.len() ==> (#[trigger] sent[i]).len() - places[i] <= capacity,
    ensures
        emitted_records(actions_on(events)) == sent.last().subrange(
            places[0] as int,
            places.last() as int,
        ),
        reported_drops(actions_on(events)) == 0,
        !actions_on(events).contains(WorkerAction::Stop),
{
    law_worker_acts_on_what_it_receives(events);
    super::bus::law_receiver_yields_what_is_sent(sent, places, capacity, events);
    law_worker_emits_or_reports(sent, places, capacity, events);
}

/// Every record that is sent after a worker subscribed is emitted or counted in a report, up to the
/// place where its receiver is. What is emitted was sent after the worker subscribed; nothing is
/// emitted twice, and all in the order in which it was sent. The worker does not stop.
pub proof fn law_worker_emits_or_reports(
    sent: Seq<Seq<RequestMetricsRecord>>,
    places: Seq<nat>,
    capacity: nat,
    events: Seq<Option<BusEvent>>,
)
    requires
        super::bus::is_reception(sent, places, capacity, events),
    ensures
        places.last() == places[0] + emitted_records(actions_on(events)).len() + reported_drops(
            actions_on(events),
        ),
        super::bus::received_places(places, events).len() == emitted_records(
            actions_on(events),
        ).len(),
        forall|k: int|
            0 <= k < emitted_records(actions_on(events)).len() ==> {
                let place = #[trigger] super::bus::received_places(places, events)[k];
                places[0] <= place < places.last() && emitted_records(actions_on(events))[k]
                    == sent.last()[place as int]
            },
        forall|k: int, l: int|
            0 <= k < l < emitted_records(actions_on(events)).len()
                ==> #[trigger] super::bus::received_places(places, events)[k]
                < #[trigger] super::bus::received_places(places, events)[l],
        !actions_on(events).contains(WorkerAction::Stop),
{
    super::bus::law_every_record_is_received_or_counted(sent, places, capacity, events);
    law_worker_acts_on_what_it_receives(events);
    if events.contains(Some(BusEvent::Closed)) {
        let i = choose|i: int| 0 <= i < events.len() && events[i] == Some(BusEvent::Closed);
        assert(super::bus::is_next_event(sent[i], places[i], capacity, events[i], places[i + 1]));
    }
}

/// Once the sinks of a bus are subscribed, each of them is handed every record that is sent from then
/// on, once and in order: where the receiver of a sink never lags behind by more than the capacity and
/// has caught up, what its worker emitted is what was sent since.
pub proof fn law_every_sink_is_handed_every_record<S>(
    bus: MetricsBus,
    sinks: Seq<S>,
    assigned: Seq<(S, Receiver<RequestMetricsRecord>)>,
    which: int,
    sent: Seq<Seq<RequestMetricsRecord>>,
    places: Seq<nat>,
    events: Seq<Option<BusEvent>>,
)
    requires
        are_subscribed(bus, sinks, assigned),
        0 <= which < sinks.len(),
        super::bus::is_reception(sent, places, bus.capacity(), events),
        events.len() > 0,
        bus.sent().is_prefix_of(sent[0]),
        places[0] == super::bus::receiver_place(assigned[which].1),
        forall|i: int|
            0 <= i < events.len() ==> (#[trigger] sent[i]).len() - places[i] <= bus.capacity(),
        events.last() is None,
    ensures
        assigned[which].0 == sinks[which],
        sent.last() == bus.sent() + emitted_records(actions_on(events)),
{
    assert(assigned[which].0 == sinks[which]);
    law_worker_emits_what_is_sent(sent, places, bus.capacity(), events);
    super::bus::law_receiver_yields_what_is_sent(sent, places, bus.capacity(), events);
    let n = events.len() - 1;
    assert(super::bus::is_next_event(
        sent[n],
        places[n],
        bus.capacity(),
        events[n],
        places[n + 1],
    ));
    assert(sent[0].is_prefix_of(sent[n]));
    assert(sent.last() =~= bus.sent() + emitted_records(actions_on(events)));
}

proof fn lemma_pieces_of_joined(a: Seq<char>, b: Seq<char>)
    ensures
        crate::text::pieces(a.push(',') + b, ',') == crate::text::pieces(a, ',')
            + crate::text::pieces(b, ','),
        crate::text::pieces(b, ',').len() > 0,
    decreases b.len(),
{
    let joined = a.push(',') + b;
    if b.len() == 0 {
        assert(joined =~= a.push(','));
        assert(joined.drop_last() =~= a);
    } else {
        lemma_pieces_of_joined(a, b.drop_last());
        assert(joined.drop_last() =~= a.push(',') + b.drop_last());
        assert(joined.last() == b.last());
    }
    assert(crate::text::pieces(joined, ',') =~= crate::text::pieces(a, ',') + crate::text::pieces(
        b,
        ',',
    ));
}

proof fn lemma_filter_map_of_joined<A, B>(a: Seq<A>, b: Seq<A>, f: spec_fn(A) -> Option<B>)
    ensures
        (a + b).filter_map(f) == a.filter_map(f) + b.filter_map(f),
    decreases b.len(),
{
    if b.len() == 0 {
        assert(a + b =~= a);
    } else {
        lemma_filter_map_of_joined(a, b.drop_last(), f);
        assert((a + b).drop_last() =~= a + b.drop_last());
    }
    assert((a + b).filter_map(f) =~= a.filter_map(f) + b.filter_map(f));
}

/// Joining two lists of sinks with a comma gives the sinks of the one and then those of the other.
pub proof fn law_comma_joins_sinks(a: Seq<char>, b: Seq<char>)
    ensures
        sinks_of(a.push(',') + b) == sinks_of(a) + sinks_of(b),
        ascii_sinks_of(a.push(',') + b) == ascii_sinks_of(a) + ascii_sinks_of(b),
{
    lemma_pieces_of_joined(a, b);
    lemma_filter_map_of_joined(
        crate::text::pieces(a, ','),
        crate::text::pieces(b, ','),
        |piece: Seq<char>| named_sink(name_in(piece)),
    );
    lemma_filter_map_of_joined(
        crate::text::pieces(a, ','),
        crate::text::pieces(b, ','),
        |piece: Seq<char>| named_sink(crate::text::normalized(piece)),
    );
}

proof fn lemma_sinks_and_unknown_names(pieces: Seq<Seq<char>>)
    ensures
        pieces.filter_map(|piece: Seq<char>| named_sink(name_in(piece))).len() + pieces.filter_map(
            |piece: Seq<char>| unknown_name(piece),
        ).len() == pieces.len(),
    decreases pieces.len(),
{
    if pieces.len() > 0 {
        lemma_sinks_and_unknown_names(pieces.drop_last());
    }
}

/// Every name in a list either stands for a sink or is reported as unknown.
pub proof fn law_every_name_is_served_or_reported(setting: Seq<char>)
    ensures
        sinks_of(setting).len() + unknown_names_of(setting).len() == crate::text::pieces(
            setting,
            ',',
        ).len(),
{
    lemma_sinks_and_unknown_names(crate::text::pieces(setting, ','));
}

/// The name of a sink, as a setting, stands for that sink alone.
pub proof fn law_sink_names_are_read_back(sink: SinkKind)
    ensures
        ascii_sinks_of(sink.spelling()) == seq![sink],
        vstd::utf8::is_ascii_chars(sink.spelling()),
{
    reveal_strlit("stderr");
    reveal_strlit("file");
    reveal_strlit("");
    let name = sink.spelling();
    crate::text::lemma_normal_text(name);
    crate::text::lemma_single_piece(name, ',');
    let f = |piece: Seq<char>| named_sink(crate::text::normalized(piece));
    assert(crate::text::pieces(name, ',') == seq![name]);
    assert(sink == SinkKind::File ==> name[0] == 'f');
    assert(sink == SinkKind::Stderr ==> name[0] == 's');
    assert(named_sink(name) == Some(sink));
    Seq::<Seq<char>>::lemma_filter_map_singleton(name, f);
}

} // verus!
