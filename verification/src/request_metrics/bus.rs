//! The bus that carries records from the requests to the sinks.

use super::record::RequestMetricsRecord;
use tokio::sync::broadcast;
use tokio::sync::broadcast::error::TryRecvError;
use vstd::prelude::*;

verus! {

/// Declares `tokio::sync::broadcast::Sender`.
#[verifier::external_type_specification]
#[verifier::external_body]
#[verifier::reject_recursive_types(T)]
pub struct ExSender<T>(broadcast::Sender<T>);

/// Declares `tokio::sync::broadcast::Receiver`.
#[verifier::external_type_specification]
#[verifier::external_body]
#[verifier::reject_recursive_types(T)]
pub struct ExReceiver<T>(broadcast::Receiver<T>);

/// How many records the channel of a sender keeps for receivers that lag behind.
pub uninterp spec fn channel_capacity(tx: broadcast::Sender<RequestMetricsRecord>) -> nat;

/// Which channel a sender sends on: one number for all senders that `Sender::same_channel` holds to be
/// of one channel.
pub uninterp spec fn sender_channel(tx: broadcast::Sender<RequestMetricsRecord>) -> int;

/// The records that the only sender of a channel has sent on it, in order. A bus never lets go of its
/// sender, so no other sender of the channel comes into being.
pub uninterp spec fn sent_records(tx: broadcast::Sender<RequestMetricsRecord>) -> Seq<
    RequestMetricsRecord,
>;

/// The records that came back to a sender because nobody was listening, in order.
pub uninterp spec fn returned_records(tx: broadcast::Sender<RequestMetricsRecord>) -> Seq<
    RequestMetricsRecord,
>;

/// Which channel a receiver receives from, numbered as for its senders.
pub uninterp spec fn receiver_channel(rx: broadcast::Receiver<RequestMetricsRecord>) -> int;

/// How many of the records that are sent on its channel a receiver has behind it: they were sent before
/// it subscribed, or it has received them, or it was told that they were dropped.
pub uninterp spec fn receiver_place(rx: broadcast::Receiver<RequestMetricsRecord>) -> nat;

/// The smallest power of two that is at least `wanted`.
pub open spec fn is_rounded_up(wanted: nat, capacity: nat) -> bool {
    &&& wanted <= capacity < 2 * wanted
    &&& exists|power: nat| capacity == #[trigger] vstd::arithmetic::power2::pow2(power)
}

/// The capacities that a channel can be made with. The channel allots all its slots at once, fewer than
/// twice as many as asked for, and a slot takes up less than 512 bytes: with these capacities the slots
/// take up at most `isize::MAX` bytes, which is the most that can be allotted at once.
pub open spec fn is_channel_capacity(capacity: usize) -> bool {
    0 < capacity <= usize::MAX / 2048
}

/// What is received from the bus.
#[derive(Clone, Debug)]
pub enum BusEvent {
    /// A record.
    Record(RequestMetricsRecord),
    /// So many records were dropped before the receiver got to them.
    Lagged(u64),
    /// The bus is gone.
    Closed,
}

/// Whether a receiver with `place` records behind it, on a channel on which `sent` was sent, receives
/// `event` next and then has `next` records behind it. It receives the first record that it has not
/// behind it, if the channel still keeps that one. Otherwise it goes on to the oldest one that is kept,
/// and is told how many it lost. Where no record is left it receives nothing.
pub open spec fn is_next_event(
    sent: Seq<RequestMetricsRecord>,
    place: nat,
    capacity: nat,
    event: Option<BusEvent>,
    next: nat,
) -> bool {
    if place >= sent.len() {
        event is None && next == place
    } else if sent.len() - place <= capacity {
        event == Some(BusEvent::Record(sent[place as int])) && next == place + 1
    } else {
        &&& event matches Some(BusEvent::Lagged(dropped)) && dropped == next - place
        &&& next == sent.len() - capacity
    }
}

/// `tokio::sync::broadcast::channel`, without the receiver that it also hands out.
///
/// Trusted: the channel keeps as many records as asked for, rounded up to a power of two, and nothing
/// was sent on it yet.
#[verifier::external_body]
fn open_channel(capacity: usize) -> (tx: broadcast::Sender<RequestMetricsRecord>)
    requires
        is_channel_capacity(capacity),
    ensures
        is_rounded_up(capacity as nat, channel_capacity(tx)),
        sent_records(tx) == Seq::<RequestMetricsRecord>::empty(),
        returned_records(tx) == Seq::<RequestMetricsRecord>::empty(),
{
    broadcast::channel::<RequestMetricsRecord>(capacity).0
}

/// `tokio::sync::broadcast::Sender::subscribe`.
///
/// Trusted: the receiver receives from the channel that the sender sends on, and has behind it exactly
/// what was sent so far. (The call panics past `usize::MAX / 4` receivers, which is more than fit into
/// memory.)
#[verifier::external_body]
fn open_receiver(tx: &broadcast::Sender<RequestMetricsRecord>) -> (rx: broadcast::Receiver<
    RequestMetricsRecord,
>)
    ensures
        receiver_channel(rx) == sender_channel(*tx),
        receiver_place(rx) == sent_records(*tx).len(),
{
    tx.subscribe()
}

/// `tokio::sync::broadcast::Sender::send`.
///
/// Trusted: where no receiver is there the record comes back; otherwise it is sent on the sender's
/// channel, after all that was sent before, and the receivers, of which there is at least one, are
/// counted. A receiver of the channel that is borrowed as `listener` is there throughout the call;
/// whether there is any other depends on the rest of the process. The call needs no exclusive access to
/// the sender; it is asked for so that what was sent changes in plain sight.
#[allow(unused_variables)]
#[verifier::external_body]
fn send(
    tx: &mut broadcast::Sender<RequestMetricsRecord>,
    listener: Option<&broadcast::Receiver<RequestMetricsRecord>>,
    record: RequestMetricsRecord,
) -> (sent: Result<usize, RequestMetricsRecord>)
    ensures
        sender_channel(*final(tx)) == sender_channel(*old(tx)),
        channel_capacity(*final(tx)) == channel_capacity(*old(tx)),
        sent matches Ok(receivers) ==> receivers > 0 && sent_records(*final(tx)) == sent_records(
            *old(tx),
        ).push(record) && returned_records(*final(tx)) == returned_records(*old(tx)),
        sent matches Err(returned) ==> returned == record && sent_records(*final(tx)) == sent_records(
            *old(tx),
        ) && returned_records(*final(tx)) == returned_records(*old(tx)).push(record),
        (listener matches Some(rx) && receiver_channel(*rx) == sender_channel(*old(tx)))
            ==> sent is Ok,
{
    match tx.send(record) {
        Ok(receivers) => Ok(receivers),
        Err(error) => Err(error.0),
    }
}

/// `tokio::sync::broadcast::Receiver::try_recv`.
///
/// Trusted: the receiver of a channel whose sender still is there receives what is next for it among
/// the records that were sent, as a clone. While the sender is borrowed nothing can be sent.
#[allow(unused_variables)]
#[verifier::external_body]
fn take_next(
    tx: &broadcast::Sender<RequestMetricsRecord>,
    rx: &mut broadcast::Receiver<RequestMetricsRecord>,
) -> (event: Option<BusEvent>)
    requires
        receiver_channel(*old(rx)) == sender_channel(*tx),
        receiver_place(*old(rx)) <= sent_records(*tx).len(),
    ensures
        receiver_channel(*final(rx)) == receiver_channel(*old(rx)),
        is_next_event(
            sent_records(*tx),
            receiver_place(*old(rx)),
            channel_capacity(*tx),
            event,
            receiver_place(*final(rx)),
        ),
{
    match rx.try_recv() {
        Ok(record) => Some(BusEvent::Record(record)),
        Err(TryRecvError::Lagged(dropped)) => Some(BusEvent::Lagged(dropped)),
        Err(TryRecvError::Closed) => Some(BusEvent::Closed),
        Err(TryRecvError::Empty) => None,
    }
}

/// What became of a record that was to be published.
#[derive(Clone, Debug)]
pub enum Publication {
    /// Metrics are off, and the record was dropped.
    Disabled,
    /// The bus was never started, and the record was dropped.
    NotStarted,
    /// Nobody listens; this is the record that was dropped.
    Unheard(RequestMetricsRecord),
    /// So many receivers were sent the record.
    Sent(usize),
}

/// The bus: a channel, once it is started.
#[derive(Debug)]
pub struct MetricsBus {
    tx: Option<broadcast::Sender<RequestMetricsRecord>>,
}

impl MetricsBus {
    /// The channel of a bus that is started.
    pub closed spec fn channel(self) -> Option<int> {
        match self.tx {
            Some(tx) => Some(sender_channel(tx)),
            None => None,
        }
    }

    pub open spec fn is_started(self) -> bool {
        self.channel() is Some
    }

    /// How many records are kept for receivers that lag behind.
    pub closed spec fn capacity(self) -> nat {
        match self.tx {
            Some(tx) => channel_capacity(tx),
            None => 0,
        }
    }

    /// The records that were sent to receivers, in order.
    pub closed spec fn sent(self) -> Seq<RequestMetricsRecord> {
        match self.tx {
            Some(tx) => sent_records(tx),
            None => Seq::empty(),
        }
    }

    /// The records that were dropped because nobody listened, in order.
    pub closed spec fn unheard(self) -> Seq<RequestMetricsRecord> {
        match self.tx {
            Some(tx) => returned_records(tx),
            None => Seq::empty(),
        }
    }

    /// Whether `rx` receives what is sent on this bus.
    pub open spec fn is_heard_by(self, rx: broadcast::Receiver<RequestMetricsRecord>) -> bool {
        &&& self.channel() == Some(receiver_channel(rx))
        &&& receiver_place(rx) <= self.sent().len()
    }

    /// Whether the bus was just started with the given capacity.
    pub open spec fn is_fresh(self, capacity: usize) -> bool {
        &&& self.is_started()
        &&& is_rounded_up(capacity as nat, self.capacity())
        &&& self.sent() == Seq::<RequestMetricsRecord>::empty()
        &&& self.unheard() == Seq::<RequestMetricsRecord>::empty()
    }

    /// A bus that is not started.
    pub fn new() -> (bus: Self)
        ensures
            !bus.is_started(),
    {
        MetricsBus { tx: None }
    }

    /// Whether the bus is started.
    pub fn has_started(&self) -> (started: bool)
        ensures
            started == self.is_started(),
    {
        self.tx.is_some()
    }

    /// Starts the bus. A bus that is started already stays as it is.
    pub fn init(&mut self, capacity: usize)
        requires
            is_channel_capacity(capacity),
        ensures
            old(self).is_started() ==> *final(self) == *old(self),
            !old(self).is_started() ==> final(self).is_fresh(capacity),
            final(self).is_started(),
            !old(self).is_started() ==> capacity <= final(self).capacity() < 2 * capacity
                && final(self).sent().len() == 0,
    {
        let tx = open_channel(capacity);
        if self.tx.is_none() {
            self.tx = Some(tx);
        }
    }

    /// A receiver of what is published from now on.
    pub fn subscribe(&self) -> (rx: broadcast::Receiver<RequestMetricsRecord>)
        requires
            self.is_started(),
        ensures
            self.is_heard_by(rx),
            receiver_place(rx) == self.sent().len(),
            self.channel() == Some(receiver_channel(rx)),
    {
        match &self.tx {
            Some(tx) => open_receiver(tx),
            None => vstd::pervasive::unreached(),
        }
    }

    /// What a receiver receives next, without waiting for it; none where everything that was published
    /// since it subscribed is behind it.
    pub fn receive(&self, rx: &mut broadcast::Receiver<RequestMetricsRecord>) -> (event: Option<
        BusEvent,
    >)
        requires
            self.is_heard_by(*old(rx)),
        ensures
            self.is_heard_by(*final(rx)),
            is_next_event(
                self.sent(),
                receiver_place(*old(rx)),
                self.capacity(),
                event,
                receiver_place(*final(rx)),
            ),
    {
        match &self.tx {
            Some(tx) => take_next(tx, rx),
            None => vstd::pervasive::unreached(),
        }
    }

    /// Publishes a record to everyone who subscribed, if metrics are on and the bus is started. A
    /// caller that holds a receiver of the bus may show it as `listener`: then somebody listens.
    pub fn publish(
        &mut self,
        enabled: bool,
        listener: Option<&broadcast::Receiver<RequestMetricsRecord>>,
        record: RequestMetricsRecord,
    ) -> (publication: Publication)
        ensures
            is_published(*old(self), *final(self), enabled, listener, record, publication),
            !enabled ==> publication is Disabled && *final(self) == *old(self),
            enabled && !old(self).is_started()
                ==> publication is NotStarted && *final(self) == *old(self),
            enabled && old(self).is_started() ==> publication is Sent || publication is Unheard,
            publication is Sent ==> final(self).sent() == old(self).sent().push(record)
                && final(self).unheard() == old(self).unheard(),
            publication is Unheard ==> final(self).sent() == old(self).sent() && final(self).unheard()
                == old(self).unheard().push(record),
            final(self).channel() == old(self).channel(),
            final(self).capacity() == old(self).capacity(),
            enabled && (listener matches Some(rx) && old(self).channel() == Some(
                receiver_channel(*rx),
            )) ==> publication is Sent,
    {
        if !enabled {
            return Publication::Disabled;
        }
        match &mut self.tx {
            Some(tx) => match send(tx, listener, record) {
                Ok(receivers) => Publication::Sent(receivers),
                Err(returned) => Publication::Unheard(returned),
            },
            None => Publication::NotStarted,
        }
    }
}

/// Whether publishing `record` on `before` leaves `after` and reports `publication`. Where metrics are
/// off, or the bus is not started, nothing changes. Otherwise the record is handed to the channel: it
/// is sent after all that was sent before, or it comes back because nobody listens. It does not come
/// back where `listener` is a receiver of the bus.
pub open spec fn is_published(
    before: MetricsBus,
    after: MetricsBus,
    enabled: bool,
    listener: Option<&broadcast::Receiver<RequestMetricsRecord>>,
    record: RequestMetricsRecord,
    publication: Publication,
) -> bool {
    &&& publication is Disabled <==> !enabled
    &&& publication is NotStarted <==> enabled && !before.is_started()
    &&& !enabled || !before.is_started() ==> after == before
    &&& after.channel() == before.channel()
    &&& after.capacity() == before.capacity()
    &&& publication matches Publication::Unheard(returned) ==> {
        &&& returned == record
        &&& after.sent() == before.sent()
        &&& after.unheard() == before.unheard().push(record)
    }
    &&& publication matches Publication::Sent(receivers) ==> {
        &&& receivers > 0
        &&& after.sent() == before.sent().push(record)
        &&& after.unheard() == before.unheard()
    }
    &&& enabled && (listener matches Some(rx) && before.channel() == Some(receiver_channel(*rx)))
        ==> publication is Sent
}

/// What publishing does. Nothing, where metrics are off or the bus is not started; otherwise the record
/// is sent after all that was sent before, or comes back, and just one of the two. It is sent where the
/// caller holds a receiver of the bus. The bus keeps its channel and its capacity.
pub proof fn law_what_publishing_does(
    before: MetricsBus,
    after: MetricsBus,
    enabled: bool,
    listener: Option<&broadcast::Receiver<RequestMetricsRecord>>,
    record: RequestMetricsRecord,
    publication: Publication,
)
    requires
        is_published(before, after, enabled, listener, record, publication),
    ensures
        !enabled ==> publication is Disabled && after == before,
        enabled && before.channel() is None ==> publication is NotStarted && after == before,
        enabled && before.channel() is Some ==> publication is Sent || publication is Unheard,
        publication matches Publication::Sent(receivers) ==> receivers > 0 && after.sent()
            == before.sent().push(record) && after.unheard() == before.unheard(),
        publication matches Publication::Unheard(returned) ==> returned == record && after.sent()
            == before.sent() && after.unheard() == before.unheard().push(record),
        after.channel() == before.channel(),
        after.capacity() == before.capacity(),
        enabled && (listener matches Some(rx) && before.channel() == Some(receiver_channel(*rx)))
            ==> publication is Sent,
{
}

/// What is received next. Nothing, where everything that was sent is behind the receiver; otherwise,
/// where the channel still keeps it, the first record that is not; otherwise the count of those that
/// are lost, after which the oldest kept record is the next.
pub proof fn law_what_is_received_next(
    sent: Seq<RequestMetricsRecord>,
    place: nat,
    capacity: nat,
    event: Option<BusEvent>,
    next: nat,
)
    requires
        place <= sent.len(),
        is_next_event(sent, place, capacity, event, next),
    ensures
        event is None <==> place == sent.len(),
        place < sent.len() && sent.len() <= place + capacity ==> event == Some(
            BusEvent::Record(sent[place as int]),
        ) && next == place + 1,
        sent.len() > place + capacity ==> (event matches Some(BusEvent::Lagged(dropped)) && place
            + dropped + capacity == sent.len() && next == place + dropped),
        event is None ==> next == place,
        event != Some(BusEvent::Closed),
{
}

/// The records among what a receiver received.
pub open spec fn received_records(events: Seq<Option<BusEvent>>) -> Seq<RequestMetricsRecord> {
    events.filter_map(
        |event: Option<BusEvent>|
            match event {
                Some(BusEvent::Record(record)) => Some(record),
                _ => None,
            },
    )
}

/// Where, among all that was sent, the records stand that a receiver received.
pub open spec fn received_places(places: Seq<nat>, events: Seq<Option<BusEvent>>) -> Seq<nat>
    decreases events.len(),
{
    if events.len() == 0 {
        Seq::empty()
    } else {
        let before = received_places(places, events.drop_last());
        match events.last() {
            Some(BusEvent::Record(record)) => before.push(places[events.len() - 1]),
            _ => before,
        }
    }
}

/// How many records a receiver was told that it lost.
pub open spec fn lost_records(events: Seq<Option<BusEvent>>) -> nat
    decreases events.len(),
{
    if events.len() == 0 {
        0
    } else {
        lost_records(events.drop_last()) + match events.last() {
            Some(BusEvent::Lagged(dropped)) => dropped as nat,
            _ => 0,
        }
    }
}

/// Whether a receiver received `events`, one after the other, where `sent[i]` was sent on its channel
/// by the time of the event `i`, and it had `places[i]` records behind it before.
pub open spec fn is_reception(
    sent: Seq<Seq<RequestMetricsRecord>>,
    places: Seq<nat>,
    capacity: nat,
    events: Seq<Option<BusEvent>>,
) -> bool {
    &&& sent.len() == events.len()
    &&& places.len() == events.len() + 1
    &&& forall|i: int, j: int|
        0 <= i <= j < sent.len() ==> (#[trigger] sent[i]).is_prefix_of(#[trigger] sent[j])
    &&& sent.len() > 0 ==> places[0] <= sent[0].len()
    &&& forall|i: int|
        0 <= i < events.len() ==> #[trigger] is_next_event(
            sent[i],
            places[i],
            capacity,
            events[i],
            places[i + 1],
        )
}

/// Every record that is sent after a receiver subscribed is received by it or counted as lost, whatever
/// is sent between one reception and the next. What it receives was sent after it subscribed; it
/// receives nothing twice, and in the order in which it was sent.
pub proof fn law_every_record_is_received_or_counted(
    sent: Seq<Seq<RequestMetricsRecord>>,
    places: Seq<nat>,
    capacity: nat,
    events: Seq<Option<BusEvent>>,
)
    requires
        is_reception(sent, places, capacity, events),
    ensures
        places.last() == places[0] + received_records(events).len() + lost_records(events),
        events.len() > 0 ==> places.last() <= sent.last().len(),
        received_places(places, events).len() == received_records(events).len(),
        forall|k: int|
            0 <= k < received_records(events).len() ==> {
                let place = #[trigger] received_places(places, events)[k];
                places[0] <= place < places.last() && received_records(events)[k]
                    == sent.last()[place as int]
            },
        forall|k: int, l: int|
            0 <= k < l < received_records(events).len() ==> #[trigger] received_places(
                places,
                events,
            )[k] < #[trigger] received_places(places, events)[l],
    decreases events.len(),
{
    if events.len() > 0 {
        let n = events.len() - 1;
        let (sent1, places1, events1) = (sent.drop_last(), places.drop_last(), events.drop_last());
        lemma_reception_but_the_last(sent, places, capacity, events);
        law_every_record_is_received_or_counted(sent1, places1, capacity, events1);
        lemma_received_places_depend_on_events(places, places1, events1);
        assert(is_next_event(sent[n], places[n], capacity, events[n], places[n + 1]));
        if n > 0 {
            assert(sent[n - 1].is_prefix_of(sent[n]));
            assert(sent1.last() == sent[n - 1]);
        }
        let at = received_places(places, events);
        let at1 = received_places(places1, events1);
        assert(forall|k: int| 0 <= k < at1.len() ==> at[k] == #[trigger] at1[k]);
        assert forall|k: int| 0 <= k < received_records(events).len() implies {
            let place = #[trigger] at[k];
            places[0] <= place < places.last() && received_records(events)[k]
                == sent.last()[place as int]
        } by {
            if k < at1.len() {
                assert(at1[k] == at[k]);
                assert(received_records(events)[k] == received_records(events1)[k]);
                assert(sent[n - 1][at[k] as int] == sent[n][at[k] as int]);
            }
        }
        assert forall|k: int, l: int|
            0 <= k < l < received_records(events).len() implies #[trigger] at[k]
            < #[trigger] at[l] by {
            assert(at1[k] == at[k]);
            if l < at1.len() {
                assert(at1[l] == at[l]);
            }
        }
    }
}

proof fn lemma_received_places_depend_on_events(
    places: Seq<nat>,
    others: Seq<nat>,
    events: Seq<Option<BusEvent>>,
)
    requires
        forall|i: int| 0 <= i < events.len() ==> places[i] == #[trigger] others[i],
    ensures
        received_places(places, events) == received_places(others, events),
    decreases events.len(),
{
    if events.len() > 0 {
        lemma_received_places_depend_on_events(places, others, events.drop_last());
        assert(places[events.len() - 1] == others[events.len() - 1]);
    }
}

/// A receiver that never lags behind by more than the capacity receives exactly the records that were
/// sent after it subscribed, in the order in which they were sent, up to the place where it is.
pub proof fn law_receiver_yields_what_is_sent(
    sent: Seq<Seq<RequestMetricsRecord>>,
    places: Seq<nat>,
    capacity: nat,
    events: Seq<Option<BusEvent>>,
)
    requires
        is_reception(sent, places, capacity, events),
        events.len() > 0,
        forall|i: int| 0 <= i < events.len() ==> (#[trigger] sent[i]).len() - places[i] <= capacity,
    ensures
        places[0] <= places.last() <= sent.last().len(),
        received_records(events) == sent.last().subrange(places[0] as int, places.last() as int),
        events.last() is None <==> places[places.len() - 2] == sent.last().len(),
    decreases events.len(),
{
    let n = events.len() - 1;
    let latest = sent.last();
    assert(is_next_event(sent[n], places[n], capacity, events[n], places[n + 1]));
    if n > 0 {
        lemma_reception_but_the_last(sent, places, capacity, events);
        law_receiver_yields_what_is_sent(
            sent.drop_last(),
            places.drop_last(),
            capacity,
            events.drop_last(),
        );
        assert(sent[n - 1].is_prefix_of(sent[n]));
        assert(received_records(events.drop_last()) =~= latest.subrange(
            places[0] as int,
            places[n] as int,
        ));
    } else {
        assert(received_records(events.drop_last()) =~= Seq::empty());
    }
    assert(received_records(events) =~= latest.subrange(places[0] as int, places.last() as int));
}

proof fn lemma_reception_but_the_last(
    sent: Seq<Seq<RequestMetricsRecord>>,
    places: Seq<nat>,
    capacity: nat,
    events: Seq<Option<BusEvent>>,
)
    requires
        is_reception(sent, places, capacity, events),
        events.len() > 0,
    ensures
        is_reception(sent.drop_last(), places.drop_last(), capacity, events.drop_last()),
{
    let (sent1, places1, events1) = (sent.drop_last(), places.drop_last(), events.drop_last());
    assert forall|i: int| 0 <= i < events1.len() implies #[trigger] is_next_event(
        sent1[i],
        places1[i],
        capacity,
        events1[i],
        places1[i + 1],
    ) by {
        assert(is_next_event(sent[i], places[i], capacity, events[i], places[i + 1]));
    }
}

/// A receiver that lags behind by more than the capacity is told how many records it lost, and then
/// has before it exactly as many as the channel keeps: what it receives next is a record again.
pub proof fn law_lagging_receiver_goes_on_with_the_oldest_kept(
    sent: Seq<RequestMetricsRecord>,
    place: nat,
    capacity: nat,
    event: Option<BusEvent>,
    next: nat,
    event_after: Option<BusEvent>,
    next_after: nat,
)
    requires
        0 < capacity < sent.len() - place,
        is_next_event(sent, place, capacity, event, next),
        is_next_event(sent, next, capacity, event_after, next_after),
    ensures
        event matches Some(BusEvent::Lagged(dropped)) && dropped == sent.len() - place - capacity,
        event_after == Some(BusEvent::Record(sent[sent.len() - capacity])),
{
}

/// A record that is published while a receiver is held is the one record that the receiver has more
/// before it than it had; it is what it receives next if it had received all that was published before.
pub proof fn law_published_record_is_received(
    before: MetricsBus,
    after: MetricsBus,
    record: RequestMetricsRecord,
    publication: Publication,
    rx: broadcast::Receiver<RequestMetricsRecord>,
    event: Option<BusEvent>,
    next: nat,
)
    requires
        before.capacity() > 0,
        before.is_heard_by(rx),
        is_published(before, after, true, Some(&rx), record, publication),
        is_next_event(after.sent(), receiver_place(rx), after.capacity(), event, next),
    ensures
        publication is Sent,
        after.is_heard_by(rx),
        after.sent().skip(receiver_place(rx) as int) == before.sent().skip(
            receiver_place(rx) as int,
        ).push(record),
        receiver_place(rx) == before.sent().len() ==> event == Some(BusEvent::Record(record)) && next
            == after.sent().len(),
{
    assert(after.sent().skip(receiver_place(rx) as int) =~= before.sent().skip(
        receiver_place(rx) as int,
    ).push(record));
}

/// Publishing keeps every receiver, and what was sent before stays at its place. Where the bus is
/// started and metrics are on, the record is either sent or comes back, and never both.
pub proof fn law_publishing_keeps_what_was_sent(
    before: MetricsBus,
    after: MetricsBus,
    enabled: bool,
    listener: Option<&broadcast::Receiver<RequestMetricsRecord>>,
    record: RequestMetricsRecord,
    publication: Publication,
    rx: broadcast::Receiver<RequestMetricsRecord>,
)
    requires
        is_published(before, after, enabled, listener, record, publication),
        before.is_heard_by(rx),
    ensures
        after.is_heard_by(rx),
        before.sent().is_prefix_of(after.sent()),
        before.unheard().is_prefix_of(after.unheard()),
        enabled ==> (after.sent() == before.sent().push(record) <==> after.unheard()
            == before.unheard()),
{
    assert(before.sent().push(record).len() == before.sent().len() + 1);
    assert(before.unheard().push(record).len() == before.unheard().len() + 1);
}

} // verus!
