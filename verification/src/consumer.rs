//! The stream consumer loop.
//!
//! The loop subscribes once and then takes the deliveries of the bus one by
//! one for as long as the subscription lives. Subscribing and polling are
//! done by the program around the library; this file decides what becomes of
//! each delivery: whether the store changes, what is sent in reply, and
//! whether the loop goes on.
//!
//! What happens to a payload that is no event is a matter of policy, set
//! when the consumer is made: the loop either stops at the first such
//! payload or reports it and goes on. An error of the bus itself never stops
//! the loop.

use crate::codec::{
    decode_event, decoded_event, product_event_reply_generator, product_text, DecodeError,
};
use crate::event::{action_named, Action, ProductEvent, ProductEventView};
use crate::store::{
    applied, outcome_of, snapshot_of, AppState, Product, ProductView, UnrecognizedAction,
};
use vstd::prelude::*;
use vstd::string::*;
use vstd::utf8::encode_utf8;

verus! {

/// Why a payload changed nothing in the store.
#[derive(Debug, Clone, Copy, PartialEq, Eq, Structural)]
pub enum ProcessError {
    /// The payload is no event.
    Decode(DecodeError),
    /// The payload is an event whose name the store does not know.
    UnrecognizedAction,
}

/// What applying the event of a payload reports: the transition applied, or why
/// nothing changed.
pub open spec fn processed(decoded: Result<ProductEventView, DecodeError>) -> Result<
    Action,
    ProcessError,
> {
    match decoded {
        Ok(event) => match action_named(event.event) {
            Some(action) => Ok(action),
            None => Err(ProcessError::UnrecognizedAction),
        },
        Err(error) => Err(ProcessError::Decode(error)),
    }
}

/// The store after the event of a payload has been applied: a payload that
/// is no event leaves the store as it is.
pub open spec fn store_after(
    before: Map<Seq<char>, ProductView>,
    decoded: Result<ProductEventView, DecodeError>,
) -> Map<Seq<char>, ProductView> {
    match decoded {
        Ok(event) => applied(before, event),
        Err(_) => before,
    }
}

/// Decodes `payload` and applies the event it carries to the store.
pub fn product_event_processor(data: &mut AppState, payload: &[u8]) -> (res: Result<
    Action,
    ProcessError,
>)
    ensures
        final(data)@ == store_after(old(data)@, decoded_event(payload@)),
        res == processed(decoded_event(payload@)),
{
    match decode_event(payload) {
        Ok(event) => match data.apply(&event) {
            Ok(action) => Ok(action),
            Err(_) => Err(ProcessError::UnrecognizedAction),
        },
        Err(error) => Err(ProcessError::Decode(error)),
    }
}

/// What the loop does with a payload that is no event.
#[derive(Debug, Clone, Copy, PartialEq, Eq, Structural)]
pub enum DecodePolicy {
    /// Stop the loop: a malformed payload breaks the contract with the
    /// producer.
    FailFast,
    /// Report the payload and go on with the next delivery.
    Skip,
}

/// One delivery of the bus.
#[derive(Debug, PartialEq, Eq)]
pub enum Delivery {
    /// The bus reported an error in place of a message.
    TransportError,
    /// A message, with its payload if it has one.
    Message { payload: Option<Vec<u8>> },
}

/// The mathematical content of a [`Delivery`], the payload taken as what it
/// decodes to.
pub ghost enum DeliveryView {
    TransportError,
    Empty,
    Payload(Result<ProductEventView, DecodeError>),
}

impl View for Delivery {
    type V = DeliveryView;

    open spec fn view(&self) -> DeliveryView {
        match self {
            Delivery::TransportError => DeliveryView::TransportError,
            Delivery::Message { payload: None } => DeliveryView::Empty,
            Delivery::Message { payload: Some(bytes) } => DeliveryView::Payload(
                decoded_event(bytes@),
            ),
        }
    }
}

/// What became of one delivery.
#[derive(Debug, PartialEq, Eq)]
pub enum Handled {
    /// The loop had stopped before; the delivery was not looked at.
    Stopped,
    /// The bus reported an error. It is to be logged; the loop goes on.
    TransportError,
    /// The message had no payload and was passed over.
    Skipped,
    /// The payload was an event and was handed to the store. `outcome` is
    /// what the store made of it; `reply` is the payload to publish on the
    /// reply topic, where the consumer sends replies.
    Applied { outcome: Result<Action, UnrecognizedAction>, reply: Option<Vec<u8>> },
    /// The payload was no event. It is to be logged; `stop` says whether the
    /// loop ends here.
    Undecodable { error: DecodeError, stop: bool },
}

/// The mathematical content of a [`Handled`].
pub ghost enum HandledView {
    Stopped,
    TransportError,
    Skipped,
    Applied { outcome: Result<Action, UnrecognizedAction>, reply: Option<Seq<u8>> },
    Undecodable { error: DecodeError, stop: bool },
}

impl View for Handled {
    type V = HandledView;

    open spec fn view(&self) -> HandledView {
        match self {
            Handled::Stopped => HandledView::Stopped,
            Handled::TransportError => HandledView::TransportError,
            Handled::Skipped => HandledView::Skipped,
            Handled::Applied { outcome, reply } => HandledView::Applied {
                outcome: *outcome,
                reply: match reply {
                    Some(bytes) => Some(bytes@),
                    None => None,
                },
            },
            Handled::Undecodable { error, stop } => HandledView::Undecodable {
                error: *error,
                stop: *stop,
            },
        }
    }
}

/// The consumer loop: its settings, and whether it has stopped.
#[derive(Debug, Clone, Copy, PartialEq, Eq, Structural)]
pub struct Consumer {
    /// What to do with a payload that is no event.
    pub policy: DecodePolicy,
    /// Whether each event is answered on the reply topic with the entity it
    /// carries.
    pub replies: bool,
    /// Whether the loop has stopped. A stopped loop does not start again.
    pub stopped: bool,
}

/// The payload that answers `event`: the envelope of the entity it carries.
pub open spec fn reply_to(event: ProductEventView) -> Seq<u8> {
    encode_utf8(product_text(snapshot_of(event)))
}

/// What the consumer `consumer` makes of `delivery` when the store is
/// `store`: the consumer and the store afterwards, and what became of the
/// delivery.
pub open spec fn handled(
    consumer: Consumer,
    store: Map<Seq<char>, ProductView>,
    delivery: DeliveryView,
) -> (Consumer, Map<Seq<char>, ProductView>, HandledView) {
    if consumer.stopped {
        (consumer, store, HandledView::Stopped)
    } else {
        match delivery {
            DeliveryView::TransportError => (consumer, store, HandledView::TransportError),
            DeliveryView::Empty => (consumer, store, HandledView::Skipped),
            DeliveryView::Payload(Ok(event)) => (
                consumer,
                applied(store, event),
                HandledView::Applied {
                    outcome: outcome_of(event),
                    reply: if consumer.replies {
                        Some(reply_to(event))
                    } else {
                        None
                    },
                },
            ),
            DeliveryView::Payload(Err(error)) => {
                let stop = consumer.policy == DecodePolicy::FailFast;
                (
                    Consumer { stopped: stop, ..consumer },
                    store,
                    HandledView::Undecodable { error, stop },
                )
            },
        }
    }
}

impl Consumer {
    /// A consumer that has not stopped.
    pub fn new(policy: DecodePolicy, replies: bool) -> (res: Consumer)
        ensures
            res == (Consumer { policy, replies, stopped: false }),
    {
        Consumer { policy, replies, stopped: false }
    }

    /// Handles a message with a payload, given what the payload decoded to.
    pub fn on_decoded(
        &mut self,
        store: &mut AppState,
        decoded: Result<ProductEvent, DecodeError>,
    ) -> (res: Handled)
        ensures
            (*final(self), final(store)@, res@) == handled(
                *old(self),
                old(store)@,
                DeliveryView::Payload(
                    match decoded {
                        Ok(event) => Ok(event@),
                        Err(error) => Err(error),
                    },
                ),
            ),
    {
        if self.stopped {
            return Handled::Stopped;
        }
        match decoded {
            Ok(event) => {
                let outcome = store.apply(&event);
                let reply = if self.replies {
                    let product = Product {
                        id: event.id,
                        kind: event.kind,
                        name: event.name,
                        version: event.version,
                    };
                    Some(product_event_reply_generator(&product))
                } else {
                    None
                };
                Handled::Applied { outcome, reply }
            },
            Err(error) => {
                let stop = match self.policy {
                    DecodePolicy::FailFast => true,
                    DecodePolicy::Skip => false,
                };
                self.stopped = stop;
                Handled::Undecodable { error, stop }
            },
        }
    }

    /// Handles one delivery of the bus.
    ///
    /// An error of the bus and a message without a payload change nothing.
    /// A payload is decoded; an event is applied to the store and, where the
    /// consumer sends replies, answered with the entity it carries, whether
    /// or not the store knew the event's name. A payload that is no event
    /// changes nothing in the store and stops the loop if the policy says
    /// so. Once stopped, the consumer passes every delivery by.
    pub fn handle(&mut self, store: &mut AppState, delivery: &Delivery) -> (res: Handled)
        ensures
            (*final(self), final(store)@, res@) == handled(*old(self), old(store)@, delivery@),
    {
        if self.stopped {
            return Handled::Stopped;
        }
        match delivery {
            Delivery::TransportError => Handled::TransportError,
            Delivery::Message { payload: None } => Handled::Skipped,
            Delivery::Message { payload: Some(bytes) } => {
                let decoded = decode_event(bytes.as_slice());
                self.on_decoded(store, decoded)
            },
        }
    }
}

/// The store changes only when an event is applied: whatever the delivery,
/// the store afterwards is the store before, or the store before with the
/// delivered event applied.
pub proof fn lemma_store_changes_only_by_events(
    consumer: Consumer,
    store: Map<Seq<char>, ProductView>,
    delivery: DeliveryView,
)
    ensures
        handled(consumer, store, delivery).1 == (match delivery {
            DeliveryView::Payload(Ok(event)) if !consumer.stopped => applied(store, event),
            _ => store,
        }),
{
}

/// An error of the bus never ends the loop and never changes the store.
pub proof fn lemma_transport_error_never_stops(
    consumer: Consumer,
    store: Map<Seq<char>, ProductView>,
)
    ensures
        handled(consumer, store, DeliveryView::TransportError).0 == consumer,
        handled(consumer, store, DeliveryView::TransportError).1 == store,
{
}

/// The loop stops in one way only: a payload that is no event reaches a
/// running consumer whose policy is to fail fast. Under the policy to skip
/// the loop never stops.
pub proof fn lemma_stops_only_by_policy(
    consumer: Consumer,
    store: Map<Seq<char>, ProductView>,
    delivery: DeliveryView,
)
    ensures
        handled(consumer, store, delivery).0.policy == consumer.policy,
        handled(consumer, store, delivery).0.replies == consumer.replies,
        handled(consumer, store, delivery).0.stopped == (consumer.stopped || (consumer.policy
            == DecodePolicy::FailFast && delivery is Payload && delivery->Payload_0 is Err)),
{
}

/// A stopped loop does not start again and changes nothing.
pub proof fn lemma_stopped_stays_stopped(
    consumer: Consumer,
    store: Map<Seq<char>, ProductView>,
    delivery: DeliveryView,
)
    requires
        consumer.stopped,
    ensures
        handled(consumer, store, delivery) == (consumer, store, HandledView::Stopped),
{
}

/// The consumer and the store after `deliveries` have been handled one
/// after another.
pub open spec fn handled_all(
    consumer: Consumer,
    store: Map<Seq<char>, ProductView>,
    deliveries: Seq<DeliveryView>,
) -> (Consumer, Map<Seq<char>, ProductView>)
    decreases deliveries.len(),
{
    if deliveries.len() == 0 {
        (consumer, store)
    } else {
        let before = handled_all(consumer, store, deliveries.drop_last());
        let last = handled(before.0, before.1, deliveries.last());
        (last.0, last.1)
    }
}

/// The events among `deliveries`, in the order of delivery.
pub open spec fn events_of(deliveries: Seq<DeliveryView>) -> Seq<ProductEventView>
    decreases deliveries.len(),
{
    if deliveries.len() == 0 {
        Seq::empty()
    } else {
        match deliveries.last() {
            DeliveryView::Payload(Ok(event)) => events_of(deliveries.drop_last()).push(event),
            _ => events_of(deliveries.drop_last()),
        }
    }
}

/// The store after `events` have been applied to it one after another.
pub open spec fn applied_all(
    store: Map<Seq<char>, ProductView>,
    events: Seq<ProductEventView>,
) -> Map<Seq<char>, ProductView>
    decreases events.len(),
{
    if events.len() == 0 {
        store
    } else {
        applied(applied_all(store, events.drop_last()), events.last())
    }
}

/// The store follows the stream: a consumer that skips what it cannot
/// decode leaves the store as the events delivered so far make it, applied
/// in the order of their delivery. Nothing else that is delivered has any
/// part in it.
pub proof fn lemma_store_follows_the_stream(
    consumer: Consumer,
    store: Map<Seq<char>, ProductView>,
    deliveries: Seq<DeliveryView>,
)
    requires
        !consumer.stopped,
        consumer.policy == DecodePolicy::Skip,
    ensures
        handled_all(consumer, store, deliveries).0 == consumer,
        handled_all(consumer, store, deliveries).1 == applied_all(store, events_of(deliveries)),
    decreases deliveries.len(),
{
    if deliveries.len() > 0 {
        lemma_store_follows_the_stream(consumer, store, deliveries.drop_last());
        let events = events_of(deliveries.drop_last());
        match deliveries.last() {
            DeliveryView::Payload(Ok(event)) => {
                assert(events.push(event).drop_last() =~= events);
            },
            _ => {},
        }
    }
}

/// Failing fast: a running consumer that stops at the first payload it
/// cannot decode has, when it stops, applied the events delivered before
/// that payload and nothing else, and applies nothing after it.
pub proof fn lemma_fail_fast_stops_the_stream(
    consumer: Consumer,
    store: Map<Seq<char>, ProductView>,
    before: Seq<DeliveryView>,
    error: DecodeError,
    after: Seq<DeliveryView>,
)
    requires
        !consumer.stopped,
        consumer.policy == DecodePolicy::FailFast,
        forall|i: int|
            0 <= i < before.len() ==> !(#[trigger] before[i] is Payload && before[i]->Payload_0 is Err),
    ensures
        ({
            let bad = DeliveryView::Payload(Err::<ProductEventView, DecodeError>(error));
            let end = handled_all(consumer, store, before.push(bad) + after);
            &&& end.0.stopped
            &&& end.1 == applied_all(store, events_of(before))
        }),
    decreases after.len(),
{
    let bad = DeliveryView::Payload(Err::<ProductEventView, DecodeError>(error));
    if after.len() == 0 {
        assert(before.push(bad) + after =~= before.push(bad));
        assert(before.push(bad).drop_last() =~= before);
        lemma_runs_until_undecodable(consumer, store, before);
    } else {
        lemma_fail_fast_stops_the_stream(consumer, store, before, error, after.drop_last());
        assert((before.push(bad) + after).drop_last() =~= before.push(bad) + after.drop_last());
    }
}

/// A running consumer goes on, whatever its policy, as long as every payload
/// delivered is an event, and the store follows the events.
pub proof fn lemma_runs_until_undecodable(
    consumer: Consumer,
    store: Map<Seq<char>, ProductView>,
    deliveries: Seq<DeliveryView>,
)
    requires
        !consumer.stopped,
        forall|i: int|
            0 <= i < deliveries.len() ==> !(#[trigger] deliveries[i] is Payload
                && deliveries[i]->Payload_0 is Err),
    ensures
        handled_all(consumer, store, deliveries).0 == consumer,
        handled_all(consumer, store, deliveries).1 == applied_all(store, events_of(deliveries)),
    decreases deliveries.len(),
{
    if deliveries.len() > 0 {
        let before = deliveries.drop_last();
        assert forall|i: int| 0 <= i < before.len() implies !(#[trigger] before[i] is Payload
            && before[i]->Payload_0 is Err) by {
            assert(before[i] == deliveries[i]);
        }
        lemma_runs_until_undecodable(consumer, store, before);
        let events = events_of(before);
        assert(!(deliveries.last() is Payload && deliveries.last()->Payload_0 is Err));
        match deliveries.last() {
            DeliveryView::Payload(Ok(event)) => {
                assert(events.push(event).drop_last() =~= events);
            },
            _ => {},
        }
    }
}

} // verus!
