//! The request/reply gateway.
//!
//! A call composes a request event, has it published, and then waits for a
//! reply until a deadline. This file holds what the gateway decides: the
//! event to send and, for each thing that happens during a call, the next
//! state of the call and what to do. Publishing, reading the reply stream and
//! keeping time are done by the program that drives the call.
//!
//! The reply stream is shared by all calls. A call takes the first reply it
//! sees whose payload is an entity; nothing ties that reply to the request
//! of this call. With more than one call outstanding a call may therefore be
//! answered with the reply to another.

use crate::codec::{decode_product, decoded_product, encode_event, event_text, DecodeError};
use crate::event::{Action, ProductEvent, ProductEventView};
use crate::version::{increment_version, next_version, optional_text, MalformedVersion};
use vstd::prelude::*;
use vstd::string::*;

verus! {

/// An entity as a caller hands it in: without an id before it is created, and
/// without a version where none has been given out yet.
#[derive(Debug, PartialEq, Eq)]
pub struct Product {
    pub id: Option<String>,
    pub name: String,
    pub kind: String,
    pub version: Option<String>,
}

/// The mathematical content of a [`Product`].
pub ghost struct ProductView {
    pub id: Option<Seq<char>>,
    pub name: Seq<char>,
    pub kind: Seq<char>,
    pub version: Option<Seq<char>>,
}

impl View for Product {
    type V = ProductView;

    open spec fn view(&self) -> ProductView {
        ProductView {
            id: optional_text(self.id),
            name: self.name@,
            kind: self.kind@,
            version: optional_text(self.version),
        }
    }
}

impl Clone for Product {
    fn clone(&self) -> (res: Self)
        ensures
            res == *self,
    {
        Product {
            id: self.id.clone(),
            name: self.name.clone(),
            kind: self.kind.clone(),
            version: self.version.clone(),
        }
    }
}

/// `text` has the form of a random UUID written in lower case with hyphens:
/// 36 characters, hyphens at the four usual places, hexadecimal digits
/// elsewhere, the version digit `4` and a variant digit of `8` to `b`.
pub open spec fn is_random_uuid_text(text: Seq<char>) -> bool {
    &&& text.len() == 36
    &&& forall|i: int|
        0 <= i < 36 ==> if i == 8 || i == 13 || i == 18 || i == 23 {
            #[trigger] text[i] == '-'
        } else {
            '0' <= text[i] <= '9' || 'a' <= text[i] <= 'f'
        }
    &&& text[14] == '4'
    &&& (text[19] == '8' || text[19] == '9' || text[19] == 'a' || text[19] == 'b')
}

/// Calls `uuid::Uuid::new_v4` and writes the result with `to_string`.
///
/// Assumed: whatever the random bits, the text has the form of a random
/// UUID. Nothing is assumed of two calls giving different texts. The call
/// panics where the operating system hands out no random bytes.
#[verifier::external_body]
fn fresh_id() -> (res: String)
    ensures
        is_random_uuid_text(res@),
{
    uuid::Uuid::new_v4().to_string()
}

/// The event that asks for `action` on `product`, where `fresh` is the id to
/// use if the product has none, or nothing where the product's version is
/// malformed.
pub open spec fn composed_event(product: ProductView, action: Seq<char>, fresh: Seq<char>) -> Option<
    ProductEventView,
> {
    match next_version(product.version) {
        Some(version) => Some(
            ProductEventView {
                id: match product.id {
                    Some(id) => id,
                    None => fresh,
                },
                name: product.name,
                kind: product.kind,
                version,
                event: action,
            },
        ),
        None => None,
    }
}

/// Composes the event that asks for `event_type` on `product`, with `fresh`
/// as the id of a product that has none yet.
///
/// The event carries the product's name and type, the version after the
/// product's, and the product's id or else `fresh`. A malformed version fails
/// the composition.
pub fn create_event_with_id(product: Product, event_type: &str, fresh: String) -> (res: Result<
    ProductEvent,
    MalformedVersion,
>)
    ensures
        match composed_event(product@, event_type@, fresh@) {
            Some(event) => res is Ok && res->Ok_0@ == event,
            None => res is Err,
        },
{
    let version = match increment_version(product.version) {
        Ok(version) => version,
        Err(error) => {
            return Err(error);
        },
    };
    let id = match product.id {
        Some(id) => id,
        None => fresh,
    };
    Ok(
        ProductEvent {
            id,
            name: product.name,
            kind: product.kind,
            version,
            event: String::from_str(event_type),
        },
    )
}

/// Composes the event that asks for `event_type` on `product`.
///
/// A product without an id is given a freshly generated one; apart from that
/// the event is the one that [`create_event_with_id`] composes: the product's
/// name and type, the version after the product's, and `event_type` as the
/// name of the transition. A malformed version fails the composition.
pub fn create_event(product: Product, event_type: &str) -> (res: Result<
    ProductEvent,
    MalformedVersion,
>)
    ensures
        match next_version(product@.version) {
            Some(version) => {
                &&& res is Ok
                &&& res->Ok_0@.name == product@.name
                &&& res->Ok_0@.kind == product@.kind
                &&& res->Ok_0@.version == version
                &&& res->Ok_0@.event == event_type@
                &&& match product@.id {
                    Some(id) => res->Ok_0@.id == id,
                    None => is_random_uuid_text(res->Ok_0@.id),
                }
            },
            None => res is Err,
        },
{
    let fresh = if product.id.is_none() {
        fresh_id()
    } else {
        String::new()
    };
    create_event_with_id(product, event_type, fresh)
}

/// Why a call through the gateway failed.
#[derive(Debug, Clone, Copy, PartialEq, Eq, Structural)]
pub enum GatewayError {
    /// The bus rejected the request or could not confirm it. Nothing is
    /// tried again.
    PublishFailed,
    /// No reply was accepted before the deadline.
    Timeout,
    /// The entity's version is not a version token.
    MalformedVersion,
    /// The reply stream failed or ended while the call was waiting.
    Transport,
}

/// What a gateway is set up with.
#[derive(Debug, Clone, Copy)]
pub struct GatewayConfig {
    /// How long a call waits for its reply, in milliseconds.
    pub reply_timeout_ms: u64,
}

impl Default for GatewayConfig {
    /// A wait of five seconds.
    fn default() -> (res: Self)
        ensures
            res.reply_timeout_ms == 5000,
    {
        GatewayConfig { reply_timeout_ms: 5000 }
    }
}

/// Where a call stands.
#[derive(Debug, Clone, Copy, PartialEq, Eq, Structural)]
pub enum CallState {
    /// The request has been composed and is not yet confirmed by the bus.
    Idle,
    /// The request is on the bus; a reply is accepted before `deadline`.
    RequestSent { deadline: u64 },
    /// A reply was accepted. Terminal.
    ReplyReceived,
    /// The deadline passed without a reply. Terminal.
    TimedOut,
    /// The request could not be published, or the reply stream failed.
    /// Terminal.
    Failed,
}

impl CallState {
    /// Nothing happens to a call in this state any more.
    pub open spec fn is_terminal(self) -> bool {
        self is ReplyReceived || self is TimedOut || self is Failed
    }
}

/// What happens to a call. Times are readings of one clock that does not go
/// back, in milliseconds.
#[derive(Debug, PartialEq, Eq)]
pub enum CallEvent {
    /// The bus confirmed the request.
    Published { now: u64 },
    /// The bus rejected the request or could not confirm it.
    PublishFailed,
    /// A message with a payload came in on the reply stream; `entity` is
    /// what the payload decodes to.
    Reply { entity: Result<Product, DecodeError>, now: u64 },
    /// A message without a payload came in on the reply stream.
    Empty { now: u64 },
    /// The reply stream reported an error or ended.
    StreamFailed,
    /// The wait that the call asked for ran out.
    Tick { now: u64 },
}

/// The mathematical content of a [`CallEvent`].
pub ghost enum CallEventView {
    Published { now: u64 },
    PublishFailed,
    Reply { entity: Result<ProductView, DecodeError>, now: u64 },
    Empty { now: u64 },
    StreamFailed,
    Tick { now: u64 },
}

impl View for CallEvent {
    type V = CallEventView;

    open spec fn view(&self) -> CallEventView {
        match self {
            CallEvent::Published { now } => CallEventView::Published { now: *now },
            CallEvent::PublishFailed => CallEventView::PublishFailed,
            CallEvent::Reply { entity, now } => CallEventView::Reply {
                entity: match entity {
                    Ok(product) => Ok(product@),
                    Err(error) => Err(*error),
                },
                now: *now,
            },
            CallEvent::Empty { now } => CallEventView::Empty { now: *now },
            CallEvent::StreamFailed => CallEventView::StreamFailed,
            CallEvent::Tick { now } => CallEventView::Tick { now: *now },
        }
    }
}

/// What the program that drives a call has to do next.
#[derive(Debug, PartialEq, Eq)]
pub enum CallAction {
    /// Nothing: the event has no meaning where the call stands.
    Nothing,
    /// Wait for the next message on the reply stream, `millis` at most.
    Wait { millis: u64 },
    /// Report that a payload was not an entity, leave the message
    /// unacknowledged, and wait on for `millis` at most.
    SkipAndWait { error: DecodeError, millis: u64 },
    /// Acknowledge the message just seen, then hand the entity to the caller.
    Accept(Product),
    /// Hand the failure to the caller.
    Fail(GatewayError),
}

/// The mathematical content of a [`CallAction`].
pub ghost enum CallActionView {
    Nothing,
    Wait { millis: u64 },
    SkipAndWait { error: DecodeError, millis: u64 },
    Accept(ProductView),
    Fail(GatewayError),
}

impl View for CallAction {
    type V = CallActionView;

    open spec fn view(&self) -> CallActionView {
        match self {
            CallAction::Nothing => CallActionView::Nothing,
            CallAction::Wait { millis } => CallActionView::Wait { millis: *millis },
            CallAction::SkipAndWait { error, millis } => CallActionView::SkipAndWait {
                error: *error,
                millis: *millis,
            },
            CallAction::Accept(product) => CallActionView::Accept(product@),
            CallAction::Fail(error) => CallActionView::Fail(*error),
        }
    }
}

/// The deadline of a wait of `timeout_ms` that starts at `now`. A deadline
/// beyond the last reading of the clock is that last reading.
pub open spec fn deadline_after(now: u64, timeout_ms: u64) -> u64 {
    if now + timeout_ms > u64::MAX {
        u64::MAX
    } else {
        (now + timeout_ms) as u64
    }
}

/// What a call that waits until `deadline` does at the time `now` when
/// nothing has been accepted: it gives up at the deadline, and waits for
/// the rest of the time before it.
pub open spec fn wait_on(deadline: u64, now: u64) -> (CallState, CallActionView) {
    if now >= deadline {
        (CallState::TimedOut, CallActionView::Fail(GatewayError::Timeout))
    } else {
        (
            CallState::RequestSent { deadline },
            CallActionView::Wait { millis: (deadline - now) as u64 },
        )
    }
}

/// The next state of a call and what to do, for a call in `state` with a
/// reply timeout of `timeout_ms` to which `event` happens.
pub open spec fn next(state: CallState, timeout_ms: u64, event: CallEventView) -> (
    CallState,
    CallActionView,
) {
    match state {
        CallState::Idle => match event {
            CallEventView::Published { now } => wait_on(deadline_after(now, timeout_ms), now),
            CallEventView::PublishFailed => (
                CallState::Failed,
                CallActionView::Fail(GatewayError::PublishFailed),
            ),
            _ => (state, CallActionView::Nothing),
        },
        CallState::RequestSent { deadline } => match event {
            CallEventView::Reply { entity, now } => if now >= deadline {
                wait_on(deadline, now)
            } else {
                match entity {
                    Ok(product) => (CallState::ReplyReceived, CallActionView::Accept(product)),
                    Err(error) => (
                        state,
                        CallActionView::SkipAndWait { error, millis: (deadline - now) as u64 },
                    ),
                }
            },
            CallEventView::Empty { now } => wait_on(deadline, now),
            CallEventView::Tick { now } => wait_on(deadline, now),
            CallEventView::StreamFailed => (
                CallState::Failed,
                CallActionView::Fail(GatewayError::Transport),
            ),
            _ => (state, CallActionView::Nothing),
        },
        _ => (state, CallActionView::Nothing),
    }
}

/// The event that a message on the reply stream is to a call: a payload
/// counts as what it decodes to, a message without a payload as empty.
pub open spec fn message_event(payload: Option<Seq<u8>>, now: u64) -> CallEventView {
    match payload {
        Some(bytes) => CallEventView::Reply { entity: decoded_product(bytes), now },
        None => CallEventView::Empty { now },
    }
}

/// A request to be published on the request topic.
#[derive(Debug, PartialEq, Eq)]
pub struct Request {
    /// The key of the record: the id of the request.
    pub key: String,
    /// The envelope of the event.
    pub payload: String,
}

/// One call through the gateway.
#[derive(Debug, PartialEq, Eq)]
pub struct Call {
    /// The id under which the request was published.
    pub request_id: String,
    /// How long the call waits for a reply once the request is confirmed.
    pub timeout_ms: u64,
    /// Where the call stands.
    pub state: CallState,
}

impl Call {
    /// Begins the call that submits `event`: hands out the request to
    /// publish, under a fresh request id, and the call that waits to hear
    /// what became of it.
    pub fn begin(event: &ProductEvent, config: &GatewayConfig) -> (res: (Call, Request))
        ensures
            res.0.state == CallState::Idle,
            res.0.timeout_ms == config.reply_timeout_ms,
            res.0.request_id@ == res.1.key@,
            is_random_uuid_text(res.1.key@),
            res.1.payload@ == event_text(event@),
    {
        let key = fresh_id();
        let call = Call {
            request_id: key.clone(),
            timeout_ms: config.reply_timeout_ms,
            state: CallState::Idle,
        };
        (call, Request { key, payload: encode_event(event) })
    }

    /// Whether the call has come to its end.
    pub fn is_finished(&self) -> (res: bool)
        ensures
            res == self.state.is_terminal(),
    {
        match self.state {
            CallState::ReplyReceived | CallState::TimedOut | CallState::Failed => true,
            _ => false,
        }
    }

    /// The state and the action of a call that waits until `deadline`, at
    /// the time `now`, when nothing has been accepted.
    fn wait_or_give_up(deadline: u64, now: u64) -> (res: (CallState, CallAction))
        ensures
            (res.0, res.1@) == wait_on(deadline, now),
    {
        if now >= deadline {
            (CallState::TimedOut, CallAction::Fail(GatewayError::Timeout))
        } else {
            (CallState::RequestSent { deadline }, CallAction::Wait { millis: deadline - now })
        }
    }

    /// Takes the call one step on: `event` has happened.
    ///
    /// The first reply that carries an entity and is seen before the
    /// deadline is accepted, whichever request it answers. A payload that is
    /// no entity is skipped and reported. At the deadline the call times
    /// out. A call that has ended ignores whatever happens.
    pub fn step(&mut self, event: CallEvent) -> (action: CallAction)
        ensures
            (final(self).state, action@) == next(old(self).state, old(self).timeout_ms, event@),
            final(self).timeout_ms == old(self).timeout_ms,
            final(self).request_id == old(self).request_id,
    {
        let (state, action) = match self.state {
            CallState::Idle => match event {
                CallEvent::Published { now } => {
                    let deadline = match now.checked_add(self.timeout_ms) {
                        Some(deadline) => deadline,
                        None => u64::MAX,
                    };
                    Self::wait_or_give_up(deadline, now)
                },
                CallEvent::PublishFailed => (
                    CallState::Failed,
                    CallAction::Fail(GatewayError::PublishFailed),
                ),
                _ => (self.state, CallAction::Nothing),
            },
            CallState::RequestSent { deadline } => match event {
                CallEvent::Reply { entity, now } => {
                    if now >= deadline {
                        Self::wait_or_give_up(deadline, now)
                    } else {
                        match entity {
                            Ok(product) => (CallState::ReplyReceived, CallAction::Accept(product)),
                            Err(error) => (
                                self.state,
                                CallAction::SkipAndWait { error, millis: deadline - now },
                            ),
                        }
                    }
                },
                CallEvent::Empty { now } => Self::wait_or_give_up(deadline, now),
                CallEvent::Tick { now } => Self::wait_or_give_up(deadline, now),
                CallEvent::StreamFailed => (
                    CallState::Failed,
                    CallAction::Fail(GatewayError::Transport),
                ),
                _ => (self.state, CallAction::Nothing),
            },
            _ => (self.state, CallAction::Nothing),
        };
        self.state = state;
        action
    }

    /// Takes the call one step on: a message has come in on the reply
    /// stream at the time `now`, with `payload` or without one.
    pub fn on_message(&mut self, payload: Option<&[u8]>, now: u64) -> (action: CallAction)
        ensures
            (final(self).state, action@) == next(
                old(self).state,
                old(self).timeout_ms,
                message_event(
                    match payload {
                        Some(bytes) => Some(bytes@),
                        None => None,
                    },
                    now,
                ),
            ),
            final(self).timeout_ms == old(self).timeout_ms,
            final(self).request_id == old(self).request_id,
    {
        let event = match payload {
            Some(bytes) => CallEvent::Reply { entity: decode_product(bytes), now },
            None => CallEvent::Empty { now },
        };
        self.step(event)
    }
}

/// Starts the call that asks for `action` on `product`: composes the event,
/// and begins the call that submits it. A malformed version ends the call
/// before anything is published.
pub fn start_call(product: Product, action: Action, config: &GatewayConfig) -> (res: Result<
    (Call, Request),
    GatewayError,
>)
    ensures
        match next_version(product@.version) {
            Some(version) => {
                &&& res is Ok
                &&& res->Ok_0.0.state == CallState::Idle
                &&& res->Ok_0.0.timeout_ms == config.reply_timeout_ms
                &&& res->Ok_0.0.request_id@ == res->Ok_0.1.key@
                &&& is_random_uuid_text(res->Ok_0.1.key@)
                &&& exists|fresh: Seq<char>|
                    (product@.id is None ==> is_random_uuid_text(fresh)) && #[trigger] composed_event(
                        product@,
                        action.spec_name(),
                        fresh,
                    ) is Some && res->Ok_0.1.payload@ == event_text(
                        composed_event(product@, action.spec_name(), fresh)->Some_0,
                    )
            },
            None => res == Err::<(Call, Request), GatewayError>(GatewayError::MalformedVersion),
        },
{
    match create_event(product, action.name()) {
        Ok(event) => {
            assert(composed_event(product@, action.spec_name(), event@.id) == Some(event@));
            Ok(Call::begin(&event, config))
        },
        Err(_) => Err(GatewayError::MalformedVersion),
    }
}

/// Where a call in `state` stands after `events` have happened one after
/// another.
pub open spec fn run(state: CallState, timeout_ms: u64, events: Seq<CallEventView>) -> CallState
    decreases events.len(),
{
    if events.len() == 0 {
        state
    } else {
        next(run(state, timeout_ms, events.drop_last()), timeout_ms, events.last()).0
    }
}

/// What a call that began in `state` is told to do on the last of `events`.
pub open spec fn last_action(
    state: CallState,
    timeout_ms: u64,
    events: Seq<CallEventView>,
) -> CallActionView {
    next(run(state, timeout_ms, events.drop_last()), timeout_ms, events.last()).1
}

/// The reading of the clock that `event` carries, if it carries one.
pub open spec fn time_of(event: CallEventView) -> Option<u64> {
    match event {
        CallEventView::Published { now } => Some(now),
        CallEventView::Reply { now, .. } => Some(now),
        CallEventView::Empty { now } => Some(now),
        CallEventView::Tick { now } => Some(now),
        _ => None,
    }
}

/// The reading of the clock at which a waiting call hears `event`: the time
/// of a message on the reply stream or of a tick.
pub open spec fn heard_at(event: CallEventView) -> Option<u64> {
    match event {
        CallEventView::Published { .. } => None,
        _ => time_of(event),
    }
}

/// `event` brings a call that waits until `deadline` no reply: it is neither
/// an entity seen before the deadline nor a failure of the reply stream.
pub open spec fn brings_no_reply(event: CallEventView, deadline: u64) -> bool {
    match event {
        CallEventView::Reply { entity, now } => entity is Err || now >= deadline,
        CallEventView::StreamFailed => false,
        _ => true,
    }
}

/// A call that has ended stays as it is, whatever happens.
pub proof fn lemma_terminal_absorbs(state: CallState, timeout_ms: u64, event: CallEventView)
    requires
        state.is_terminal(),
    ensures
        next(state, timeout_ms, event) == (state, CallActionView::Nothing),
{
}

/// An entity is accepted only by a call that waits, only before its
/// deadline, and it is the entity that the reply carries.
pub proof fn lemma_accept_in_time(
    state: CallState,
    timeout_ms: u64,
    event: CallEventView,
    product: ProductView,
)
    requires
        next(state, timeout_ms, event).1 == CallActionView::Accept(product),
    ensures
        state is RequestSent,
        event is Reply,
        event->Reply_entity == Ok::<ProductView, DecodeError>(product),
        event->Reply_now < state->deadline,
        next(state, timeout_ms, event).0 == CallState::ReplyReceived,
{
}

/// A wait that a call asks for ends at the call's deadline, and a confirmed
/// request waits for the whole timeout unless the clock would run over.
pub proof fn lemma_wait_ends_at_deadline(state: CallState, timeout_ms: u64, event: CallEventView)
    ensures
        match next(state, timeout_ms, event).1 {
            CallActionView::Wait { millis } | CallActionView::SkipAndWait { millis, .. } => {
                &&& time_of(event) is Some
                &&& next(state, timeout_ms, event).0 is RequestSent
                &&& time_of(event)->Some_0 + millis == next(state, timeout_ms, event).0->deadline
                &&& millis > 0
                &&& state is Idle ==> millis == timeout_ms || next(
                    state,
                    timeout_ms,
                    event,
                ).0->deadline == u64::MAX
            },
            _ => true,
        },
{
}

/// A call whose request is on the bus and to which no reply is brought times
/// out: as long as nothing but empty messages, payloads that are no entity,
/// late replies and ticks of the clock happen, the call keeps waiting until
/// the deadline and then fails with `Timeout`, never in another way.
pub proof fn lemma_no_reply_times_out(deadline: u64, timeout_ms: u64, events: Seq<CallEventView>)
    requires
        forall|i: int| 0 <= i < events.len() ==> brings_no_reply(#[trigger] events[i], deadline),
    ensures
        ({
            let end = run(CallState::RequestSent { deadline }, timeout_ms, events);
            &&& end == CallState::RequestSent { deadline } || end == CallState::TimedOut
            &&& (exists|i: int|
                0 <= i < events.len() && heard_at(#[trigger] events[i]) is Some && heard_at(
                    events[i],
                )->Some_0 >= deadline) ==> end == CallState::TimedOut
        }),
        events.len() > 0 ==> match last_action(
            CallState::RequestSent { deadline },
            timeout_ms,
            events,
        ) {
            CallActionView::Accept(_) => false,
            CallActionView::Fail(error) => error == GatewayError::Timeout,
            _ => true,
        },
    decreases events.len(),
{
    if events.len() > 0 {
        let start = CallState::RequestSent { deadline };
        let before = events.drop_last();
        assert forall|i: int| 0 <= i < before.len() implies brings_no_reply(
            #[trigger] before[i],
            deadline,
        ) by {
            assert(before[i] == events[i]);
        }
        lemma_no_reply_times_out(deadline, timeout_ms, before);
        assert(brings_no_reply(events.last(), deadline));
        let mid = run(start, timeout_ms, before);
        let end = run(start, timeout_ms, events);
        assert(end == next(mid, timeout_ms, events.last()).0);
        if exists|i: int|
            0 <= i < events.len() && heard_at(#[trigger] events[i]) is Some && heard_at(
                events[i],
            )->Some_0 >= deadline {
            let i = choose|i: int|
                0 <= i < events.len() && heard_at(#[trigger] events[i]) is Some && heard_at(
                    events[i],
                )->Some_0 >= deadline;
            if i < before.len() {
                assert(before[i] == events[i]);
                assert(mid == CallState::TimedOut);
            }
        }
    }
}

/// A call keeps waiting as long as every message and every tick comes before
/// the deadline and none brings a reply.
pub proof fn lemma_keeps_waiting(deadline: u64, timeout_ms: u64, events: Seq<CallEventView>)
    requires
        forall|i: int|
            0 <= i < events.len() ==> brings_no_reply(#[trigger] events[i], deadline) && (heard_at(
                events[i],
            ) is Some ==> heard_at(events[i])->Some_0 < deadline),
    ensures
        run(CallState::RequestSent { deadline }, timeout_ms, events) == (CallState::RequestSent {
            deadline,
        }),
    decreases events.len(),
{
    if events.len() > 0 {
        let before = events.drop_last();
        assert forall|i: int| 0 <= i < before.len() implies brings_no_reply(
            #[trigger] before[i],
            deadline,
        ) && (heard_at(before[i]) is Some ==> heard_at(before[i])->Some_0 < deadline) by {
            assert(before[i] == events[i]);
        }
        lemma_keeps_waiting(deadline, timeout_ms, before);
        assert(brings_no_reply(events.last(), deadline));
    }
}

/// The first entity wins: a waiting call accepts the first entity that it
/// hears before the deadline, whatever was passed over before it and
/// whichever request the entity answers. The id of the request has no part
/// in it.
pub proof fn lemma_first_entity_wins(
    deadline: u64,
    timeout_ms: u64,
    passed_over: Seq<CallEventView>,
    product: ProductView,
    now: u64,
)
    requires
        forall|i: int|
            0 <= i < passed_over.len() ==> brings_no_reply(#[trigger] passed_over[i], deadline) && (
            heard_at(passed_over[i]) is Some ==> heard_at(passed_over[i])->Some_0 < deadline),
        now < deadline,
    ensures
        ({
            let events = passed_over.push(
                CallEventView::Reply { entity: Ok::<ProductView, DecodeError>(product), now },
            );
            let start = CallState::RequestSent { deadline };
            &&& run(start, timeout_ms, events) == CallState::ReplyReceived
            &&& last_action(start, timeout_ms, events) == CallActionView::Accept(product)
        }),
{
    let reply = CallEventView::Reply { entity: Ok::<ProductView, DecodeError>(product), now };
    let events = passed_over.push(reply);
    lemma_keeps_waiting(deadline, timeout_ms, passed_over);
    assert(events.drop_last() =~= passed_over);
    assert(events.last() == reply);
}

} // verus!
