//! The wire envelopes.
//!
//! An event travels as a JSON object with the string members `id`, `name`,
//! `type`, `version` and `event`; an entity travels as the same object
//! without `event`. Members that an envelope does not know are ignored.
//! Reading and writing JSON itself is `serde_json`'s work (see
//! [`crate::json`]); which members make an envelope is decided here.

use crate::event::{ProductEvent, ProductEventView};
use crate::gateway;
use crate::json::{
    json_string, lemma_json_string_prefix_free, member, optional_field, parse_object,
    parsed_object, quote, Field, FieldView,
};
use crate::store::{Product, ProductView};
use vstd::pervasive::unreached;
use vstd::prelude::*;
use vstd::string::*;
use vstd::utf8::{encode_utf8, encode_utf8_decode_utf8};

verus! {

/// Why a payload is not an envelope.
#[derive(Debug, Clone, Copy, PartialEq, Eq, Structural)]
pub enum DecodeError {
    /// The payload is not the text of a JSON object.
    Syntax,
    /// A member that the envelope needs is missing or is not a string.
    Field,
}

/// One member of an envelope and what follows it: the label, which holds
/// the key, the JSON string of `text`, and the rest of the envelope.
pub open spec fn member_text(label: Seq<char>, text: Seq<char>, rest: Seq<char>) -> Seq<char> {
    label + (json_string(text) + rest)
}

/// The text of an event's envelope: an object with the members `id`,
/// `name`, `type`, `version` and `event`, in this order and without white
/// space.
pub open spec fn event_text(event: ProductEventView) -> Seq<char> {
    member_text(
        "{\"id\":"@,
        event.id,
        member_text(
            ",\"name\":"@,
            event.name,
            member_text(
                ",\"type\":"@,
                event.kind,
                member_text(
                    ",\"version\":"@,
                    event.version,
                    member_text(",\"event\":"@, event.event, "}"@),
                ),
            ),
        ),
    )
}

/// The text of an entity's envelope: an object with the members `id`,
/// `type`, `name` and `version`, in this order and without white space.
pub open spec fn product_text(product: ProductView) -> Seq<char> {
    member_text(
        "{\"id\":"@,
        product.id,
        member_text(
            ",\"type\":"@,
            product.kind,
            member_text(
                ",\"name\":"@,
                product.name,
                member_text(",\"version\":"@, product.version, "}"@),
            ),
        ),
    )
}

/// Writing a member after `out` and the rest after the member is writing,
/// after `out`, the member with its rest.
proof fn lemma_member_written(out: Seq<char>, label: Seq<char>, text: Seq<char>, rest: Seq<char>)
    ensures
        (out + label + json_string(text)) + rest == out + member_text(label, text, rest),
{
    assert((out + label + json_string(text)) + rest =~= out + member_text(label, text, rest));
}

/// Appends `label` and the JSON string of `text` to `out`.
fn append_member(out: &mut String, label: &str, text: &str)
    ensures
        final(out)@ == old(out)@ + label@ + json_string(text@),
{
    out.append(label);
    match quote(text) {
        Ok(quoted) => out.append(quoted.as_str()),
        Err(_) => unreached(),
    }
}

/// Writes the envelope of `event`.
pub fn encode_event(event: &ProductEvent) -> (res: String)
    ensures
        res@ == event_text(event@),
{
    let ghost r5 = "}"@;
    let ghost r4 = member_text(",\"event\":"@, event@.event, r5);
    let ghost r3 = member_text(",\"version\":"@, event@.version, r4);
    let ghost r2 = member_text(",\"type\":"@, event@.kind, r3);
    let ghost r1 = member_text(",\"name\":"@, event@.name, r2);
    let mut out = String::new();
    assert(out@ + event_text(event@) =~= event_text(event@));
    proof {
        lemma_member_written(out@, "{\"id\":"@, event@.id, r1);
    }
    append_member(&mut out, "{\"id\":", event.id.as_str());
    proof {
        lemma_member_written(out@, ",\"name\":"@, event@.name, r2);
    }
    append_member(&mut out, ",\"name\":", event.name.as_str());
    proof {
        lemma_member_written(out@, ",\"type\":"@, event@.kind, r3);
    }
    append_member(&mut out, ",\"type\":", event.kind.as_str());
    proof {
        lemma_member_written(out@, ",\"version\":"@, event@.version, r4);
    }
    append_member(&mut out, ",\"version\":", event.version.as_str());
    proof {
        lemma_member_written(out@, ",\"event\":"@, event@.event, r5);
    }
    append_member(&mut out, ",\"event\":", event.event.as_str());
    out.append("}");
    out
}

/// Writes the envelope of `product`, as the bytes that go on the bus in
/// reply to an event.
pub fn product_event_reply_generator(product: &Product) -> (res: Vec<u8>)
    ensures
        res@ == encode_utf8(product_text(product@)),
{
    let ghost r4 = "}"@;
    let ghost r3 = member_text(",\"version\":"@, product@.version, r4);
    let ghost r2 = member_text(",\"name\":"@, product@.name, r3);
    let ghost r1 = member_text(",\"type\":"@, product@.kind, r2);
    let mut out = String::new();
    assert(out@ + product_text(product@) =~= product_text(product@));
    proof {
        lemma_member_written(out@, "{\"id\":"@, product@.id, r1);
    }
    append_member(&mut out, "{\"id\":", product.id.as_str());
    proof {
        lemma_member_written(out@, ",\"type\":"@, product@.kind, r2);
    }
    append_member(&mut out, ",\"type\":", product.kind.as_str());
    proof {
        lemma_member_written(out@, ",\"name\":"@, product@.name, r3);
    }
    append_member(&mut out, ",\"name\":", product.name.as_str());
    proof {
        lemma_member_written(out@, ",\"version\":"@, product@.version, r4);
    }
    append_member(&mut out, ",\"version\":", product.version.as_str());
    out.append("}");
    out.as_str().as_bytes_vec()
}

/// What was found under the five keys of an event's envelope.
#[derive(Debug, PartialEq, Eq)]
pub struct EnvelopeFields {
    pub id: Option<Field>,
    pub name: Option<Field>,
    pub kind: Option<Field>,
    pub version: Option<Field>,
    pub event: Option<Field>,
}

/// The mathematical content of [`EnvelopeFields`].
pub ghost struct EnvelopeFieldsView {
    pub id: Option<FieldView>,
    pub name: Option<FieldView>,
    pub kind: Option<FieldView>,
    pub version: Option<FieldView>,
    pub event: Option<FieldView>,
}

impl View for EnvelopeFields {
    type V = EnvelopeFieldsView;

    open spec fn view(&self) -> EnvelopeFieldsView {
        EnvelopeFieldsView {
            id: optional_field(self.id),
            name: optional_field(self.name),
            kind: optional_field(self.kind),
            version: optional_field(self.version),
            event: optional_field(self.event),
        }
    }
}

/// The member of `members` under `key`, if there is one.
pub open spec fn member_of(members: Map<Seq<char>, FieldView>, key: Seq<char>) -> Option<
    FieldView,
> {
    if members.contains_key(key) {
        Some(members[key])
    } else {
        None
    }
}

/// What an object holds under the five keys of an event's envelope.
pub open spec fn envelope_fields(members: Map<Seq<char>, FieldView>) -> EnvelopeFieldsView {
    EnvelopeFieldsView {
        id: member_of(members, "id"@),
        name: member_of(members, "name"@),
        kind: member_of(members, "type"@),
        version: member_of(members, "version"@),
        event: member_of(members, "event"@),
    }
}

/// The text of a member that has to be a string.
pub open spec fn required_text(field: Option<FieldView>) -> Option<Seq<char>> {
    match field {
        Some(FieldView::Text(text)) => Some(text),
        _ => None,
    }
}

/// The event that the members found make: all five have to be strings.
pub open spec fn event_of_fields(fields: EnvelopeFieldsView) -> Result<
    ProductEventView,
    DecodeError,
> {
    if required_text(fields.id) is Some && required_text(fields.name) is Some && required_text(
        fields.kind,
    ) is Some && required_text(fields.version) is Some && required_text(fields.event) is Some {
        Ok(
            ProductEventView {
                id: required_text(fields.id)->Some_0,
                name: required_text(fields.name)->Some_0,
                kind: required_text(fields.kind)->Some_0,
                version: required_text(fields.version)->Some_0,
                event: required_text(fields.event)->Some_0,
            },
        )
    } else {
        Err(DecodeError::Field)
    }
}

/// The event that a payload carries: the payload has to be the text of an
/// object, and the object has to hold the five members as strings.
pub open spec fn decoded_event(payload: Seq<u8>) -> Result<ProductEventView, DecodeError> {
    match parsed_object(payload) {
        Some(members) => event_of_fields(envelope_fields(members)),
        None => Err(DecodeError::Syntax),
    }
}

/// `res` is the outcome `expected`, an event being taken by its content.
pub open spec fn is_event_outcome(
    res: Result<ProductEvent, DecodeError>,
    expected: Result<ProductEventView, DecodeError>,
) -> bool {
    match expected {
        Ok(event) => res is Ok && res->Ok_0@ == event,
        Err(error) => res == Err::<ProductEvent, DecodeError>(error),
    }
}

/// The text of a member that has to be a string.
fn take_text(field: Option<Field>) -> (res: Option<String>)
    ensures
        match required_text(optional_field(field)) {
            Some(text) => res is Some && res->Some_0@ == text,
            None => res is None,
        },
{
    match field {
        Some(Field::Text(text)) => Some(text),
        _ => None,
    }
}

/// Makes an event of the members found under the five keys of its envelope.
pub fn event_from_fields(fields: EnvelopeFields) -> (res: Result<ProductEvent, DecodeError>)
    ensures
        is_event_outcome(res, event_of_fields(fields@)),
{
    let id = take_text(fields.id);
    let name = take_text(fields.name);
    let kind = take_text(fields.kind);
    let version = take_text(fields.version);
    let event = take_text(fields.event);
    match (id, name, kind, version, event) {
        (Some(id), Some(name), Some(kind), Some(version), Some(event)) => Ok(
            ProductEvent { id, name, kind, version, event },
        ),
        _ => Err(DecodeError::Field),
    }
}

/// Reads the envelope of an event.
///
/// The payload is read as a JSON object by `serde_json`; the outcome of that
/// is named, not proved. On top of it the result is exact: an event with the
/// five members as they stand in the object, or the reason why there is none.
pub fn decode_event(payload: &[u8]) -> (res: Result<ProductEvent, DecodeError>)
    ensures
        is_event_outcome(res, decoded_event(payload@)),
{
    match parse_object(payload) {
        Ok(object) => {
            let fields = EnvelopeFields {
                id: member(&object, "id"),
                name: member(&object, "name"),
                kind: member(&object, "type"),
                version: member(&object, "version"),
                event: member(&object, "event"),
            };
            event_from_fields(fields)
        },
        Err(_) => Err(DecodeError::Syntax),
    }
}

/// What was found under the four keys of an entity's envelope.
#[derive(Debug, PartialEq, Eq)]
pub struct EntityFields {
    pub id: Option<Field>,
    pub name: Option<Field>,
    pub kind: Option<Field>,
    pub version: Option<Field>,
}

/// The mathematical content of [`EntityFields`].
pub ghost struct EntityFieldsView {
    pub id: Option<FieldView>,
    pub name: Option<FieldView>,
    pub kind: Option<FieldView>,
    pub version: Option<FieldView>,
}

impl View for EntityFields {
    type V = EntityFieldsView;

    open spec fn view(&self) -> EntityFieldsView {
        EntityFieldsView {
            id: optional_field(self.id),
            name: optional_field(self.name),
            kind: optional_field(self.kind),
            version: optional_field(self.version),
        }
    }
}

/// What an object holds under the four keys of an entity's envelope.
pub open spec fn entity_fields(members: Map<Seq<char>, FieldView>) -> EntityFieldsView {
    EntityFieldsView {
        id: member_of(members, "id"@),
        name: member_of(members, "name"@),
        kind: member_of(members, "type"@),
        version: member_of(members, "version"@),
    }
}

/// The text of a member that may be left out: a missing member and `null`
/// give no text, a string gives its text, and any other value is refused.
pub open spec fn optional_member_text(field: Option<FieldView>) -> Result<
    Option<Seq<char>>,
    DecodeError,
> {
    match field {
        None | Some(FieldView::Null) => Ok(None),
        Some(FieldView::Text(text)) => Ok(Some(text)),
        Some(FieldView::Other) => Err(DecodeError::Field),
    }
}

/// The entity that the members found make: `name` and `type` have to be
/// strings, `id` and `version` may be left out.
pub open spec fn product_of_fields(fields: EntityFieldsView) -> Result<
    gateway::ProductView,
    DecodeError,
> {
    if required_text(fields.name) is Some && required_text(fields.kind) is Some
        && optional_member_text(fields.id) is Ok && optional_member_text(fields.version) is Ok {
        Ok(
            gateway::ProductView {
                id: optional_member_text(fields.id)->Ok_0,
                name: required_text(fields.name)->Some_0,
                kind: required_text(fields.kind)->Some_0,
                version: optional_member_text(fields.version)->Ok_0,
            },
        )
    } else {
        Err(DecodeError::Field)
    }
}

/// The entity that a reply payload carries.
pub open spec fn decoded_product(payload: Seq<u8>) -> Result<gateway::ProductView, DecodeError> {
    match parsed_object(payload) {
        Some(members) => product_of_fields(entity_fields(members)),
        None => Err(DecodeError::Syntax),
    }
}

/// `res` is the outcome `expected`, an entity being taken by its content.
pub open spec fn is_product_outcome(
    res: Result<gateway::Product, DecodeError>,
    expected: Result<gateway::ProductView, DecodeError>,
) -> bool {
    match expected {
        Ok(product) => res is Ok && res->Ok_0@ == product,
        Err(error) => res == Err::<gateway::Product, DecodeError>(error),
    }
}

/// The text of a member that may be left out.
fn take_optional_text(field: Option<Field>) -> (res: Result<Option<String>, DecodeError>)
    ensures
        match optional_member_text(optional_field(field)) {
            Ok(text) => res is Ok && crate::version::optional_text(res->Ok_0) == text,
            Err(error) => res == Err::<Option<String>, DecodeError>(error),
        },
{
    match field {
        None => Ok(None),
        Some(Field::Null) => Ok(None),
        Some(Field::Text(text)) => Ok(Some(text)),
        Some(Field::Other) => Err(DecodeError::Field),
    }
}

/// Makes an entity of the members found under the four keys of its envelope.
pub fn product_from_fields(fields: EntityFields) -> (res: Result<gateway::Product, DecodeError>)
    ensures
        is_product_outcome(res, product_of_fields(fields@)),
{
    let id = take_optional_text(fields.id);
    let name = take_text(fields.name);
    let kind = take_text(fields.kind);
    let version = take_optional_text(fields.version);
    match (id, name, kind, version) {
        (Ok(id), Some(name), Some(kind), Ok(version)) => Ok(
            gateway::Product { id, name, kind, version },
        ),
        _ => Err(DecodeError::Field),
    }
}

/// Reads the envelope of an entity, as a reply carries it.
///
/// As for [`decode_event`], the reading of the JSON text is named and the
/// result on top of it is exact.
pub fn decode_product(payload: &[u8]) -> (res: Result<gateway::Product, DecodeError>)
    ensures
        is_product_outcome(res, decoded_product(payload@)),
{
    match parse_object(payload) {
        Ok(object) => {
            let fields = EntityFields {
                id: member(&object, "id"),
                name: member(&object, "name"),
                kind: member(&object, "type"),
                version: member(&object, "version"),
            };
            product_from_fields(fields)
        },
        Err(_) => Err(DecodeError::Syntax),
    }
}

/// A member and its rest are read off the text they are written as: where
/// two members under the same label give the same text, their texts are the
/// same and so is what follows them.
pub proof fn lemma_member_text_injective(
    label: Seq<char>,
    s: Seq<char>,
    t: Seq<char>,
    x: Seq<char>,
    y: Seq<char>,
)
    requires
        member_text(label, s, x) == member_text(label, t, y),
    ensures
        s == t,
        x == y,
{
    let l = json_string(s) + x;
    let r = json_string(t) + y;
    assert(l =~= (label + l).subrange(label.len() as int, (label + l).len() as int));
    assert(r =~= (label + r).subrange(label.len() as int, (label + r).len() as int));
    lemma_json_string_prefix_free(s, t, x, y);
}

/// The envelope determines the event: two events that are written as the
/// same text are the same event. So nothing is lost in writing an event,
/// whatever its five texts hold.
pub proof fn lemma_event_text_injective(a: ProductEventView, b: ProductEventView)
    requires
        event_text(a) == event_text(b),
    ensures
        a == b,
{
    let a4 = member_text(",\"event\":"@, a.event, "}"@);
    let a3 = member_text(",\"version\":"@, a.version, a4);
    let a2 = member_text(",\"type\":"@, a.kind, a3);
    let a1 = member_text(",\"name\":"@, a.name, a2);
    let b4 = member_text(",\"event\":"@, b.event, "}"@);
    let b3 = member_text(",\"version\":"@, b.version, b4);
    let b2 = member_text(",\"type\":"@, b.kind, b3);
    let b1 = member_text(",\"name\":"@, b.name, b2);
    lemma_member_text_injective("{\"id\":"@, a.id, b.id, a1, b1);
    lemma_member_text_injective(",\"name\":"@, a.name, b.name, a2, b2);
    lemma_member_text_injective(",\"type\":"@, a.kind, b.kind, a3, b3);
    lemma_member_text_injective(",\"version\":"@, a.version, b.version, a4, b4);
    lemma_member_text_injective(",\"event\":"@, a.event, b.event, "}"@, "}"@);
}

/// The reply determines the entity: two entities that are written as the
/// same bytes are the same entity.
pub proof fn lemma_reply_injective(a: ProductView, b: ProductView)
    requires
        encode_utf8(product_text(a)) == encode_utf8(product_text(b)),
    ensures
        a == b,
{
    encode_utf8_decode_utf8(product_text(a));
    encode_utf8_decode_utf8(product_text(b));
    let a3 = member_text(",\"version\":"@, a.version, "}"@);
    let a2 = member_text(",\"name\":"@, a.name, a3);
    let a1 = member_text(",\"type\":"@, a.kind, a2);
    let b3 = member_text(",\"version\":"@, b.version, "}"@);
    let b2 = member_text(",\"name\":"@, b.name, b3);
    let b1 = member_text(",\"type\":"@, b.kind, b2);
    lemma_member_text_injective("{\"id\":"@, a.id, b.id, a1, b1);
    lemma_member_text_injective(",\"type\":"@, a.kind, b.kind, a2, b2);
    lemma_member_text_injective(",\"name\":"@, a.name, b.name, a3, b3);
    lemma_member_text_injective(",\"version\":"@, a.version, b.version, "}"@, "}"@);
}

/// Reading follows the members: a payload that is read as an object which
/// holds the five texts of `event` under the five keys carries `event`.
pub proof fn lemma_members_decide_event(
    payload: Seq<u8>,
    members: Map<Seq<char>, FieldView>,
    event: ProductEventView,
)
    requires
        parsed_object(payload) == Some(members),
        member_of(members, "id"@) == Some(FieldView::Text(event.id)),
        member_of(members, "name"@) == Some(FieldView::Text(event.name)),
        member_of(members, "type"@) == Some(FieldView::Text(event.kind)),
        member_of(members, "version"@) == Some(FieldView::Text(event.version)),
        member_of(members, "event"@) == Some(FieldView::Text(event.event)),
    ensures
        decoded_event(payload) == Ok::<ProductEventView, DecodeError>(event),
{
}

} // verus!
