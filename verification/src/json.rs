//! JSON texts, read and written by `serde_json`.
//!
//! The types of `serde_json`, the two names [`members`] and
//! [`parsed_object`] and the functions that call into `serde_json` are taken
//! on trust: each says in its comment what is assumed of the crate. What is
//! said of JSON strings, [`json_string`], is short enough to reason about,
//! and the facts about it further down are proved. The envelopes built on
//! top of all this are in [`crate::codec`].

use vstd::prelude::*;

verus! {

/// `serde_json::Map`, the members of a JSON object. Its inside is not
/// visible to the proofs; [`members`] names what it holds.
#[verifier::external_type_specification]
#[verifier::external_body]
#[verifier::reject_recursive_types(K)]
#[verifier::reject_recursive_types(V)]
pub struct ExMap<K, V>(serde_json::Map<K, V>);

/// `serde_json::Value`, any JSON value.
#[verifier::external_type_specification]
#[verifier::external_body]
pub struct ExValue(serde_json::Value);

/// `serde_json::Error`, why a text could not be read or written.
#[verifier::external_type_specification]
#[verifier::external_body]
pub struct ExError(serde_json::Error);

/// The value of one member of an object, as far as an envelope reads it: a
/// string with its text, `null`, or anything else.
#[derive(Debug, PartialEq, Eq)]
pub enum Field {
    Null,
    Text(String),
    Other,
}

/// The mathematical content of a [`Field`].
pub ghost enum FieldView {
    Null,
    Text(Seq<char>),
    Other,
}

impl View for Field {
    type V = FieldView;

    open spec fn view(&self) -> FieldView {
        match self {
            Field::Null => FieldView::Null,
            Field::Text(text) => FieldView::Text(text@),
            Field::Other => FieldView::Other,
        }
    }
}

/// The view of an optional field.
pub open spec fn optional_field(field: Option<Field>) -> Option<FieldView> {
    match field {
        Some(field) => Some(field@),
        None => None,
    }
}

/// What an object holds: each of its keys, with the value under it. A string
/// stands there with its characters, `null` as `Null`, and a value of any
/// other kind as `Other`.
pub uninterp spec fn members(object: serde_json::Map<String, serde_json::Value>) -> Map<
    Seq<char>,
    FieldView,
>;

/// What `serde_json` reads from the bytes `text` when asked for an object:
/// the object's members, or nothing where it reports an error.
pub uninterp spec fn parsed_object(text: Seq<u8>) -> Option<Map<Seq<char>, FieldView>>;

/// Calls `serde_json::from_slice` for a `serde_json::Map`.
///
/// Assumed: the outcome depends on the bytes alone. `parsed_object` is the
/// name of that outcome; nothing is said of which texts are accepted.
#[verifier::external_body]
pub(crate) fn parse_object(text: &[u8]) -> (res: Result<
    serde_json::Map<String, serde_json::Value>,
    serde_json::Error,
>)
    ensures
        match res {
            Ok(object) => parsed_object(text@) == Some(members(object)),
            Err(_) => parsed_object(text@) is None,
        },
{
    serde_json::from_slice::<serde_json::Map<String, serde_json::Value>>(text)
}

/// Calls `serde_json::Map::get` and tells the variants of the
/// `serde_json::Value` found apart.
///
/// Assumed: the result is the member that the object holds under `key`, and
/// nothing where the object has no such key.
#[verifier::external_body]
pub(crate) fn member(object: &serde_json::Map<String, serde_json::Value>, key: &str) -> (res:
    Option<Field>)
    ensures
        optional_field(res) == if members(*object).contains_key(key@) {
            Some(members(*object)[key@])
        } else {
            None
        },
{
    match object.get(key)? {
        serde_json::Value::Null => Some(Field::Null),
        serde_json::Value::String(text) => Some(Field::Text(text.clone())),
        serde_json::Value::Bool(_) => Some(Field::Other),
        serde_json::Value::Number(_) => Some(Field::Other),
        serde_json::Value::Array(_) => Some(Field::Other),
        serde_json::Value::Object(_) => Some(Field::Other),
    }
}

/// The lower-case hexadecimal digit of `d`, for `d < 16`.
pub open spec fn hex_digit(d: nat) -> char {
    if d < 10 {
        (d + '0' as nat) as char
    } else {
        (d - 10 + 'a' as nat) as char
    }
}

/// How one character stands inside a JSON string: the quote, the backslash
/// and the control characters below U+0020 are escaped, every other
/// character stands for itself.
pub open spec fn escape_of(c: char) -> Seq<char> {
    if c == '"' {
        seq!['\\', '"']
    } else if c == '\\' {
        seq!['\\', '\\']
    } else if c == '\u{08}' {
        seq!['\\', 'b']
    } else if c == '\u{0c}' {
        seq!['\\', 'f']
    } else if c == '\n' {
        seq!['\\', 'n']
    } else if c == '\r' {
        seq!['\\', 'r']
    } else if c == '\t' {
        seq!['\\', 't']
    } else if (c as nat) < 0x20 {
        seq!['\\', 'u', '0', '0', hex_digit(c as nat / 16), hex_digit(c as nat % 16)]
    } else {
        seq![c]
    }
}

/// The characters of `text`, each as it stands inside a JSON string.
pub open spec fn escaped(text: Seq<char>) -> Seq<char>
    decreases text.len(),
{
    if text.len() == 0 {
        Seq::empty()
    } else {
        escaped(text.drop_last()) + escape_of(text.last())
    }
}

/// The JSON string that writes `text`: its escaped characters in quotes.
pub open spec fn json_string(text: Seq<char>) -> Seq<char> {
    seq!['"'] + escaped(text) + seq!['"']
}

/// Escaping goes character by character: the escaped form of two texts put
/// together is their escaped forms put together.
pub proof fn lemma_escaped_concat(a: Seq<char>, b: Seq<char>)
    ensures
        escaped(a + b) == escaped(a) + escaped(b),
    decreases b.len(),
{
    if b.len() == 0 {
        assert(a + b =~= a);
        assert(escaped(a) + escaped(b) =~= escaped(a));
    } else {
        lemma_escaped_concat(a, b.drop_last());
        assert((a + b).drop_last() =~= a + b.drop_last());
        assert((a + b).last() == b.last());
        assert(escaped(a + b) =~= escaped(a) + escaped(b));
    }
}

/// The escaped form of a text that is not empty begins with the escaped
/// form of its first character.
pub proof fn lemma_escaped_front(text: Seq<char>)
    requires
        text.len() > 0,
    ensures
        escaped(text) == escape_of(text[0]) + escaped(text.drop_first()),
{
    let head = seq![text[0]];
    assert(head.drop_last() =~= Seq::<char>::empty());
    assert(escaped(head) =~= escape_of(text[0])) by {
        assert(escaped(head.drop_last()) =~= Seq::<char>::empty());
        assert(head.last() == text[0]);
    }
    assert(text =~= head + text.drop_first());
    lemma_escaped_concat(head, text.drop_first());
}

/// No escaped character is the beginning of another: where two escaped
/// characters, each followed by more text, give the same text, they are the
/// same character and are followed by the same text.
pub proof fn lemma_escape_prefix_free(c: char, d: char, x: Seq<char>, y: Seq<char>)
    requires
        escape_of(c) + x == escape_of(d) + y,
    ensures
        c == d,
        x == y,
{
    let l = escape_of(c) + x;
    let r = escape_of(d) + y;
    assert(l[0] == r[0]);
    assert(escape_of(c).len() >= 1 && escape_of(d).len() >= 1);
    if escape_of(c).len() >= 2 {
        assert(l[1] == r[1]);
    }
    if escape_of(d).len() >= 2 {
        assert(l[1] == r[1]);
    }
    if escape_of(c).len() == 6 {
        assert(l[4] == r[4]);
        assert(l[5] == r[5]);
    }
    assert(c == d);
    assert(x =~= l.subrange(escape_of(c).len() as int, l.len() as int));
    assert(y =~= r.subrange(escape_of(d).len() as int, r.len() as int));
}

/// A JSON string ends where its closing quote stands: where two JSON
/// strings, each followed by more text, give the same text, they write the
/// same text and are followed by the same text.
pub proof fn lemma_json_string_prefix_free(s: Seq<char>, t: Seq<char>, x: Seq<char>, y: Seq<char>)
    requires
        json_string(s) + x == json_string(t) + y,
    ensures
        s == t,
        x == y,
{
    let l = json_string(s) + x;
    let r = json_string(t) + y;
    let lt = escaped(s) + (seq!['"'] + x);
    let rt = escaped(t) + (seq!['"'] + y);
    assert(lt =~= l.subrange(1, l.len() as int));
    assert(rt =~= r.subrange(1, r.len() as int));
    lemma_escaped_then_quote(s, t, x, y);
}

/// The inside of [`lemma_json_string_prefix_free`]: the same for escaped
/// texts that are closed by a quote.
pub proof fn lemma_escaped_then_quote(s: Seq<char>, t: Seq<char>, x: Seq<char>, y: Seq<char>)
    requires
        escaped(s) + (seq!['"'] + x) == escaped(t) + (seq!['"'] + y),
    ensures
        s == t,
        x == y,
    decreases s.len(),
{
    let l = escaped(s) + (seq!['"'] + x);
    let r = escaped(t) + (seq!['"'] + y);
    if s.len() == 0 {
        assert(escaped(s) =~= Seq::<char>::empty());
        assert(l[0] == '"');
        if t.len() == 0 {
            assert(escaped(t) =~= Seq::<char>::empty());
            assert(x =~= l.subrange(1, l.len() as int));
            assert(y =~= r.subrange(1, r.len() as int));
            assert(s =~= t);
        } else {
            lemma_escaped_front(t);
            assert(r[0] == escape_of(t[0])[0]);
            assert(false);
        }
    } else if t.len() == 0 {
        assert(escaped(t) =~= Seq::<char>::empty());
        assert(r[0] == '"');
        lemma_escaped_front(s);
        assert(l[0] == escape_of(s[0])[0]);
        assert(false);
    } else {
        lemma_escaped_front(s);
        lemma_escaped_front(t);
        let ls = escaped(s.drop_first()) + (seq!['"'] + x);
        let rs = escaped(t.drop_first()) + (seq!['"'] + y);
        assert(l =~= escape_of(s[0]) + ls);
        assert(r =~= escape_of(t[0]) + rs);
        lemma_escape_prefix_free(s[0], t[0], ls, rs);
        lemma_escaped_then_quote(s.drop_first(), t.drop_first(), x, y);
        assert(s =~= seq![s[0]] + s.drop_first());
        assert(t =~= seq![t[0]] + t.drop_first());
    }
}

/// Calls `serde_json::to_string` on a string slice.
///
/// Assumed: the call succeeds, and writes the compact JSON string of
/// `text`, escaped as [`escape_of`] says.
#[verifier::external_body]
pub(crate) fn quote(text: &str) -> (res: Result<String, serde_json::Error>)
    ensures
        res is Ok,
        res->Ok_0@ == json_string(text@),
{
    serde_json::to_string(text)
}

} // verus!
