use product_bridge::codec::{
    decode_event, decode_product, encode_event, event_from_fields, product_event_reply_generator,
    product_from_fields, DecodeError, EntityFields, EnvelopeFields,
};
use product_bridge::event::ProductEvent;
use product_bridge::gateway;
use product_bridge::json::Field;
use product_bridge::store::Product;

fn event(id: &str, name: &str, kind: &str, version: &str, action: &str) -> ProductEvent {
    ProductEvent {
        id: id.to_string(),
        name: name.to_string(),
        kind: kind.to_string(),
        version: version.to_string(),
        event: action.to_string(),
    }
}

fn text(s: &str) -> Option<Field> {
    Some(Field::Text(s.to_string()))
}

#[test]
fn event_envelope_is_written_member_by_member() {
    let e = event("W1", "Widget", "T", "v1", "CREATED");
    assert_eq!(
        encode_event(&e),
        "{\"id\":\"W1\",\"name\":\"Widget\",\"type\":\"T\",\"version\":\"v1\",\"event\":\"CREATED\"}"
    );
}

#[test]
fn entity_envelope_is_written_member_by_member() {
    let p = Product {
        id: "W1".to_string(),
        kind: "T".to_string(),
        name: "Widget".to_string(),
        version: "v1".to_string(),
    };
    assert_eq!(
        product_event_reply_generator(&p),
        b"{\"id\":\"W1\",\"type\":\"T\",\"name\":\"Widget\",\"version\":\"v1\"}".to_vec()
    );
}

#[test]
fn quotes_backslashes_and_controls_are_escaped() {
    let e = event("a\"b", "c\\d", "line\nbreak\ttab\r", "\u{08}\u{0c}", "\u{00}\u{1f}\u{7f}");
    assert_eq!(
        encode_event(&e),
        "{\"id\":\"a\\\"b\",\"name\":\"c\\\\d\",\"type\":\"line\\nbreak\\ttab\\r\",\"version\":\"\\b\\f\",\"event\":\"\\u0000\\u001f\u{7f}\"}"
    );
}

#[test]
fn every_control_character_is_escaped_in_lower_case_hex() {
    let short = ['\u{08}', '\t', '\n', '\u{0c}', '\r'];
    let mut code: u32 = 0;
    while code < 0x20 {
        let c = char::from_u32(code).unwrap();
        if !short.contains(&c) {
            let e = event(&c.to_string(), "", "", "", "");
            let expected = format!(
                "{{\"id\":\"\\u{:04x}\",\"name\":\"\",\"type\":\"\",\"version\":\"\",\"event\":\"\"}}",
                code
            );
            assert_eq!(encode_event(&e), expected);
        }
        code += 1;
    }
}

#[test]
fn characters_beyond_ascii_stand_for_themselves() {
    let e = event("é", "日本", "🙂", "v1", "UPDATED");
    assert_eq!(
        encode_event(&e),
        "{\"id\":\"é\",\"name\":\"日本\",\"type\":\"🙂\",\"version\":\"v1\",\"event\":\"UPDATED\"}"
    );
}

#[test]
fn written_envelope_is_json_with_the_five_members() {
    let e = event("a\"b", "c\\d\n", "T", "v3", "DELETED");
    let value: serde_json::Value = serde_json::from_str(&encode_event(&e)).unwrap();
    let object = value.as_object().unwrap();
    assert_eq!(object.len(), 5);
    assert_eq!(object.get("id").unwrap().as_str(), Some("a\"b"));
    assert_eq!(object.get("name").unwrap().as_str(), Some("c\\d\n"));
    assert_eq!(object.get("type").unwrap().as_str(), Some("T"));
    assert_eq!(object.get("version").unwrap().as_str(), Some("v3"));
    assert_eq!(object.get("event").unwrap().as_str(), Some("DELETED"));
}

#[test]
fn decoding_an_encoded_event_gives_the_event_back() {
    let events = vec![
        event("W1", "Widget", "T", "v1", "CREATED"),
        event("", "", "", "", ""),
        event("a\"b", "c\\d", "line\nbreak\ttab\r", "\u{08}\u{0c}", "\u{00}\u{1f}\u{7f}"),
        event("é", "日本", "🙂", "v10", "UPDATED"),
        event("{\"id\":\"x\"}", "\\u0041", "\\", "\"", "DELETED"),
    ];
    for e in events {
        let bytes = encode_event(&e).into_bytes();
        assert_eq!(decode_event(&bytes), Ok(e));
    }
}

#[test]
fn decoding_an_encoded_entity_gives_the_entity_back() {
    let p = Product {
        id: "W\"1".to_string(),
        kind: "T\\".to_string(),
        name: "Wid\nget".to_string(),
        version: "v1".to_string(),
    };
    let decoded = decode_product(&product_event_reply_generator(&p)).unwrap();
    assert_eq!(decoded.id, Some(p.id));
    assert_eq!(decoded.kind, p.kind);
    assert_eq!(decoded.name, p.name);
    assert_eq!(decoded.version, Some(p.version));
}

#[test]
fn members_may_come_in_any_order_and_with_white_space() {
    let bytes = b" { \"event\" : \"UPDATED\", \"version\":\"v2\",\n\"type\":\"T\", \"name\":\"N\", \"id\":\"I\" } ";
    assert_eq!(decode_event(bytes), Ok(event("I", "N", "T", "v2", "UPDATED")));
}

#[test]
fn unknown_members_are_ignored() {
    let bytes = b"{\"id\":\"I\",\"name\":\"N\",\"type\":\"T\",\"version\":\"v2\",\"event\":\"CREATED\",\"extra\":[1,{\"a\":null}],\"more\":3.5}";
    assert_eq!(decode_event(bytes), Ok(event("I", "N", "T", "v2", "CREATED")));
}

#[test]
fn escapes_are_read_back() {
    let bytes = b"{\"id\":\"\\u0041\\n\",\"name\":\"\\ud83d\\ude42\",\"type\":\"\\/\",\"version\":\"v1\",\"event\":\"CREATED\"}";
    assert_eq!(decode_event(bytes), Ok(event("A\n", "🙂", "/", "v1", "CREATED")));
}

#[test]
fn a_payload_that_is_no_object_is_a_syntax_error() {
    let payloads: Vec<&[u8]> = vec![
        b"",
        b"not json",
        b"[\"I\",\"N\",\"T\",\"v1\",\"CREATED\"]",
        b"\"text\"",
        b"42",
        b"null",
        b"{\"id\":\"I\"",
        b"{\"id\":\"I\",}",
        b"{\"id\":\"I\",\"name\":\"N\",\"type\":\"T\",\"version\":\"v2\",\"event\":\"CREATED\"} x",
        b"\xff\xfe",
    ];
    for payload in payloads {
        assert_eq!(decode_event(payload), Err(DecodeError::Syntax), "{:?}", payload);
        assert_eq!(decode_product(payload), Err(DecodeError::Syntax), "{:?}", payload);
    }
}

#[test]
fn a_missing_member_is_a_field_error() {
    let all = ["id", "name", "type", "version", "event"];
    for missing in all {
        let mut object = serde_json::Map::new();
        for key in all {
            if key != missing {
                object.insert(key.to_string(), serde_json::Value::String("x".to_string()));
            }
        }
        let bytes = serde_json::to_vec(&serde_json::Value::Object(object)).unwrap();
        assert_eq!(decode_event(&bytes), Err(DecodeError::Field), "{}", missing);
    }
    assert_eq!(decode_event(b"{}"), Err(DecodeError::Field));
}

#[test]
fn a_member_that_is_no_string_is_a_field_error() {
    let all = ["id", "name", "type", "version", "event"];
    let wrong = vec![
        serde_json::Value::Null,
        serde_json::Value::Bool(true),
        serde_json::Value::from(7),
        serde_json::Value::Array(vec![]),
        serde_json::Value::Object(serde_json::Map::new()),
    ];
    for bad in all {
        for value in &wrong {
            let mut object = serde_json::Map::new();
            for key in all {
                let v = if key == bad {
                    value.clone()
                } else {
                    serde_json::Value::String("x".to_string())
                };
                object.insert(key.to_string(), v);
            }
            let bytes = serde_json::to_vec(&serde_json::Value::Object(object)).unwrap();
            assert_eq!(decode_event(&bytes), Err(DecodeError::Field), "{} {:?}", bad, value);
        }
    }
}

#[test]
fn an_entity_may_leave_out_id_and_version() {
    let expected = gateway::Product {
        id: None,
        name: "X".to_string(),
        kind: "T".to_string(),
        version: None,
    };
    assert_eq!(decode_product(b"{\"name\":\"X\",\"type\":\"T\"}"), Ok(expected.clone()));
    assert_eq!(
        decode_product(b"{\"id\":null,\"name\":\"X\",\"type\":\"T\",\"version\":null}"),
        Ok(expected)
    );
    assert_eq!(
        decode_product(b"{\"id\":\"W1\",\"name\":\"X\",\"type\":\"T\",\"version\":\"v4\"}"),
        Ok(gateway::Product {
            id: Some("W1".to_string()),
            name: "X".to_string(),
            kind: "T".to_string(),
            version: Some("v4".to_string()),
        })
    );
}

#[test]
fn an_entity_needs_name_and_type_and_strings() {
    let payloads: Vec<&[u8]> = vec![
        b"{\"id\":\"W1\",\"type\":\"T\",\"version\":\"v4\"}",
        b"{\"id\":\"W1\",\"name\":\"X\",\"version\":\"v4\"}",
        b"{\"id\":\"W1\",\"name\":null,\"type\":\"T\"}",
        b"{\"id\":7,\"name\":\"X\",\"type\":\"T\"}",
        b"{\"name\":\"X\",\"type\":\"T\",\"version\":[\"v1\"]}",
        b"{\"name\":\"X\",\"type\":false}",
    ];
    for payload in payloads {
        assert_eq!(decode_product(payload), Err(DecodeError::Field), "{:?}", payload);
    }
}

#[test]
fn fields_found_make_an_event_only_if_all_are_strings() {
    let complete = EnvelopeFields {
        id: text("I"),
        name: text("N"),
        kind: text("T"),
        version: text("v1"),
        event: text("CREATED"),
    };
    assert_eq!(event_from_fields(complete), Ok(event("I", "N", "T", "v1", "CREATED")));
    let holes = vec![None, Some(Field::Null), Some(Field::Other)];
    for hole in holes {
        let fields = EnvelopeFields {
            id: text("I"),
            name: text("N"),
            kind: text("T"),
            version: text("v1"),
            event: hole.clone_for_test(),
        };
        assert_eq!(event_from_fields(fields), Err(DecodeError::Field));
        let fields = EnvelopeFields {
            id: hole,
            name: text("N"),
            kind: text("T"),
            version: text("v1"),
            event: text("CREATED"),
        };
        assert_eq!(event_from_fields(fields), Err(DecodeError::Field));
    }
}

trait CloneForTest {
    fn clone_for_test(&self) -> Self;
}

impl CloneForTest for Option<Field> {
    fn clone_for_test(&self) -> Self {
        match self {
            None => None,
            Some(Field::Null) => Some(Field::Null),
            Some(Field::Text(t)) => Some(Field::Text(t.clone())),
            Some(Field::Other) => Some(Field::Other),
        }
    }
}

#[test]
fn fields_found_make_an_entity() {
    let fields = EntityFields { id: None, name: text("N"), kind: text("T"), version: Some(Field::Null) };
    assert_eq!(
        product_from_fields(fields),
        Ok(gateway::Product { id: None, name: "N".to_string(), kind: "T".to_string(), version: None })
    );
    let fields = EntityFields { id: Some(Field::Other), name: text("N"), kind: text("T"), version: None };
    assert_eq!(product_from_fields(fields), Err(DecodeError::Field));
    let fields = EntityFields { id: text("I"), name: None, kind: text("T"), version: text("v1") };
    assert_eq!(product_from_fields(fields), Err(DecodeError::Field));
}
