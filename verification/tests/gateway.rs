use product_bridge::codec::{decode_event, DecodeError};
use product_bridge::event::Action;
use product_bridge::gateway::{
    create_event, create_event_with_id, start_call, Call, CallAction, CallEvent, CallState,
    GatewayConfig, GatewayError, Product,
};
use product_bridge::version::MalformedVersion;

fn product(id: Option<&str>, name: &str, kind: &str, version: Option<&str>) -> Product {
    Product {
        id: id.map(|s| s.to_string()),
        name: name.to_string(),
        kind: kind.to_string(),
        version: version.map(|s| s.to_string()),
    }
}

fn is_uuid_text(text: &str) -> bool {
    let chars: Vec<char> = text.chars().collect();
    chars.len() == 36
        && chars.iter().enumerate().all(|(i, c)| {
            if i == 8 || i == 13 || i == 18 || i == 23 {
                *c == '-'
            } else {
                c.is_ascii_digit() || ('a'..='f').contains(c)
            }
        })
        && chars[14] == '4'
        && ['8', '9', 'a', 'b'].contains(&chars[19])
}

fn waiting(deadline: u64) -> Call {
    Call { request_id: "r".to_string(), timeout_ms: 5000, state: CallState::RequestSent { deadline } }
}

#[test]
fn verifies_api_produces_correct_messages_for_consumers() {
    let p = product(Some("some-uuid-1234-5678"), "Some Product", "Product Range", Some("v1"));
    let event = create_event(p, "UPDATED").unwrap();
    assert_eq!(event.id, "some-uuid-1234-5678");
    assert_eq!(event.name, "Some Product");
    assert_eq!(event.kind, "Product Range");
    assert_eq!(event.version, "v2");
    assert_eq!(event.event, "UPDATED");
}

#[test]
fn an_entity_without_id_and_version_gets_a_fresh_id_and_v1() {
    let event = create_event(product(None, "X", "T", None), "CREATED").unwrap();
    assert!(!event.id.is_empty());
    assert!(is_uuid_text(&event.id), "{}", event.id);
    assert_eq!(event.version, "v1");
    assert_eq!(event.name, "X");
    assert_eq!(event.kind, "T");
    assert_eq!(event.event, "CREATED");
}

#[test]
fn fresh_ids_differ_from_call_to_call() {
    let a = create_event(product(None, "X", "T", None), "CREATED").unwrap();
    let b = create_event(product(None, "X", "T", None), "CREATED").unwrap();
    assert_ne!(a.id, b.id);
}

#[test]
fn a_malformed_version_fails_the_composition() {
    assert_eq!(create_event(product(Some("W1"), "X", "T", Some("bogus")), "UPDATED"), Err(MalformedVersion));
    assert_eq!(create_event(product(None, "X", "T", Some("1")), "UPDATED"), Err(MalformedVersion));
    assert_eq!(
        create_event_with_id(product(None, "X", "T", Some("")), "UPDATED", "F".to_string()),
        Err(MalformedVersion)
    );
}

#[test]
fn the_given_id_is_used_only_where_the_entity_has_none() {
    let e = create_event_with_id(product(None, "X", "T", Some("v9")), "UPDATED", "F".to_string()).unwrap();
    assert_eq!((e.id.as_str(), e.version.as_str()), ("F", "v10"));
    let e = create_event_with_id(product(Some("P"), "X", "T", None), "DELETED", "F".to_string()).unwrap();
    assert_eq!((e.id.as_str(), e.version.as_str(), e.event.as_str()), ("P", "v1", "DELETED"));
}

#[test]
fn the_default_wait_is_five_seconds() {
    assert_eq!(GatewayConfig::default().reply_timeout_ms, 5000);
}

#[test]
fn starting_a_call_composes_the_request() {
    let config = GatewayConfig::default();
    let (call, request) = start_call(product(Some("W1"), "X", "T", Some("v1")), Action::Updated, &config).unwrap();
    assert_eq!(call.state, CallState::Idle);
    assert_eq!(call.timeout_ms, 5000);
    assert_eq!(call.request_id, request.key);
    assert!(is_uuid_text(&request.key));
    assert_eq!(
        request.payload,
        "{\"id\":\"W1\",\"name\":\"X\",\"type\":\"T\",\"version\":\"v2\",\"event\":\"UPDATED\"}"
    );
    let event = decode_event(request.payload.as_bytes()).unwrap();
    assert_eq!(event.event, "UPDATED");
}

#[test]
fn starting_a_call_with_a_malformed_version_fails() {
    let config = GatewayConfig::default();
    let res = start_call(product(Some("W1"), "X", "T", Some("one")), Action::Created, &config);
    assert_eq!(res.err(), Some(GatewayError::MalformedVersion));
}

#[test]
fn a_call_without_a_reply_times_out() {
    let config = GatewayConfig { reply_timeout_ms: 5000 };
    let (mut call, _request) = start_call(product(None, "X", "T", None), Action::Created, &config).unwrap();
    assert_eq!(call.step(CallEvent::Published { now: 1000 }), CallAction::Wait { millis: 5000 });
    assert_eq!(call.state, CallState::RequestSent { deadline: 6000 });
    assert_eq!(call.step(CallEvent::Tick { now: 5999 }), CallAction::Wait { millis: 1 });
    let action = call.step(CallEvent::Tick { now: 6000 });
    assert_eq!(action, CallAction::Fail(GatewayError::Timeout));
    assert_ne!(action, CallAction::Fail(GatewayError::PublishFailed));
    assert_eq!(call.state, CallState::TimedOut);
    assert!(call.is_finished());
}

#[test]
fn a_failed_publish_ends_the_call_at_once() {
    let (mut call, _) = start_call(product(None, "X", "T", None), Action::Created, &GatewayConfig::default()).unwrap();
    assert_eq!(call.step(CallEvent::PublishFailed), CallAction::Fail(GatewayError::PublishFailed));
    assert_eq!(call.state, CallState::Failed);
    assert_eq!(call.step(CallEvent::Published { now: 0 }), CallAction::Nothing);
    assert_eq!(call.state, CallState::Failed);
}

#[test]
fn the_first_entity_seen_in_time_is_accepted() {
    let mut call = waiting(6000);
    let reply = b"{\"id\":\"W1\",\"name\":\"X\",\"type\":\"T\",\"version\":\"v1\"}";
    let action = call.on_message(Some(reply), 2000);
    assert_eq!(action, CallAction::Accept(product(Some("W1"), "X", "T", Some("v1"))));
    assert_eq!(call.state, CallState::ReplyReceived);
    assert_eq!(call.on_message(Some(reply), 2001), CallAction::Nothing);
}

#[test]
fn a_reply_to_another_request_is_accepted_all_the_same() {
    let config = GatewayConfig::default();
    let (mut call, request) = start_call(product(Some("mine"), "X", "T", None), Action::Created, &config).unwrap();
    assert!(request.payload.contains("\"id\":\"mine\""));
    call.step(CallEvent::Published { now: 0 });
    let other = b"{\"id\":\"theirs\",\"name\":\"Y\",\"type\":\"U\",\"version\":\"v7\"}";
    assert_eq!(
        call.on_message(Some(other), 10),
        CallAction::Accept(product(Some("theirs"), "Y", "U", Some("v7")))
    );
}

#[test]
fn messages_that_carry_no_entity_are_passed_over() {
    let mut call = waiting(6000);
    assert_eq!(call.on_message(None, 1000), CallAction::Wait { millis: 5000 });
    assert_eq!(
        call.on_message(Some(b"garbage"), 2000),
        CallAction::SkipAndWait { error: DecodeError::Syntax, millis: 4000 }
    );
    assert_eq!(
        call.on_message(Some(b"{\"id\":\"W1\"}"), 3000),
        CallAction::SkipAndWait { error: DecodeError::Field, millis: 3000 }
    );
    assert_eq!(call.state, CallState::RequestSent { deadline: 6000 });
    assert_eq!(call.on_message(Some(b"garbage"), 6000), CallAction::Fail(GatewayError::Timeout));
    assert_eq!(call.state, CallState::TimedOut);
}

#[test]
fn a_reply_at_the_deadline_is_too_late() {
    let mut call = waiting(6000);
    let reply = b"{\"id\":\"W1\",\"name\":\"X\",\"type\":\"T\",\"version\":\"v1\"}";
    assert_eq!(call.on_message(Some(reply), 6000), CallAction::Fail(GatewayError::Timeout));
    let mut call = waiting(6000);
    assert_eq!(
        call.step(CallEvent::Reply { entity: Ok(product(None, "X", "T", None)), now: 5999 }),
        CallAction::Accept(product(None, "X", "T", None))
    );
}

#[test]
fn a_failure_of_the_reply_stream_ends_the_call() {
    let mut call = waiting(6000);
    assert_eq!(call.step(CallEvent::StreamFailed), CallAction::Fail(GatewayError::Transport));
    assert_eq!(call.state, CallState::Failed);
}

#[test]
fn events_out_of_place_do_nothing() {
    let mut call = Call { request_id: "r".to_string(), timeout_ms: 10, state: CallState::Idle };
    assert_eq!(call.step(CallEvent::Tick { now: 1 }), CallAction::Nothing);
    assert_eq!(call.step(CallEvent::StreamFailed), CallAction::Nothing);
    assert_eq!(call.on_message(None, 5), CallAction::Nothing);
    assert_eq!(call.state, CallState::Idle);
    let mut call = waiting(100);
    assert_eq!(call.step(CallEvent::PublishFailed), CallAction::Nothing);
    assert_eq!(call.step(CallEvent::Published { now: 1 }), CallAction::Nothing);
    assert_eq!(call.state, CallState::RequestSent { deadline: 100 });
    assert!(!call.is_finished());
}

#[test]
fn the_deadline_stops_at_the_end_of_the_clock() {
    let mut call = Call { request_id: "r".to_string(), timeout_ms: 5000, state: CallState::Idle };
    let now = u64::MAX - 10;
    assert_eq!(call.step(CallEvent::Published { now }), CallAction::Wait { millis: 10 });
    assert_eq!(call.state, CallState::RequestSent { deadline: u64::MAX });
}

#[test]
fn a_wait_of_nothing_times_out_when_the_request_is_confirmed() {
    let mut call = Call { request_id: "r".to_string(), timeout_ms: 0, state: CallState::Idle };
    assert_eq!(call.step(CallEvent::Published { now: 7 }), CallAction::Fail(GatewayError::Timeout));
    assert_eq!(call.state, CallState::TimedOut);
}
