use product_bridge::codec::{product_event_reply_generator, DecodeError};
use product_bridge::consumer::{
    product_event_processor, Consumer, DecodePolicy, Delivery, Handled, ProcessError,
};
use product_bridge::event::Action;
use product_bridge::store::{AppState, UnrecognizedAction};

fn envelope(id: &str, kind: &str, name: &str, version: &str, event: Option<&str>) -> serde_json::Value {
    let mut object = serde_json::Map::new();
    object.insert("id".to_string(), serde_json::Value::String(id.to_string()));
    object.insert("type".to_string(), serde_json::Value::String(kind.to_string()));
    object.insert("name".to_string(), serde_json::Value::String(name.to_string()));
    object.insert("version".to_string(), serde_json::Value::String(version.to_string()));
    if let Some(event) = event {
        object.insert("event".to_string(), serde_json::Value::String(event.to_string()));
    }
    serde_json::Value::Object(object)
}

fn payload(id: &str, event: &str) -> Vec<u8> {
    serde_json::to_vec(&envelope(id, "T", "Widget", "v1", Some(event))).unwrap()
}

fn message(bytes: Vec<u8>) -> Delivery {
    Delivery::Message { payload: Some(bytes) }
}

#[test]
fn consumes_a_product_event_update_message() {
    let request = envelope("some-uuid-1234-5678", "Product Range", "Some Product", "v1", Some("UPDATED"));
    let kafka_topic = "products";
    let message_bytes = serde_json::to_vec(&request).unwrap();
    let _message: serde_json::Value = serde_json::from_slice(&message_bytes).unwrap();

    let mut data = AppState::new();
    product_event_processor(&mut data, &message_bytes).unwrap();

    let product = data.get("some-uuid-1234-5678").unwrap();
    println!("{:?}", product);
    assert_eq!(product.id.as_str(), "some-uuid-1234-5678");
    assert_eq!(product.name.clone(), "Some Product".to_string());
    assert_eq!(product.kind.clone(), "Product Range".to_string());
    assert_eq!(product.version.clone(), "v1".to_string());
    assert_eq!(kafka_topic, "products");
}

#[test]
fn consumes_a_product_event_update_message_and_responds() {
    let request = envelope("some-uuid-1234-5678", "Product Range", "Some Product", "v1", Some("UPDATED"));
    let response = envelope("some-uuid-1234-5678", "Product Range", "Some Product", "v1", None);
    let kafka_request_topic = "product_request";
    let request_message_bytes = serde_json::to_vec(&request).unwrap();
    let response_message_bytes = serde_json::to_vec(&response).unwrap();
    let _request_message: serde_json::Value = serde_json::from_slice(&request_message_bytes).unwrap();
    let _response_message: serde_json::Value = serde_json::from_slice(&response_message_bytes).unwrap();

    let mut data = AppState::new();
    product_event_processor(&mut data, &request_message_bytes).unwrap();

    let product = data.get("some-uuid-1234-5678").unwrap();
    println!("{:?}", product);
    assert_eq!(product.id.as_str(), "some-uuid-1234-5678");
    assert_eq!(product.name.clone(), "Some Product".to_string());
    assert_eq!(product.kind.clone(), "Product Range".to_string());
    assert_eq!(product.version.clone(), "v1".to_string());
    assert_eq!(kafka_request_topic, "product_request");

    let actual_response: serde_json::Value =
        serde_json::from_slice(&product_event_reply_generator(product)).unwrap();
    let expected_response: serde_json::Value = serde_json::from_slice(&response_message_bytes).unwrap();
    assert_eq!(expected_response, actual_response);
}

#[test]
fn processor_reports_what_was_applied() {
    let mut data = AppState::new();
    assert_eq!(product_event_processor(&mut data, &payload("W1", "CREATED")), Ok(Action::Created));
    assert_eq!(product_event_processor(&mut data, &payload("W1", "UPDATED")), Ok(Action::Updated));
    assert_eq!(product_event_processor(&mut data, &payload("W1", "DELETED")), Ok(Action::Deleted));
    assert!(data.get("W1").is_none());
}

#[test]
fn processor_leaves_the_store_alone_on_errors() {
    let mut data = AppState::new();
    product_event_processor(&mut data, &payload("W1", "CREATED")).unwrap();
    assert_eq!(
        product_event_processor(&mut data, &payload("W1", "ARCHIVED")),
        Err(ProcessError::UnrecognizedAction)
    );
    assert_eq!(
        product_event_processor(&mut data, b"{\"id\":\"W1\"}"),
        Err(ProcessError::Decode(DecodeError::Field))
    );
    assert_eq!(
        product_event_processor(&mut data, b"<xml/>"),
        Err(ProcessError::Decode(DecodeError::Syntax))
    );
    assert_eq!(data.list().len(), 1);
    assert_eq!(data.get("W1").unwrap().name, "Widget");
}

#[test]
fn transport_errors_and_empty_messages_change_nothing() {
    let mut store = AppState::new();
    let mut consumer = Consumer::new(DecodePolicy::FailFast, true);
    assert_eq!(consumer.handle(&mut store, &Delivery::TransportError), Handled::TransportError);
    assert_eq!(consumer.handle(&mut store, &Delivery::Message { payload: None }), Handled::Skipped);
    assert!(!consumer.stopped);
    assert!(store.list().is_empty());
}

#[test]
fn an_event_is_applied_and_answered() {
    let mut store = AppState::new();
    let mut consumer = Consumer::new(DecodePolicy::Skip, true);
    let handled = consumer.handle(&mut store, &message(payload("W1", "CREATED")));
    assert_eq!(
        handled,
        Handled::Applied {
            outcome: Ok(Action::Created),
            reply: Some(b"{\"id\":\"W1\",\"type\":\"T\",\"name\":\"Widget\",\"version\":\"v1\"}".to_vec()),
        }
    );
    assert_eq!(store.get("W1").unwrap().version, "v1");
}

#[test]
fn a_consumer_without_replies_sends_none() {
    let mut store = AppState::new();
    let mut consumer = Consumer::new(DecodePolicy::Skip, false);
    let handled = consumer.handle(&mut store, &message(payload("W1", "UPDATED")));
    assert_eq!(handled, Handled::Applied { outcome: Ok(Action::Updated), reply: None });
    assert!(store.get("W1").is_some());
}

#[test]
fn an_unrecognized_event_is_answered_but_not_applied() {
    let mut store = AppState::new();
    let mut consumer = Consumer::new(DecodePolicy::Skip, true);
    let handled = consumer.handle(&mut store, &message(payload("W1", "ARCHIVED")));
    assert_eq!(
        handled,
        Handled::Applied {
            outcome: Err(UnrecognizedAction),
            reply: Some(b"{\"id\":\"W1\",\"type\":\"T\",\"name\":\"Widget\",\"version\":\"v1\"}".to_vec()),
        }
    );
    assert!(store.list().is_empty());
}

#[test]
fn fail_fast_stops_at_the_first_undecodable_payload() {
    let mut store = AppState::new();
    let mut consumer = Consumer::new(DecodePolicy::FailFast, true);
    let handled = consumer.handle(&mut store, &message(b"oops".to_vec()));
    assert_eq!(handled, Handled::Undecodable { error: DecodeError::Syntax, stop: true });
    assert!(consumer.stopped);
    assert_eq!(consumer.handle(&mut store, &message(payload("W1", "CREATED"))), Handled::Stopped);
    assert_eq!(consumer.handle(&mut store, &Delivery::TransportError), Handled::Stopped);
    assert!(store.list().is_empty());
}

#[test]
fn skip_reports_an_undecodable_payload_and_goes_on() {
    let mut store = AppState::new();
    let mut consumer = Consumer::new(DecodePolicy::Skip, false);
    let handled = consumer.handle(&mut store, &message(b"{\"id\":1}".to_vec()));
    assert_eq!(handled, Handled::Undecodable { error: DecodeError::Field, stop: false });
    assert!(!consumer.stopped);
    let handled = consumer.handle(&mut store, &message(payload("W1", "CREATED")));
    assert_eq!(handled, Handled::Applied { outcome: Ok(Action::Created), reply: None });
    assert_eq!(store.list().len(), 1);
}

#[test]
fn events_are_applied_in_the_order_of_delivery() {
    let mut store = AppState::new();
    let mut consumer = Consumer::new(DecodePolicy::Skip, false);
    for (id, event) in [("a", "CREATED"), ("b", "CREATED"), ("a", "DELETED"), ("a", "UPDATED"), ("b", "DELETED")] {
        consumer.handle(&mut store, &message(payload(id, event)));
    }
    assert!(store.get("a").is_some());
    assert!(store.get("b").is_none());
}
