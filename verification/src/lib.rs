//! A bridge between synchronous request/response calls and an asynchronous
//! publish/subscribe bus, together with the read-optimised view that the bus
//! keeps up to date.
//!
//! The crate holds the decisions of that bridge and proves them:
//!
//! * [`version`]: the version sequencer (`v1`, `v2`, ...);
//! * [`event`]: the events that travel on the bus;
//! * [`store`]: the materialized view, changed only by applying events;
//! * [`codec`]: the wire envelope of an event and of an entity, on top of
//!   [`json`], which is where `serde_json` is called;
//! * [`consumer`]: what the consumer loop does with each delivery;
//! * [`gateway`]: composing a request and the life of one request/reply call.
//!
//! Reading from and writing to the bus, timers and the HTTP surface are left
//! to the program around the library, which performs the actions that the
//! step functions here hand out.

pub mod codec;
pub mod consumer;
pub mod event;
pub mod gateway;
pub mod json;
pub mod store;
pub mod text;
pub mod version;
