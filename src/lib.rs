//! Client side of a local automation-agent protocol: the wire codec, the
//! command/streaming client's state machine and the event bus that fans
//! inbound chat events out to independent consumers.

pub mod wire;
pub mod envelope;
pub mod messages;
pub mod bus;
pub mod protocol;
pub mod client;
pub mod text;
pub mod queries;
pub mod handlers;
pub mod media;
