//! A bridge between local producer/consumer processes and a remote event
//! endpoint: message model, codec, topic registry and the decision logic of
//! each directional loop and of the connection supervisor.

pub mod models;
pub mod codec;
pub mod registry;
pub mod bridge;
pub mod connection;
