use vstd::prelude::*;

verus! {

/// A structured JSON value. Unsigned integers are held as such; any other
/// number is kept as its literal text, so the value carries no floating-point
/// data.
#[derive(Debug, PartialEq, Eq)]
pub enum Json {
    Null,
    Bool(bool),
    UInt(u64),
    Number(String),
    Str(String),
    Array(Vec<Json>),
    Object(Vec<(String, Json)>),
}

/// A data payload stamped with its capture time.
pub struct Data {
    pub seconds_since_unix: u64,
    pub nano_seconds: u32,
    pub data: Json,
}

/// A message bound for the remote endpoint, in flat form.
pub struct OutboundMessage {
    pub event_type: String,
    pub topics: Vec<String>,
    pub data: Json,
}

/// What a local producer sends to the daemon.
#[derive(Debug, PartialEq, Eq)]
pub enum ClientMessage {
    Data { topics: Vec<String>, data: Json },
    Register { topics: Vec<String> },
    Close,
    WebsocketClose,
}

/// What the daemon hands to local listeners.
#[derive(Debug, PartialEq, Eq)]
pub enum InboundMessage {
    Data(String),
    Restart,
    Close,
}

/// The payload sent to the remote endpoint.
#[derive(Debug, PartialEq, Eq)]
pub enum Event {
    Message { seconds_since_unix: u64, nano_seconds: u32, topics: Vec<String>, data: Json },
    Register { topics: Vec<String> },
}

/// What producers hand to the remote-outbound loop.
#[derive(Debug, PartialEq, Eq)]
pub enum Request {
    Data(Event),
    Close,
    Pong(Vec<u8>),
}

/// The identity presented to the remote endpoint on each connection attempt.
#[derive(Clone, Debug)]
pub struct ClientInformation {
    pub device_id: String,
    pub device_type_id: String,
    pub account_id: String,
    pub api_key: String,
}

impl ClientInformation {
    pub fn new(device_id: &str, device_type_id: &str, account_id: &str, api_key: &str) -> (r:
        ClientInformation)
        ensures
            r.device_id@ == device_id@,
            r.device_type_id@ == device_type_id@,
            r.account_id@ == account_id@,
            r.api_key@ == api_key@,
    {
        ClientInformation {
            device_id: device_id.to_owned(),
            device_type_id: device_type_id.to_owned(),
            account_id: account_id.to_owned(),
            api_key: api_key.to_owned(),
        }
    }
}

} // verus!
