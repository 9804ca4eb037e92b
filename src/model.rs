use vstd::prelude::*;

verus! {

/// One sample of a stream, stamped in milliseconds since the Unix epoch (UTC).
#[derive(Clone, Copy, Debug, PartialEq, Eq, Structural)]
pub struct Event {
    pub timestamp: i64,
}

/// Which store backs a stream.
#[derive(Clone, Copy, Debug, PartialEq, Eq, Structural)]
pub enum StoreType {
    InProcessMemory,
    Redis,
}

/// Which decoder turns wire bytes into envelopes.
#[derive(Clone, Copy, Debug, PartialEq, Eq, Structural)]
pub enum DeserializerType {
    Json,
}

/// Broker endpoint and topics of one service.
#[derive(Clone, Debug)]
pub struct Protocol {
    pub name: String,
    pub port: u32,
    pub pub_topic: String,
    pub sub_topics: Vec<String>,
}

/// Configuration of one service; fixed once the service is built.
#[derive(Clone, Debug)]
pub struct ServiceInfo {
    pub name: String,
    pub debug: bool,
    pub host: String,
    pub protocol: Protocol,
    pub deserializer: DeserializerType,
}

/// Configuration of one stream. The sensor id is the stream's key within a service.
#[derive(Clone, Debug)]
pub struct StreamInfo {
    pub name: String,
    pub sensor_id: String,
    pub store_type: StoreType,
}

/// What went wrong: unclassified, a synchronisation failure, or the transport.
#[derive(Clone, Copy, Debug, PartialEq, Eq, Structural)]
pub enum ErrorKind {
    General,
    Thread,
    Mqtt,
}

#[derive(Clone, Debug)]
pub struct ProtocolError {
    pub kind: ErrorKind,
    pub msg: String,
}

impl ProtocolError {
    pub fn new(kind: ErrorKind, msg: &str) -> (r: ProtocolError)
        ensures
            r.kind == kind,
            r.msg@ == msg@,
    {
        ProtocolError { kind, msg: msg.to_string() }
    }
}

/// A stream bound to a service, named after both.
#[derive(Clone, Debug)]
pub struct Route {
    pub service_name: String,
    pub stream_name: String,
}

/// The category of an envelope on the wire.
#[derive(Clone, Copy, Debug, PartialEq, Eq, Structural)]
pub enum MsgType {
    SensorData,
    Config,
}

} // verus!
