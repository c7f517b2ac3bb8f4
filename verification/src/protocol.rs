//! The wire protocol spoken with external connector processes.
use vstd::prelude::*;
use crate::error::Error;
use crate::text::{decimal, is_blank, is_blank_str, owned, push_decimal, push_str, utf8_len};

verus! {

broadcast use vstd::string::group_string_axioms;

/// Wire protocol version for external connector processes.
pub const CONNECTOR_PROTOCOL_VERSION: u32 = 1;

/// Maximum accepted serialized frame size in bytes.
pub const MAX_CONNECTOR_FRAME_BYTES: usize = 262144;

#[derive(Debug, Clone, Copy, PartialEq, Eq, Structural)]
pub enum ConnectorCapability {
    SendMessage,
    ReceiveMessages,
    HealthCheck,
    Attachments,
}

/// The connection state of a messaging channel.
#[derive(Debug, Clone, PartialEq, Eq)]
pub enum ChannelStatus {
    Disconnected,
    Connecting,
    Connected,
    Reconnecting,
    Error(String),
}

#[derive(Debug, Clone, PartialEq, Eq)]
pub struct ConnectorHandshake {
    pub protocol_version: u32,
    pub connector_name: String,
    pub connector_version: String,
    pub channel_type: String,
    pub capabilities: Vec<ConnectorCapability>,
}

/// "unsupported protocol version {v}, expected {CONNECTOR_PROTOCOL_VERSION}"
pub open spec fn version_error(v: u32) -> Seq<char> {
    "unsupported protocol version "@ + decimal(v as nat) + ", expected "@ + decimal(
        CONNECTOR_PROTOCOL_VERSION as nat,
    )
}

/// The message of the error that `validate` reports, by the check that failed.
pub open spec fn handshake_error_message(h: ConnectorHandshake) -> Seq<char> {
    if h.protocol_version != CONNECTOR_PROTOCOL_VERSION {
        version_error(h.protocol_version)
    } else if is_blank(h.connector_name@) {
        "connector_name cannot be empty"@
    } else if is_blank(h.connector_version@) {
        "connector_version cannot be empty"@
    } else {
        "channel_type cannot be empty"@
    }
}

/// Whether a handshake is acceptable: the expected protocol version and non-blank
/// connector name, connector version and channel type.
pub open spec fn handshake_valid(h: ConnectorHandshake) -> bool {
    &&& h.protocol_version == CONNECTOR_PROTOCOL_VERSION
    &&& !is_blank(h.connector_name@)
    &&& !is_blank(h.connector_version@)
    &&& !is_blank(h.channel_type@)
}

impl ConnectorHandshake {
    /// Checks the protocol version and that the names are not blank.
    pub fn validate(&self) -> (r: Result<(), Error>)
        ensures
            r is Ok <==> handshake_valid(*self),
            r matches Err(e) ==> e is Channel && e->Channel_0@
                == handshake_error_message(*self),
    {
        if self.protocol_version != CONNECTOR_PROTOCOL_VERSION {
            let mut m = owned("unsupported protocol version ");
            push_decimal(&mut m, self.protocol_version as u64);
            push_str(&mut m, ", expected ");
            push_decimal(&mut m, CONNECTOR_PROTOCOL_VERSION as u64);
            return Err(Error::Channel(m));
        }
        if is_blank_str(self.connector_name.as_str()) {
            return Err(Error::Channel(owned("connector_name cannot be empty")));
        }
        if is_blank_str(self.connector_version.as_str()) {
            return Err(Error::Channel(owned("connector_version cannot be empty")));
        }
        if is_blank_str(self.channel_type.as_str()) {
            return Err(Error::Channel(owned("channel_type cannot be empty")));
        }
        Ok(())
    }
}

/// "connector frame exceeds max size: {n} > {MAX_CONNECTOR_FRAME_BYTES}"
pub open spec fn frame_size_error(n: nat) -> Seq<char> {
    "connector frame exceeds max size: "@ + decimal(n) + " > "@ + decimal(
        MAX_CONNECTOR_FRAME_BYTES as nat,
    )
}

/// The size check made on a connector frame line before it is decoded: lines of
/// more than `MAX_CONNECTOR_FRAME_BYTES` bytes are refused.
pub fn check_frame_size(line: &str) -> (r: Result<(), Error>)
    ensures
        r is Ok <==> utf8_len(line@) as usize <= MAX_CONNECTOR_FRAME_BYTES,
        r matches Err(e) ==> e is Channel && e->Channel_0@ == frame_size_error(
            utf8_len(line@) as usize as nat,
        ),
{
    let n = line.len();
    if n > MAX_CONNECTOR_FRAME_BYTES {
        let mut m = owned("connector frame exceeds max size: ");
        push_decimal(&mut m, n as u64);
        push_str(&mut m, " > ");
        push_decimal(&mut m, MAX_CONNECTOR_FRAME_BYTES as u64);
        return Err(Error::Channel(m));
    }
    Ok(())
}

} // verus!
