//! Data types shared by the network core: the per-port detection pattern, the
//! socket address of a peer, and the session request handed to the session
//! layer.

use vstd::prelude::*;

use crate::configuration::types::Protocol;

verus! {

/// The detection pattern derived from one service catalog entry: the service
/// name, the port it listens on, and the text fragments whose presence in a
/// peer's first bytes identifies the service.
#[derive(Clone, Debug)]
pub struct ServicePattern {
    pub service_name: String,
    pub port: u16,
    pub protocol: Protocol,
    pub header_patterns: Vec<String>,
    pub banner_patterns: Vec<String>,
}

/// A peer's socket address: its IP address and remote port.
#[derive(Clone, Copy, PartialEq, Eq, Structural, Debug)]
pub struct SocketAddress {
    pub ip: crate::configuration::types::IpAddress,
    pub port: u16,
}

/// What the network core hands to the session layer for one accepted,
/// identified connection: exclusive ownership of the connection handle, the
/// detected service, the peer's address, and the moment of detection in
/// milliseconds since the epoch.
pub struct SessionRequest<S> {
    pub stream: S,
    pub service_name: String,
    pub client_addr: SocketAddress,
    pub timestamp_millis: i64,
}

impl<S> SessionRequest<S> {
    /// Builds the request for the session layer; every field carries exactly
    /// what the caller supplied, in particular the peer address of the
    /// originating connection.
    pub fn new(stream: S, service_name: String, client_addr: SocketAddress, timestamp_millis: i64) -> (r: Self)
        ensures
            r.stream == stream,
            r.service_name == service_name,
            r.client_addr == client_addr,
            r.timestamp_millis == timestamp_millis,
    {
        SessionRequest { stream, service_name, client_addr, timestamp_millis }
    }
}

} // verus!
