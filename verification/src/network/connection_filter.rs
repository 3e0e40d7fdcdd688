//! The access-control policy evaluator: decides from the configured IP and
//! port filters whether a connecting peer may proceed. Stateless after
//! construction and performs no I/O.

use vstd::prelude::*;

use crate::configuration::types::{IpAddress, IpFilter, PortFilter};

verus! {

/// Decides whether a connecting peer may proceed, purely from the configured
/// IP policy and port policy.
#[derive(Clone, Debug)]
pub struct ConnectionFilter {
    pub ip_filter: IpFilter,
    pub port_filter: PortFilter,
}

impl ConnectionFilter {
    /// The whole decision: the IP policy and the port policy must both accept.
    pub open spec fn accepts(self, ip: IpAddress, port: u16) -> bool {
        self.ip_filter.allows(ip) && self.port_filter.allows(port)
    }

    pub fn new(ip_filter: IpFilter, port_filter: PortFilter) -> (r: Self)
        ensures
            r.ip_filter == ip_filter,
            r.port_filter == port_filter,
    {
        ConnectionFilter { ip_filter, port_filter }
    }

    /// Decides whether a peer at `client_addr` connecting to local `port` may
    /// proceed. Total: returns a verdict for every address and port.
    pub fn should_accept_connection(&self, client_addr: &IpAddress, port: u16) -> (r: bool)
        ensures
            r == self.accepts(*client_addr, port),
    {
        if !(self.is_ip_allowed(client_addr) && self.is_port_allowed(port)) {
            return false;
        }
        true
    }

    /// The IP half: in whitelist mode the address must lie in every allowed
    /// range; in blacklist mode it must lie in no blocked range.
    fn is_ip_allowed(&self, ip: &IpAddress) -> (r: bool)
        ensures
            r == self.ip_filter.allows(*ip),
    {
        let mut result = true;
        if self.ip_filter.whitelist_mode {
            let n = self.ip_filter.allowed_ranges.len();
            for k in 0..n
                invariant
                    n == self.ip_filter.allowed_ranges@.len(),
                    result == forall|i: int|
                        0 <= i < k ==> #[trigger] self.ip_filter.allowed_ranges@[i].spec_contains(*ip),
            {
                if !self.ip_filter.allowed_ranges[k].contains(ip) {
                    result = false;
                }
            }
            result
        } else {
            let n = self.ip_filter.blocked_ranges.len();
            for k in 0..n
                invariant
                    n == self.ip_filter.blocked_ranges@.len(),
                    result == forall|i: int|
                        0 <= i < k ==> !(#[trigger] self.ip_filter.blocked_ranges@[i].spec_contains(*ip)),
            {
                if self.ip_filter.blocked_ranges[k].contains(ip) {
                    result = false;
                }
            }
            result
        }
    }

    /// The port half, blacklist-biased: the port must lie in every allowed
    /// range, and a blocked range can only move the verdict from accept to
    /// reject, never back.
    fn is_port_allowed(&self, port: u16) -> (r: bool)
        ensures
            r == self.port_filter.allows(port),
    {
        let mut result = true;
        let n = self.port_filter.allowed_ports.len();
        for k in 0..n
            invariant
                n == self.port_filter.allowed_ports@.len(),
                result == forall|i: int|
                    0 <= i < k ==> #[trigger] self.port_filter.allowed_ports@[i].spec_contains(port),
        {
            if !self.port_filter.allowed_ports[k].contains(port) {
                result = false;
            }
        }

        let allowed_so_far = result;
        let m = self.port_filter.blocked_ports.len();
        for k in 0..m
            invariant
                m == self.port_filter.blocked_ports@.len(),
                result == (allowed_so_far && forall|i: int|
                    0 <= i < k ==> !(#[trigger] self.port_filter.blocked_ports@[i].spec_contains(port))),
        {
            if self.port_filter.blocked_ports[k].contains(port) {
                result = false;
            }
        }
        result
    }
}

impl Default for ConnectionFilter {
    /// The default policy accepts every address (blacklist mode, nothing
    /// blocked) and every non-zero port.
    fn default() -> (r: Self)
        ensures
            r.ip_filter.is_default(),
            r.port_filter.is_default(),
    {
        ConnectionFilter { ip_filter: IpFilter::default(), port_filter: PortFilter::default() }
    }
}

/// The filter decision is a pure function of the filter configuration and the
/// inputs: any two evaluations of the same filter on the same address and
/// port agree. Together with the postcondition of `should_accept_connection`,
/// repeated calls with identical inputs always return the same verdict.
pub proof fn lemma_filter_decision_deterministic(
    f: ConnectionFilter,
    ip: IpAddress,
    port: u16,
    r1: bool,
    r2: bool,
)
    requires
        r1 == f.accepts(ip, port),
        r2 == f.accepts(ip, port),
    ensures
        r1 == r2,
{
}

/// Under the default port policy — one allowed range covering 1 through
/// 65535 and no blocked ranges — every non-zero port is accepted.
pub proof fn lemma_default_port_filter_allows_all(f: PortFilter, port: u16)
    requires
        f.is_default(),
        1 <= port,
    ensures
        f.allows(port),
{
    assert(f.allowed_ports@[0].spec_contains(port));
}

} // verus!
