//! Value objects consumed by the network core: IP addresses and ranges, port
//! ranges, the IP and port filter policies, and the service catalog entries.

use vstd::prelude::*;

verus! {

/// An IP address, held as the numeric value of its octets. A version 4
/// address is its 32-bit value, a version 6 address its 128-bit value.
/// Addresses are totally ordered: every version 4 address sorts before every
/// version 6 address, and addresses of one family sort numerically.
#[derive(Clone, Copy, PartialEq, Eq, Structural, Debug)]
pub enum IpAddress {
    V4(u32),
    V6(u128),
}

/// The total order on addresses: version 4 before version 6, numeric within
/// one family.
pub open spec fn ip_le(a: IpAddress, b: IpAddress) -> bool {
    match (a, b) {
        (IpAddress::V4(x), IpAddress::V4(y)) => x <= y,
        (IpAddress::V4(_), IpAddress::V6(_)) => true,
        (IpAddress::V6(_), IpAddress::V4(_)) => false,
        (IpAddress::V6(x), IpAddress::V6(y)) => x <= y,
    }
}

impl IpAddress {
    /// Decides `ip_le` on concrete addresses.
    pub fn le(&self, other: &IpAddress) -> (r: bool)
        ensures
            r == ip_le(*self, *other),
    {
        match (self, other) {
            (IpAddress::V4(x), IpAddress::V4(y)) => *x <= *y,
            (IpAddress::V4(_), IpAddress::V6(_)) => true,
            (IpAddress::V6(_), IpAddress::V4(_)) => false,
            (IpAddress::V6(x), IpAddress::V6(y)) => *x <= *y,
        }
    }
}

/// An inclusive range of IP addresses.
#[derive(Clone, Copy, PartialEq, Eq, Structural, Debug)]
pub struct IpRange {
    pub start: IpAddress,
    pub end: IpAddress,
}

impl IpRange {
    /// Membership in the inclusive range under the address order.
    pub open spec fn spec_contains(self, ip: IpAddress) -> bool {
        ip_le(self.start, ip) && ip_le(ip, self.end)
    }

    /// The range covering the whole version 4 address space.
    pub open spec fn is_full_v4(self) -> bool {
        self.start == IpAddress::V4(0u32) && self.end == IpAddress::V4(0xFFFF_FFFFu32)
    }

    /// Decides membership in the inclusive range.
    pub fn contains(&self, ip: &IpAddress) -> (r: bool)
        ensures
            r == self.spec_contains(*ip),
    {
        self.start.le(ip) && ip.le(&self.end)
    }
}

impl Default for IpRange {
    /// The default range covers the whole version 4 address space.
    fn default() -> (r: Self)
        ensures
            r.is_full_v4(),
    {
        IpRange { start: IpAddress::V4(0), end: IpAddress::V4(0xFFFF_FFFF) }
    }
}

/// The IP half of the connection policy. In whitelist mode an address is
/// accepted only if it lies in every allowed range; otherwise it is accepted
/// unless it lies in some blocked range.
#[derive(Clone, PartialEq, Debug)]
pub struct IpFilter {
    pub allowed_ranges: Vec<IpRange>,
    pub blocked_ranges: Vec<IpRange>,
    pub whitelist_mode: bool,
}

impl IpFilter {
    /// Whether the policy accepts `ip`. In whitelist mode, membership in
    /// every allowed range is required (vacuously true with no ranges); in
    /// blacklist mode, membership in any blocked range rejects.
    pub open spec fn allows(self, ip: IpAddress) -> bool {
        if self.whitelist_mode {
            forall|i: int|
                0 <= i < self.allowed_ranges@.len() ==> #[trigger] self.allowed_ranges@[i].spec_contains(ip)
        } else {
            forall|i: int|
                0 <= i < self.blocked_ranges@.len() ==> !(#[trigger] self.blocked_ranges@[i].spec_contains(ip))
        }
    }

    /// The default policy: one allowed range covering the version 4 space,
    /// nothing blocked, blacklist mode.
    pub open spec fn is_default(self) -> bool {
        &&& self.allowed_ranges@.len() == 1
        &&& self.allowed_ranges@[0].is_full_v4()
        &&& self.blocked_ranges@.len() == 0
        &&& !self.whitelist_mode
    }
}

impl Default for IpFilter {
    fn default() -> (r: Self)
        ensures
            r.is_default(),
    {
        let mut allowed: Vec<IpRange> = Vec::new();
        allowed.push(IpRange::default());
        IpFilter { allowed_ranges: allowed, blocked_ranges: Vec::new(), whitelist_mode: false }
    }
}

/// An inclusive range of TCP or UDP ports.
#[derive(Clone, Copy, PartialEq, Eq, Structural, Debug)]
pub struct PortRange {
    pub start: u16,
    pub end: u16,
}

impl PortRange {
    /// Membership in the inclusive range.
    pub open spec fn spec_contains(self, port: u16) -> bool {
        self.start <= port <= self.end
    }

    /// The range of all non-zero ports.
    pub open spec fn is_full(self) -> bool {
        self.start == 1 && self.end == 65535
    }

    /// Decides membership in the inclusive range.
    pub fn contains(&self, port: u16) -> (r: bool)
        ensures
            r == self.spec_contains(port),
    {
        self.start <= port && port <= self.end
    }
}

impl Default for PortRange {
    /// The default range covers every non-zero port.
    fn default() -> (r: Self)
        ensures
            r.is_full(),
    {
        PortRange { start: 1, end: 65535 }
    }
}

/// The port half of the connection policy. A port is accepted only if it lies
/// in every allowed range and in no blocked range; a blocked range can only
/// reject, never readmit.
#[derive(Clone, PartialEq, Debug)]
pub struct PortFilter {
    pub allowed_ports: Vec<PortRange>,
    pub blocked_ports: Vec<PortRange>,
}

impl PortFilter {
    /// Whether the policy accepts `port`: membership in every allowed range
    /// (vacuously true with no ranges) and in no blocked range.
    pub open spec fn allows(self, port: u16) -> bool {
        &&& forall|i: int|
            0 <= i < self.allowed_ports@.len() ==> #[trigger] self.allowed_ports@[i].spec_contains(port)
        &&& forall|i: int|
            0 <= i < self.blocked_ports@.len() ==> !(#[trigger] self.blocked_ports@[i].spec_contains(port))
    }

    /// The default policy: all non-zero ports allowed, nothing blocked.
    pub open spec fn is_default(self) -> bool {
        &&& self.allowed_ports@.len() == 1
        &&& self.allowed_ports@[0].is_full()
        &&& self.blocked_ports@.len() == 0
    }
}

impl Default for PortFilter {
    fn default() -> (r: Self)
        ensures
            r.is_default(),
    {
        let mut allowed: Vec<PortRange> = Vec::new();
        allowed.push(PortRange::default());
        PortFilter { allowed_ports: allowed, blocked_ports: Vec::new() }
    }
}

/// The transport protocol of a configured service.
#[derive(Clone, Copy, PartialEq, Eq, Structural, Debug)]
pub enum Protocol {
    TCP,
    UDP,
}

/// One entry of the validated service catalog: which emulated service exists,
/// on which port it listens, and the text fragments by which it can be
/// recognised in a peer's first bytes.
#[derive(Clone, PartialEq, Debug)]
pub struct ServiceConfig {
    pub name: String,
    pub port: u16,
    pub protocol: Protocol,
    pub container_image: String,
    pub enabled: bool,
    pub header_patterns: Vec<String>,
    pub banner_response: Option<String>,
}

impl Default for ServiceConfig {
    fn default() -> (r: Self)
        ensures
            r.name@ == "unkown"@,
            r.port == 0,
            r.protocol is TCP,
            r.container_image@ == "unknown"@,
            !r.enabled,
            r.header_patterns@.len() == 0,
            r.banner_response is None,
    {
        ServiceConfig {
            name: "unkown".to_owned(),
            port: 0,
            protocol: Protocol::TCP,
            container_image: "unknown".to_owned(),
            enabled: false,
            header_patterns: Vec::new(),
            banner_response: None,
        }
    }
}

} // verus!
