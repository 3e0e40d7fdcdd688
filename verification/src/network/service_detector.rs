//! The protocol fingerprinting engine: built once from the service catalog,
//! it maps each configured port to its detection pattern and identifies a
//! connection's intended service from its local port or, failing that, from a
//! substring match against the peer's first bytes.
//!
//! Matching is specified over the UTF-8 encoding of the configured pattern
//! text: a pattern hits a payload when the pattern's encoded bytes occur as a
//! contiguous run of the payload's bytes. Because UTF-8 is self-synchronising,
//! on a payload that decodes as text this is exactly a substring match against
//! the decoded text.

use vstd::prelude::*;
use vstd::utf8::encode_utf8;
use vstd::utf8::valid_utf8;

use crate::configuration::types::ServiceConfig;
use crate::error_handling::types::NetworkError;
use crate::network::types::ServicePattern;

verus! {

/// Whether `needle` occurs as a contiguous run of `haystack`. The empty
/// needle occurs in every haystack.
pub open spec fn contains_seq(haystack: Seq<u8>, needle: Seq<u8>) -> bool {
    exists|k: int|
        0 <= k <= haystack.len() - needle.len() && (#[trigger] haystack.subrange(
            k,
            k + needle.len(),
        )) == needle
}

/// Whether the run of `haystack` starting at `start` is `needle`.
fn bytes_match_at(haystack: &[u8], needle: &[u8], start: usize) -> (b: bool)
    requires
        start + needle@.len() <= haystack@.len(),
    ensures
        b == (haystack@.subrange(start as int, start as int + needle@.len() as int) == needle@),
{
    let hl = haystack.len();
    let nl = needle.len();
    let mut j: usize = 0;
    while j < nl
        invariant
            hl == haystack@.len(),
            nl == needle@.len(),
            start + nl <= hl,
            j <= nl,
            forall|t: int| 0 <= t < j ==> haystack@[start + t] == needle@[t],
        decreases nl - j,
    {
        if haystack[start + j] != needle[j] {
            proof {
                assert(haystack@.subrange(start as int, start as int + needle@.len() as int)[
                    j as int] == haystack@[start + j]);
            }
            return false;
        }
        j += 1;
    }
    proof {
        assert(haystack@.subrange(start as int, start as int + needle@.len() as int) =~= needle@);
    }
    true
}

/// Decides `contains_seq` on concrete byte strings.
fn contains_bytes(haystack: &[u8], needle: &[u8]) -> (b: bool)
    ensures
        b == contains_seq(haystack@, needle@),
{
    let hl = haystack.len();
    let nl = needle.len();
    if nl > hl {
        proof {
            assert(!contains_seq(haystack@, needle@));
        }
        return false;
    }
    if nl == 0 {
        proof {
            assert(haystack@.subrange(0, 0 + needle@.len() as int) =~= needle@);
            assert(contains_seq(haystack@, needle@));
        }
        return true;
    }
    let mut k: usize = 0;
    while k <= hl - nl
        invariant
            0 < nl <= hl,
            hl == haystack@.len(),
            nl == needle@.len(),
            k <= hl - nl + 1,
            forall|k2: int|
                0 <= k2 < k ==> (#[trigger] haystack@.subrange(k2, k2 + needle@.len())) != needle@,
        decreases hl - nl - k + 1,
    {
        if bytes_match_at(haystack, needle, k) {
            return true;
        }
        k += 1;
    }
    proof {
        assert(!contains_seq(haystack@, needle@));
    }
    false
}

/// Relies on core::str::from_utf8, which returns `Ok` exactly when its input
/// is valid UTF-8.
#[verifier::external_body]
fn is_valid_utf8(data: &[u8]) -> (b: bool)
    ensures
        b == valid_utf8(data@),
{
    core::str::from_utf8(data).is_ok()
}

/// Copies a list of strings; the copy reads the same.
fn clone_string_vec(v: &Vec<String>) -> (r: Vec<String>)
    ensures
        r@ == v@,
{
    let mut r: Vec<String> = Vec::new();
    let n = v.len();
    for i in 0..n
        invariant
            n == v@.len(),
            r@ =~= v@.subrange(0, i as int),
    {
        r.push(v[i].clone());
        proof {
            assert(v@.subrange(0, i + 1) =~= v@.subrange(0, i as int).push(v@[i as int]));
        }
    }
    proof {
        assert(r@ =~= v@);
    }
    r
}

/// Whether pattern `p` is the one derived from catalog entry `c`: same name,
/// port and protocol; the header patterns read the same; and the banner
/// patterns are exactly the banner response when one is configured, else
/// empty.
pub open spec fn pattern_from(p: ServicePattern, c: ServiceConfig) -> bool {
    &&& p.service_name@ == c.name@
    &&& p.port == c.port
    &&& p.protocol == c.protocol
    &&& p.header_patterns@.len() == c.header_patterns@.len()
    &&& forall|i: int|
        0 <= i < c.header_patterns@.len() ==> (#[trigger] p.header_patterns@[i])@
            == c.header_patterns@[i]@
    &&& match c.banner_response {
        Some(b) => p.banner_patterns@.len() == 1 && p.banner_patterns@[0]@ == b@,
        None => p.banner_patterns@.len() == 0,
    }
}

/// The last position before `k` at which the catalog configures port `p`, or
/// -1 when none does.
pub open spec fn last_index_before(services: Seq<ServiceConfig>, k: int, p: u16) -> int
    decreases k,
{
    if k <= 0 {
        -1
    } else if services[k - 1].port == p {
        k - 1
    } else {
        last_index_before(services, k - 1, p)
    }
}

/// The last position at which the catalog configures port `p`, or -1.
pub open spec fn last_index_with_port(services: Seq<ServiceConfig>, p: u16) -> int {
    last_index_before(services, services.len() as int, p)
}

/// One step of `last_index_before`: position `k` wins when it carries the
/// port, else the search continues among the earlier entries.
proof fn lemma_last_index_step(services: Seq<ServiceConfig>, k: int, p: u16)
    requires
        0 <= k < services.len(),
    ensures
        last_index_before(services, k + 1, p) == if services[k].port == p {
            k
        } else {
            last_index_before(services, k, p)
        },
{
}

/// Whether some pattern of the table is registered for port `p`.
pub open spec fn table_has_port(table: Seq<ServicePattern>, p: u16) -> bool {
    exists|t: int| 0 <= t < table.len() && (#[trigger] table[t].port) == p
}

/// `last_index_before` finds a position carrying the port when one exists,
/// and no later position before `k` carries it.
proof fn lemma_last_index_properties(services: Seq<ServiceConfig>, k: int, p: u16)
    requires
        0 <= k <= services.len(),
    ensures
        ({
            let li = last_index_before(services, k, p);
            &&& -1 <= li < k
            &&& li >= 0 ==> services[li].port == p
            &&& forall|j: int| li < j < k ==> (#[trigger] services[j]).port != p
        }),
    decreases k,
{
    if k > 0 {
        lemma_last_index_properties(services, k - 1, p);
    }
}

/// Port lookup succeeds exactly on the ports the table registers, and the
/// name returned is the name of an entry registered for the port.
proof fn lemma_detect_from_port_characterised(table: Seq<ServicePattern>, port: u16)
    ensures
        spec_detect_from_port(table, port) is Some <==> table_has_port(table, port),
        spec_detect_from_port(table, port) matches Some(name) ==> exists|t: int|
            0 <= t < table.len() && (#[trigger] table[t]).port == port && name == table[
            t].service_name@,
    decreases table.len(),
{
    if table.len() == 0 {
    } else if table[0].port == port {
        assert(table_has_port(table, port));
    } else {
        let rest = table.drop_first();
        lemma_detect_from_port_characterised(rest, port);
        assert forall|t: int|
            0 <= t < rest.len() && (#[trigger] rest[t]).port == port implies table_has_port(
            table,
            port,
        ) && table[t + 1].port == port && table[t + 1].service_name@ == rest[t].service_name@ by {
            assert(rest[t] == table[t + 1]);
        }
        if table_has_port(table, port) {
            let t = choose|t: int| 0 <= t < table.len() && (#[trigger] table[t].port) == port;
            assert(t >= 1);
            assert(rest[t - 1] == table[t]);
            assert(table_has_port(rest, port));
        }
    }
}

/// The invariant of the pattern table, made concrete: in a detector built
/// from a catalog, looking a port up yields exactly the name of the last
/// catalog entry configured for that port, and fails exactly on ports no
/// entry configures — a later entry on a shared port replaces the earlier
/// one.
pub proof fn lemma_lookup_matches_catalog(
    services: Seq<ServiceConfig>,
    table: Seq<ServicePattern>,
    port: u16,
)
    requires
        table_models_prefix(services, services.len() as int, table),
    ensures
        ({
            let li = last_index_with_port(services, port);
            if li >= 0 {
                spec_detect_from_port(table, port) == Some(services[li].name@)
            } else {
                spec_detect_from_port(table, port) is None
            }
        }),
{
    let n = services.len() as int;
    let li = last_index_with_port(services, port);
    lemma_last_index_properties(services, n, port);
    lemma_detect_from_port_characterised(table, port);
    if li >= 0 {
        assert(services[li].port == port);
        assert(table_has_port(table, port));
        let name = spec_detect_from_port(table, port)->0;
        let t = choose|t: int|
            0 <= t < table.len() && (#[trigger] table[t]).port == port && name == table[
            t].service_name@;
        let lt = last_index_before(services, n, table[t].port);
        assert(0 <= lt < n && pattern_from(table[t], services[lt]));
        assert(name == services[li].name@);
    } else {
        if table_has_port(table, port) {
            let t = choose|t: int| 0 <= t < table.len() && (#[trigger] table[t].port) == port;
            let lt = last_index_before(services, n, table[t].port);
            assert(0 <= lt < n && pattern_from(table[t], services[lt]));
            assert(services[lt].port == port);
            assert(li < lt < n);
            assert(false);
        }
    }
}

/// What the pattern table holds after the first `k` catalog entries have been
/// registered: ports are distinct, every pattern is the one derived from the
/// last entry before `k` with its port, and every entry's port is present.
pub open spec fn table_models_prefix(
    services: Seq<ServiceConfig>,
    k: int,
    table: Seq<ServicePattern>,
) -> bool {
    &&& forall|t1: int, t2: int|
        0 <= t1 < t2 < table.len() ==> (#[trigger] table[t1].port) != (#[trigger] table[t2].port)
    &&& forall|t: int|
        0 <= t < table.len() ==> {
            let li = last_index_before(services, k, (#[trigger] table[t]).port);
            0 <= li < k && pattern_from(table[t], services[li])
        }
    &&& forall|j: int| 0 <= j < k ==> table_has_port(table, (#[trigger] services[j]).port)
}

/// The service name of the first pattern registered for `port`, if any. In a
/// well-formed table at most one pattern carries each port.
pub open spec fn spec_detect_from_port(table: Seq<ServicePattern>, port: u16) -> Option<Seq<char>>
    decreases table.len(),
{
    if table.len() == 0 {
        None
    } else if table[0].port == port {
        Some(table[0].service_name@)
    } else {
        spec_detect_from_port(table.drop_first(), port)
    }
}

/// Whether one of `p`'s header or banner patterns occurs, UTF-8 encoded, in
/// the payload bytes.
pub open spec fn spec_pattern_hits(p: ServicePattern, data: Seq<u8>) -> bool {
    ||| exists|i: int|
        0 <= i < p.header_patterns@.len() && contains_seq(
            data,
            encode_utf8((#[trigger] p.header_patterns@[i])@),
        )
    ||| exists|i: int|
        0 <= i < p.banner_patterns@.len() && contains_seq(
            data,
            encode_utf8((#[trigger] p.banner_patterns@[i])@),
        )
}

/// The service name of the first pattern in table order that hits the
/// payload, if any.
pub open spec fn spec_first_match(table: Seq<ServicePattern>, data: Seq<u8>) -> Option<Seq<char>>
    decreases table.len(),
{
    if table.len() == 0 {
        None
    } else if spec_pattern_hits(table[0], data) {
        Some(table[0].service_name@)
    } else {
        spec_first_match(table.drop_first(), data)
    }
}

/// Payload detection: a payload that is not valid UTF-8 identifies nothing;
/// otherwise the first hitting pattern's name is returned.
pub open spec fn spec_detect_from_payload(
    table: Seq<ServicePattern>,
    data: Seq<u8>,
) -> Option<Seq<char>> {
    if valid_utf8(data) {
        spec_first_match(table, data)
    } else {
        None
    }
}

/// The whole detection decision: the port wins when it is registered, and no
/// payload is consulted; otherwise a present, non-empty payload is matched;
/// everything else fails.
pub open spec fn spec_identify(
    table: Seq<ServicePattern>,
    port: u16,
    payload: Option<Seq<u8>>,
) -> Option<Seq<char>> {
    if spec_detect_from_port(table, port) is Some {
        spec_detect_from_port(table, port)
    } else {
        match payload {
            Some(data) => if data.len() == 0 {
                None
            } else {
                spec_detect_from_payload(table, data)
            },
            None => None,
        }
    }
}

/// Whether the returned name reads as the specified one, and is present
/// exactly when one is specified.
pub open spec fn name_matches(r: Option<String>, s: Option<Seq<char>>) -> bool {
    match (r, s) {
        (Some(a), Some(b)) => a@ == b,
        (None, None) => true,
        _ => false,
    }
}

/// The lookup and matching engine, built once from the service catalog and
/// immutable afterwards: one detection pattern per configured port.
#[derive(Clone, Debug)]
pub struct ServiceDetector {
    pub service_patterns: Vec<ServicePattern>,
}

impl ServiceDetector {
    /// Ports of the registered patterns are distinct: at most one pattern per
    /// port.
    pub open spec fn wf(self) -> bool {
        forall|t1: int, t2: int|
            0 <= t1 < t2 < self.service_patterns@.len() ==> (#[trigger] self.service_patterns@[
                t1].port) != (#[trigger] self.service_patterns@[t2].port)
    }

    /// Builds the pattern table from the catalog: one pattern per configured
    /// port, a later entry on the same port replacing the earlier one.
    pub fn new(services: &[ServiceConfig]) -> (r: ServiceDetector)
        ensures
            r.wf(),
            table_models_prefix(services@, services@.len() as int, r.service_patterns@),
    {
        let mut table: Vec<ServicePattern> = Vec::new();
        let n = services.len();
        for k in 0..n
            invariant
                n == services@.len(),
                table_models_prefix(services@, k as int, table@),
        {
            let c = &services[k];
            let banner_patterns: Vec<String> = match &c.banner_response {
                Some(banner) => {
                    let mut v: Vec<String> = Vec::new();
                    v.push(banner.clone());
                    v
                },
                None => Vec::new(),
            };
            let pattern = ServicePattern {
                service_name: c.name.clone(),
                port: c.port,
                protocol: c.protocol,
                header_patterns: clone_string_vec(&c.header_patterns),
                banner_patterns,
            };
            proof {
                assert(pattern_from(pattern, services@[k as int]));
            }
            let ghost old_table = table@;
            match Self::find_port_index(&table, c.port) {
                Some(t) => {
                    proof {
                        assert(old_table[t as int].port == pattern.port);
                    }
                    table.set(t, pattern);
                    proof {
                        assert(table@ == old_table.update(t as int, pattern));
                    }
                },
                None => {
                    table.push(pattern);
                    proof {
                        assert(table@ == old_table.push(pattern));
                    }
                },
            }
            proof {
                Self::lemma_register_step(services@, k as int, old_table, table@, pattern);
            }
        }
        ServiceDetector { service_patterns: table }
    }

    /// The first position of the table whose pattern is registered for
    /// `port`, if any.
    fn find_port_index(table: &Vec<ServicePattern>, port: u16) -> (r: Option<usize>)
        ensures
            match r {
                Some(t) => t < table@.len() && table@[t as int].port == port,
                None => forall|t: int| 0 <= t < table@.len() ==> (#[trigger] table@[t].port) != port,
            },
    {
        let n = table.len();
        for t in 0..n
            invariant
                n == table@.len(),
                forall|t2: int| 0 <= t2 < t ==> (#[trigger] table@[t2].port) != port,
        {
            if table[t].port == port {
                return Some(t);
            }
        }
        None
    }

    /// Registering one more catalog entry keeps the table model: either the
    /// entry's port was present and its pattern was replaced in place, or the
    /// port was new and its pattern was appended.
    proof fn lemma_register_step(
        services: Seq<ServiceConfig>,
        k: int,
        old_table: Seq<ServicePattern>,
        new_table: Seq<ServicePattern>,
        pattern: ServicePattern,
    )
        requires
            0 <= k < services.len(),
            table_models_prefix(services, k, old_table),
            pattern_from(pattern, services[k]),
            pattern.port == services[k].port,
            ({
                ||| (exists|t: int|
                    0 <= t < old_table.len() && (#[trigger] old_table[t].port) == pattern.port
                        && new_table == old_table.update(t, pattern))
                ||| ((forall|t: int|
                    0 <= t < old_table.len() ==> (#[trigger] old_table[t].port) != pattern.port)
                    && new_table == old_table.push(pattern))
            }),
        ensures
            table_models_prefix(services, k + 1, new_table),
    {
        if exists|t0: int|
            0 <= t0 < old_table.len() && (#[trigger] old_table[t0].port) == pattern.port
                && new_table == old_table.update(t0, pattern) {
            let t0 = choose|t0: int|
                0 <= t0 < old_table.len() && (#[trigger] old_table[t0].port) == pattern.port
                    && new_table == old_table.update(t0, pattern);
            assert(new_table[t0] == pattern);
            assert forall|t: int|
                0 <= t < new_table.len() implies (#[trigger] new_table[t].port) == old_table[
                t].port by {
                if t != t0 {
                    assert(new_table[t] == old_table[t]);
                }
            }
            assert forall|t: int|
                0 <= t < new_table.len() implies {
                let li = last_index_before(services, k + 1, (#[trigger] new_table[t]).port);
                0 <= li < k + 1 && pattern_from(new_table[t], services[li])
            } by {
                lemma_last_index_step(services, k, new_table[t].port);
                if t == t0 {
                    assert(last_index_before(services, k + 1, pattern.port) == k);
                } else {
                    assert(new_table[t] == old_table[t]);
                    // distinct old ports: only the entry at t0 carries the new port
                    assert(old_table[t].port != pattern.port);
                }
            }
            assert forall|j: int|
                0 <= j < k + 1 implies table_has_port(new_table, (#[trigger] services[j]).port) by {
                if services[j].port == pattern.port {
                    assert(new_table[t0].port == services[j].port);
                } else {
                    assert(table_has_port(old_table, services[j].port));
                    let w = choose|w: int|
                        0 <= w < old_table.len() && (#[trigger] old_table[w].port) == services[
                        j].port;
                    assert(new_table[w].port == services[j].port);
                }
            }
        } else {
            assert(forall|t: int|
                0 <= t < old_table.len() ==> (#[trigger] old_table[t].port) != pattern.port);
            assert(new_table == old_table.push(pattern));
            let last = new_table.len() - 1;
            assert(new_table[last] == pattern);
            assert forall|t: int|
                0 <= t < new_table.len() implies {
                let li = last_index_before(services, k + 1, (#[trigger] new_table[t]).port);
                0 <= li < k + 1 && pattern_from(new_table[t], services[li])
            } by {
                lemma_last_index_step(services, k, new_table[t].port);
                if t == last {
                    assert(last_index_before(services, k + 1, pattern.port) == k);
                } else {
                    assert(new_table[t] == old_table[t]);
                    assert(old_table[t].port != pattern.port);
                }
            }
            assert forall|j: int|
                0 <= j < k + 1 implies table_has_port(new_table, (#[trigger] services[j]).port) by {
                if services[j].port == pattern.port {
                    assert(new_table[last].port == services[j].port);
                } else {
                    assert(table_has_port(old_table, services[j].port));
                    let w = choose|w: int|
                        0 <= w < old_table.len() && (#[trigger] old_table[w].port) == services[
                        j].port;
                    assert(new_table[w].port == services[j].port);
                }
            }
        }
    }

    /// Looks the connection's local port up in the pattern table; the
    /// registered service's name is returned without any payload being
    /// consulted.
    pub fn detect_from_port(&self, port: u16) -> (r: Option<String>)
        ensures
            name_matches(r, spec_detect_from_port(self.service_patterns@, port)),
    {
        proof {
            assert(self.service_patterns@.skip(0) =~= self.service_patterns@);
        }
        let n = self.service_patterns.len();
        for t in 0..n
            invariant
                n == self.service_patterns@.len(),
                spec_detect_from_port(self.service_patterns@, port) == spec_detect_from_port(
                    self.service_patterns@.skip(t as int),
                    port,
                ),
        {
            proof {
                assert(self.service_patterns@.skip(t as int)[0] == self.service_patterns@[
                    t as int]);
            }
            if self.service_patterns[t].port == port {
                return Some(self.service_patterns[t].service_name.clone());
            }
            proof {
                assert(self.service_patterns@.skip(t as int).drop_first() =~= self
                    .service_patterns@.skip(t as int + 1));
            }
        }
        proof {
            assert(self.service_patterns@.skip(n as int).len() == 0);
        }
        None
    }

    /// Whether one of the pattern's header or banner fragments occurs in the
    /// payload bytes.
    fn pattern_matches(p: &ServicePattern, data: &[u8]) -> (b: bool)
        ensures
            b == spec_pattern_hits(*p, data@),
    {
        let hn = p.header_patterns.len();
        for i in 0..hn
            invariant
                hn == p.header_patterns@.len(),
                forall|i2: int|
                    0 <= i2 < i ==> !contains_seq(
                        data@,
                        encode_utf8((#[trigger] p.header_patterns@[i2])@),
                    ),
        {
            if contains_bytes(data, p.header_patterns[i].as_str().as_bytes()) {
                return true;
            }
        }
        let bn = p.banner_patterns.len();
        for i in 0..bn
            invariant
                bn == p.banner_patterns@.len(),
                forall|i2: int|
                    0 <= i2 < hn ==> !contains_seq(
                        data@,
                        encode_utf8((#[trigger] p.header_patterns@[i2])@),
                    ),
                hn == p.header_patterns@.len(),
                forall|i2: int|
                    0 <= i2 < i ==> !contains_seq(
                        data@,
                        encode_utf8((#[trigger] p.banner_patterns@[i2])@),
                    ),
        {
            if contains_bytes(data, p.banner_patterns[i].as_str().as_bytes()) {
                return true;
            }
        }
        false
    }

    /// Matches the peer's first bytes against every registered pattern. A
    /// payload that is not valid UTF-8 identifies nothing; otherwise the
    /// first pattern in table order with a hit gives the service name.
    pub fn detect_from_payload(&self, data: &[u8]) -> (r: Option<String>)
        ensures
            name_matches(r, spec_detect_from_payload(self.service_patterns@, data@)),
    {
        if !is_valid_utf8(data) {
            return None;
        }
        proof {
            assert(self.service_patterns@.skip(0) =~= self.service_patterns@);
        }
        let n = self.service_patterns.len();
        for t in 0..n
            invariant
                n == self.service_patterns@.len(),
                valid_utf8(data@),
                spec_first_match(self.service_patterns@, data@) == spec_first_match(
                    self.service_patterns@.skip(t as int),
                    data@,
                ),
        {
            proof {
                assert(self.service_patterns@.skip(t as int)[0] == self.service_patterns@[
                    t as int]);
            }
            if Self::pattern_matches(&self.service_patterns[t], data) {
                return Some(self.service_patterns[t].service_name.clone());
            }
            proof {
                assert(self.service_patterns@.skip(t as int).drop_first() =~= self
                    .service_patterns@.skip(t as int + 1));
            }
        }
        proof {
            assert(self.service_patterns@.skip(n as int).len() == 0);
        }
        None
    }

    /// The whole detection decision for one connection, from its local port
    /// and the outcome of the single bounded read: `payload` is `None` when
    /// the read failed and holds the bytes read otherwise. A registered port
    /// resolves immediately — callers need not read at all in that case; else
    /// a non-empty payload is matched against the patterns; everything else
    /// fails with `ServiceDetectionFailed`, the only error this decision
    /// produces.
    pub fn identify_service(&self, port: u16, payload: Option<&[u8]>) -> (r: Result<
        String,
        NetworkError,
    >)
        ensures
            ({
                let outcome = spec_identify(
                    self.service_patterns@,
                    port,
                    match payload {
                        Some(data) => Some(data@),
                        None => None,
                    },
                );
                &&& r is Ok <==> outcome is Some
                &&& r matches Ok(name) ==> name@ == outcome->0
                &&& r matches Err(e) ==> e is ServiceDetectionFailed
            }),
    {
        match self.detect_from_port(port) {
            Some(name) => Ok(name),
            None => match payload {
                Some(data) => {
                    if data.len() == 0 {
                        Err(NetworkError::ServiceDetectionFailed)
                    } else {
                        match self.detect_from_payload(data) {
                            Some(name) => Ok(name),
                            None => Err(NetworkError::ServiceDetectionFailed),
                        }
                    }
                },
                None => Err(NetworkError::ServiceDetectionFailed),
            },
        }
    }
}

} // verus!
