//! The decision core of the multi-port listener. The accept loops, socket
//! handling and the handoff channel live outside the verified library; what
//! is decided here is which distinct ports the catalog asks to bind, and the
//! fixed backlog each listening socket is created with.

use vstd::prelude::*;

use crate::configuration::types::ServiceConfig;

verus! {

/// The backlog every listening socket is created with.
pub const LISTEN_BACKLOG: u32 = 1024;

/// Whether some catalog entry listens on port `p`.
pub open spec fn is_service_port(services: Seq<ServiceConfig>, p: u16) -> bool {
    exists|j: int| 0 <= j < services.len() && p == (#[trigger] services[j].port)
}

/// The distinct ports the service catalog asks to bind, one listening socket
/// each. When several catalog entries share a port they share one socket, the
/// port appearing once.
pub fn listening_ports(services: &[ServiceConfig]) -> (r: Vec<u16>)
    ensures
        forall|i: int| 0 <= i < r@.len() ==> is_service_port(services@, #[trigger] r@[i]),
        forall|j: int| 0 <= j < services@.len() ==> r@.contains(#[trigger] services@[j].port),
        forall|i1: int, i2: int| 0 <= i1 < i2 < r@.len() ==> r@[i1] != r@[i2],
{
    let mut ports: Vec<u16> = Vec::new();
    let n = services.len();
    for j in 0..n
        invariant
            n == services@.len(),
            forall|i: int| 0 <= i < ports@.len() ==> is_service_port(services@, #[trigger] ports@[i]),
            forall|j2: int| 0 <= j2 < j ==> ports@.contains(#[trigger] services@[j2].port),
            forall|i1: int, i2: int| 0 <= i1 < i2 < ports@.len() ==> ports@[i1] != ports@[i2],
    {
        let port = services[j].port;
        let mut present = false;
        let m = ports.len();
        for i in 0..m
            invariant
                m == ports@.len(),
                present == exists|i2: int| 0 <= i2 < i && (#[trigger] ports@[i2]) == port,
        {
            if ports[i] == port {
                present = true;
            }
        }
        proof {
            assert(present == ports@.contains(port));
        }
        let ghost old_ports = ports@;
        if !present {
            ports.push(port);
        }
        proof {
            assert forall|i: int|
                0 <= i < ports@.len() implies is_service_port(services@, #[trigger] ports@[i]) by {
                if i < old_ports.len() {
                    assert(ports@[i] == old_ports[i]);
                    assert(is_service_port(services@, old_ports[i]));
                } else {
                    assert(ports@[i] == port);
                    assert(port == services@[j as int].port);
                }
            }
            assert forall|j2: int|
                0 <= j2 < j + 1 implies ports@.contains(#[trigger] services@[j2].port) by {
                if services@[j2].port == port {
                    if present {
                        assert(old_ports.contains(port));
                        let w = choose|w: int| 0 <= w < old_ports.len() && old_ports[w] == port;
                        assert(ports@[w] == port);
                    } else {
                        assert(ports@[ports@.len() - 1] == port);
                    }
                } else {
                    assert(old_ports.contains(services@[j2].port));
                    let w = choose|w: int|
                        0 <= w < old_ports.len() && old_ports[w] == services@[j2].port;
                    assert(ports@[w] == services@[j2].port);
                }
            }
        }
    }
    ports
}

} // verus!
