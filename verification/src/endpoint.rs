//! Network endpoints of native backends: IPv4 or IPv6 socket addresses, or a
//! Unix domain socket path, and an optional PROXY protocol preamble.
use vstd::prelude::*;

use crate::error::VclError;

verus! {

/// An IP socket address.
#[derive(Debug, Clone, Copy, PartialEq, Eq)]
pub enum SocketAddr {
    /// IPv4 address and port.
    V4 { octets: [u8; 4], port: u16 },
    /// IPv6 address, port, flow information and scope id.
    V6 { segments: [u16; 8], port: u16, flowinfo: u32, scope_id: u32 },
}

impl SocketAddr {
    /// Whether this is an IPv4 address.
    pub fn is_ipv4(&self) -> (r: bool)
        ensures
            r == (*self is V4),
    {
        match self {
            SocketAddr::V4 { .. } => true,
            SocketAddr::V6 { .. } => false,
        }
    }

    /// Whether this is an IPv6 address.
    pub fn is_ipv6(&self) -> (r: bool)
        ensures
            r == (*self is V6),
    {
        match self {
            SocketAddr::V4 { .. } => false,
            SocketAddr::V6 { .. } => true,
        }
    }
}

/// Network endpoint configuration for a backend.
#[derive(Debug)]
pub struct Endpoint {
    /// IPv4 address and port.
    pub ipv4: Option<SocketAddr>,
    /// IPv6 address and port.
    pub ipv6: Option<SocketAddr>,
    /// Unix domain socket path.
    pub uds_path: Option<String>,
    /// PROXY protocol preamble (v1 or v2).
    pub preamble: Option<Vec<u8>>,
}

impl Default for Endpoint {
    fn default() -> (e: Endpoint)
        ensures
            e.ipv4 is None,
            e.ipv6 is None,
            e.uds_path is None,
            e.preamble is None,
    {
        Endpoint { ipv4: None, ipv6: None, uds_path: None, preamble: None }
    }
}

impl Endpoint {
    /// An endpoint with an IPv4 socket address only.
    pub fn ipv4(addr: SocketAddr) -> (e: Endpoint)
        requires
            addr is V4,
        ensures
            e.ipv4 == Some(addr),
            e.ipv6 is None,
            e.uds_path is None,
            e.preamble is None,
    {
        Endpoint { ipv4: Some(addr), ipv6: None, uds_path: None, preamble: None }
    }

    /// An endpoint with an IPv6 socket address only.
    pub fn ipv6(addr: SocketAddr) -> (e: Endpoint)
        requires
            addr is V6,
        ensures
            e.ipv4 is None,
            e.ipv6 == Some(addr),
            e.uds_path is None,
            e.preamble is None,
    {
        Endpoint { ipv4: None, ipv6: Some(addr), uds_path: None, preamble: None }
    }

    /// An endpoint with one IP socket address, IPv4 or IPv6 as it is.
    pub fn ip(addr: SocketAddr) -> (e: Endpoint)
        ensures
            addr is V4 ==> e.ipv4 == Some(addr) && e.ipv6 is None,
            addr is V6 ==> e.ipv6 == Some(addr) && e.ipv4 is None,
            e.uds_path is None,
            e.preamble is None,
    {
        match addr {
            SocketAddr::V4 { .. } => Endpoint {
                ipv4: Some(addr),
                ipv6: None,
                uds_path: None,
                preamble: None,
            },
            SocketAddr::V6 { .. } => Endpoint {
                ipv4: None,
                ipv6: Some(addr),
                uds_path: None,
                preamble: None,
            },
        }
    }

    /// An endpoint with a Unix domain socket path only.
    pub fn uds(path: String) -> (e: Endpoint)
        ensures
            e.ipv4 is None,
            e.ipv6 is None,
            e.uds_path == Some(path),
            e.preamble is None,
    {
        Endpoint { ipv4: None, ipv6: None, uds_path: Some(path), preamble: None }
    }

    /// An endpoint with both an IPv4 and an IPv6 socket address.
    pub fn dual_stack(ipv4: SocketAddr, ipv6: SocketAddr) -> (e: Endpoint)
        requires
            ipv4 is V4,
            ipv6 is V6,
        ensures
            e.ipv4 == Some(ipv4),
            e.ipv6 == Some(ipv6),
            e.uds_path is None,
            e.preamble is None,
    {
        Endpoint { ipv4: Some(ipv4), ipv6: Some(ipv6), uds_path: None, preamble: None }
    }

    /// The same endpoint with a PROXY protocol preamble.
    pub fn with_preamble(self, preamble: Vec<u8>) -> (e: Endpoint)
        ensures
            e.ipv4 == self.ipv4,
            e.ipv6 == self.ipv6,
            e.uds_path == self.uds_path,
            e.preamble == Some(preamble),
    {
        Endpoint { preamble: Some(preamble), ..self }
    }

    /// Whether the endpoint has somewhere to connect to.
    pub open spec fn spec_has_target(&self) -> bool {
        self.ipv4 is Some || self.ipv6 is Some || self.uds_path is Some
    }

    /// Checks that the endpoint has at least one of an IPv4 address, an IPv6
    /// address or a socket path; [`VclError::EmptyEndpoint`] otherwise.
    pub fn validate(&self) -> (r: Result<(), VclError>)
        ensures
            self.spec_has_target() ==> r is Ok,
            !self.spec_has_target() ==> r == Err::<(), VclError>(VclError::EmptyEndpoint),
            r is Ok <==> (self.ipv4 is Some || self.ipv6 is Some || self.uds_path is Some),
    {
        if self.ipv4.is_none() && self.ipv6.is_none() && self.uds_path.is_none() {
            return Err(VclError::EmptyEndpoint);
        }
        Ok(())
    }
}

/// An endpoint has somewhere to connect to as soon as any one of its IPv4
/// address, IPv6 address or socket path is set, and only then: an endpoint
/// with only an IPv6 address, say, is valid.
pub proof fn law_endpoint_target(e: Endpoint)
    ensures
        e.ipv4 is Some ==> e.spec_has_target(),
        e.ipv6 is Some ==> e.spec_has_target(),
        e.uds_path is Some ==> e.spec_has_target(),
        (e.ipv4 is None && e.ipv6 is None && e.uds_path is None) ==> !e.spec_has_target(),
{
}

} // verus!
