//! Backends, directors and the references that VCL holds to them.
use vstd::prelude::*;
use vstd::string::StringSliceAdditionalSpecFns;

use std::time::Duration;

use crate::ctx::{BodyState, Ctx};
use crate::http::{protover_of, HttpHeaders, HDR_PROTO, HDR_STATUS};
use crate::endpoint::SocketAddr;
use crate::error::VclError;

verus! {

/// `std::time::SystemTime`, carried through unchanged.
#[verifier::external_type_specification]
#[verifier::external_body]
pub struct ExSystemTime(std::time::SystemTime);

/// The address of a Varnish director (a backend or a director), `0` for none.
#[allow(non_camel_case_types)]
#[derive(Debug, Clone, Copy, PartialEq, Eq, Structural)]
pub struct VCL_BACKEND(pub usize);

impl VCL_BACKEND {
    /// The null director.
    pub open spec fn spec_is_null(&self) -> bool {
        self.0 == 0
    }

    /// Whether this is the null director.
    pub fn is_null(&self) -> (r: bool)
        ensures
            r == self.spec_is_null(),
    {
        self.0 == 0
    }
}

/// Result from a probe health check: the health status and when it last
/// changed.
#[derive(Debug, Clone, Copy)]
pub struct ProbeResult {
    pub healthy: bool,
    pub last_changed: std::time::SystemTime,
}

/// How and why a piped transaction ended.
#[derive(Debug, Clone, Copy, PartialEq, Eq, Structural)]
pub enum StreamClose {
    RemClose,
    ReqClose,
    ReqHttp10,
    RxBad,
    RxBody,
    RxJunk,
    RxOverflow,
    RxTimeout,
    RxCloseIdle,
    TxPipe,
    TxError,
    TxEof,
    RespClose,
    Overload,
    PipeOverflow,
    RangeShort,
    ReqHttp20,
    VclFailure,
}

/// A reference to a director, counted or not in the director's reference
/// count.
#[derive(Debug)]
pub struct BackendRef {
    refcounted: bool,
    bep: VCL_BACKEND,
}

impl BackendRef {
    /// The director referred to.
    pub closed spec fn spec_ptr(&self) -> VCL_BACKEND {
        self.bep
    }

    /// Whether this reference counts in the director's reference count.
    pub closed spec fn spec_refcounted(&self) -> bool {
        self.refcounted
    }

    /// A reference that does not count, for the objects that own the
    /// director; `None` for the null director.
    pub(crate) fn new_withouth_refcount(bep: VCL_BACKEND) -> (r: Option<BackendRef>)
        ensures
            bep.spec_is_null() ==> r is None,
            !bep.spec_is_null() ==> (r matches Some(b) && b.spec_ptr() == bep && !b.spec_refcounted()),
    {
        if bep.is_null() {
            return None;
        }
        Some(BackendRef { bep, refcounted: false })
    }

    /// A counted reference to the same director.
    pub fn clone_counted(&self) -> (r: BackendRef)
        ensures
            r.spec_ptr() == self.spec_ptr(),
            r.spec_refcounted(),
    {
        BackendRef { bep: self.bep, refcounted: true }
    }

    /// The director referred to.
    pub fn vcl_ptr(&self) -> (r: VCL_BACKEND)
        ensures
            r == self.spec_ptr(),
    {
        self.bep
    }
}

/// A native Varnish backend, created from Rust code.
#[derive(Debug)]
pub struct NativeBackend {
    backend_ref: BackendRef,
}

impl NativeBackend {
    /// The backend.
    pub closed spec fn spec_ptr(&self) -> VCL_BACKEND {
        self.backend_ref.spec_ptr()
    }

    /// The backend Varnish created at `bep`; `None` when it created none.
    pub fn from_ptr(bep: VCL_BACKEND) -> (r: Option<NativeBackend>)
        ensures
            bep.spec_is_null() <==> r is None,
            r matches Some(b) ==> b.spec_ptr() == bep,
    {
        match BackendRef::new_withouth_refcount(bep) {
            Some(backend_ref) => Some(NativeBackend { backend_ref }),
            None => None,
        }
    }

    /// A counted reference to this backend.
    pub fn backend_ref(&self) -> (r: BackendRef)
        ensures
            r.spec_ptr() == self.spec_ptr(),
            r.spec_refcounted(),
    {
        self.backend_ref.clone_counted()
    }
}

/// What a director wrapping a C `struct director` implements.
pub trait VclDirector {
    /// Resolves the director to a concrete backend, `None` if none is
    /// available.
    fn resolve(&self, ctx: &mut Ctx) -> Option<BackendRef>;

    /// Whether the director (or its backends) are healthy, and when that last
    /// changed.
    fn probe(&self, ctx: &mut Ctx) -> ProbeResult;

    /// Called when the director is being destroyed.
    fn release(&self) {
    }
}

/// The backend that Varnish gets back from a director's resolution: the
/// resolved backend, or the null backend.
pub fn resolved_ref(r: &Option<BackendRef>) -> (b: VCL_BACKEND)
    ensures
        match r {
            Some(x) => b == x.spec_ptr(),
            None => b.spec_is_null(),
        },
{
    match r {
        Some(x) => x.vcl_ptr(),
        None => VCL_BACKEND(0),
    }
}

/// `i` is the position of the first NUL byte of `s`.
pub open spec fn is_first_nul(s: Seq<u8>, i: int) -> bool {
    &&& 0 <= i < s.len()
    &&& s[i] == 0u8
    &&& forall|j: int| 0 <= j < i ==> s[j] != 0u8
}

/// Checks that a name can become a C string: fails with
/// [`VclError::NulByte`] and the position of its first NUL byte otherwise.
pub fn check_c_name(name: &str) -> (r: Result<(), VclError>)
    ensures
        match r {
            Ok(()) => forall|j: int| 0 <= j < name.spec_bytes().len() ==> name.spec_bytes()[j] != 0u8,
            Err(e) => exists|i: int|
                is_first_nul(name.spec_bytes(), i) && e == VclError::NulByte(i as usize),
        },
{
    let b = name.as_bytes();
    let mut i: usize = 0;
    while i < b.len()
        invariant
            b@ == name.spec_bytes(),
            i <= b@.len(),
            forall|j: int| 0 <= j < i ==> b@[j] != 0u8,
        decreases b@.len() - i,
    {
        if b[i] == 0u8 {
            assert(is_first_nul(name.spec_bytes(), i as int));
            return Err(VclError::NulByte(i));
        }
        i = i + 1;
    }
    Ok(())
}

/// The checks made before a backend or director is registered: its type
/// name, then its own name, must be valid C strings.
pub fn check_director_names(director_type: &str, name: &str) -> (r: Result<(), VclError>)
    ensures
        match check_c_name_spec(director_type.spec_bytes()) {
            Some(i) => r == Err::<(), VclError>(VclError::NulByte(i as usize)),
            None => match check_c_name_spec(name.spec_bytes()) {
                Some(i) => r == Err::<(), VclError>(VclError::NulByte(i as usize)),
                None => r is Ok,
            },
        },
{
    match check_c_name(director_type) {
        Ok(()) => {},
        Err(e) => {
            return Err(e);
        },
    }
    check_c_name(name)
}

/// The position of the first NUL byte, if any.
pub open spec fn check_c_name_spec(s: Seq<u8>) -> Option<int> {
    if exists|i: int| is_first_nul(s, i) {
        Some(choose|i: int| is_first_nul(s, i))
    } else {
        None
    }
}

/// The outcome of registering a director: the reference to it, or
/// [`VclError::AddDirectorFailed`] with its name when Varnish registered none.
pub fn added_director(name: &str, bep: VCL_BACKEND) -> (r: Result<BackendRef, VclError>)
    ensures
        bep.spec_is_null() ==> (r matches Err(VclError::AddDirectorFailed(n)) && n@ == name@),
        !bep.spec_is_null() ==> (r matches Ok(b) && b.spec_ptr() == bep && !b.spec_refcounted()),
{
    match BackendRef::new_withouth_refcount(bep) {
        Some(b) => Ok(b),
        None => Err(VclError::AddDirectorFailed(String::from_str(name))),
    }
}

/// Where a native backend connects to.
#[derive(Debug)]
pub enum BackendEndpoint {
    Ip(SocketAddr),
    Uds(String),
}

/// Builder for a native backend.
#[derive(Debug)]
pub struct NativeBackendBuilder {
    pub endpoint: Option<BackendEndpoint>,
    pub vcl_name: String,
    pub hosthdr: Option<String>,
    pub authority: Option<String>,
    pub connect_timeout: Option<Duration>,
    pub first_byte_timeout: Option<Duration>,
    pub between_bytes_timeout: Option<Duration>,
    pub backend_wait_timeout: Option<Duration>,
    pub max_connections: Option<u32>,
    pub proxy_header: Option<u32>,
    pub backend_wait_limit: Option<u32>,
}

/// The settings of a native backend that a builder gives: one endpoint
/// slot filled according to the endpoint kind, and the limits with 0 for
/// those not set.
#[derive(Debug)]
pub struct BackendSettings {
    pub ipv4: Option<SocketAddr>,
    pub ipv6: Option<SocketAddr>,
    pub uds_path: Option<String>,
    pub vcl_name: String,
    pub hosthdr: Option<String>,
    pub authority: Option<String>,
    pub max_connections: u32,
    pub proxy_header: u32,
    pub backend_wait_limit: u32,
}

impl NativeBackendBuilder {
    /// A builder with endpoint `endpoint` and nothing else set.
    fn with_endpoint(vcl_name: String, endpoint: BackendEndpoint) -> (b: NativeBackendBuilder)
        ensures
            b.endpoint == Some(endpoint),
            b.vcl_name == vcl_name,
            b.hosthdr is None,
            b.authority is None,
            b.max_connections is None && b.proxy_header is None && b.backend_wait_limit is None,
            b.connect_timeout is None && b.first_byte_timeout is None,
            b.between_bytes_timeout is None && b.backend_wait_timeout is None,
    {
        NativeBackendBuilder {
            endpoint: Some(endpoint),
            vcl_name,
            hosthdr: None,
            authority: None,
            connect_timeout: None,
            first_byte_timeout: None,
            between_bytes_timeout: None,
            backend_wait_timeout: None,
            max_connections: None,
            proxy_header: None,
            backend_wait_limit: None,
        }
    }

    /// A builder for a TCP/IP backend.
    pub fn new_ip(vcl_name: String, addr: SocketAddr) -> (b: NativeBackendBuilder)
        ensures
            b.endpoint == Some(BackendEndpoint::Ip(addr)),
            b.vcl_name == vcl_name,
            b.hosthdr is None,
            b.authority is None,
            b.max_connections is None && b.proxy_header is None && b.backend_wait_limit is None,
    {
        Self::with_endpoint(vcl_name, BackendEndpoint::Ip(addr))
    }

    /// A builder for a Unix domain socket backend.
    pub fn new_uds(vcl_name: String, path: String) -> (b: NativeBackendBuilder)
        ensures
            b.endpoint == Some(BackendEndpoint::Uds(path)),
            b.vcl_name == vcl_name,
            b.hosthdr is None,
            b.authority is None,
            b.max_connections is None && b.proxy_header is None && b.backend_wait_limit is None,
    {
        Self::with_endpoint(vcl_name, BackendEndpoint::Uds(path))
    }

    /// Sets the Host header to use when connecting.
    pub fn hosthdr(self, hosthdr: String) -> (b: NativeBackendBuilder)
        ensures
            b == (NativeBackendBuilder { hosthdr: Some(hosthdr), ..self }),
    {
        NativeBackendBuilder { hosthdr: Some(hosthdr), ..self }
    }

    /// Sets the authority for this backend.
    pub fn authority(self, authority: String) -> (b: NativeBackendBuilder)
        ensures
            b == (NativeBackendBuilder { authority: Some(authority), ..self }),
    {
        NativeBackendBuilder { authority: Some(authority), ..self }
    }

    /// Sets the connection timeout.
    pub fn connect_timeout(self, t: Duration) -> (b: NativeBackendBuilder)
        ensures
            b == (NativeBackendBuilder { connect_timeout: Some(t), ..self }),
    {
        NativeBackendBuilder { connect_timeout: Some(t), ..self }
    }

    /// Sets the first byte timeout.
    pub fn first_byte_timeout(self, t: Duration) -> (b: NativeBackendBuilder)
        ensures
            b == (NativeBackendBuilder { first_byte_timeout: Some(t), ..self }),
    {
        NativeBackendBuilder { first_byte_timeout: Some(t), ..self }
    }

    /// Sets the between bytes timeout.
    pub fn between_bytes_timeout(self, t: Duration) -> (b: NativeBackendBuilder)
        ensures
            b == (NativeBackendBuilder { between_bytes_timeout: Some(t), ..self }),
    {
        NativeBackendBuilder { between_bytes_timeout: Some(t), ..self }
    }

    /// Sets the backend wait timeout.
    pub fn backend_wait_timeout(self, t: Duration) -> (b: NativeBackendBuilder)
        ensures
            b == (NativeBackendBuilder { backend_wait_timeout: Some(t), ..self }),
    {
        NativeBackendBuilder { backend_wait_timeout: Some(t), ..self }
    }

    /// Sets the maximum number of connections.
    pub fn max_connections(self, n: u32) -> (b: NativeBackendBuilder)
        ensures
            b == (NativeBackendBuilder { max_connections: Some(n), ..self }),
    {
        NativeBackendBuilder { max_connections: Some(n), ..self }
    }

    /// Sets the proxy protocol header version (0 = disabled, 1 or 2).
    pub fn proxy_header(self, v: u32) -> (b: NativeBackendBuilder)
        ensures
            b == (NativeBackendBuilder { proxy_header: Some(v), ..self }),
    {
        NativeBackendBuilder { proxy_header: Some(v), ..self }
    }

    /// Sets the backend wait limit.
    pub fn backend_wait_limit(self, n: u32) -> (b: NativeBackendBuilder)
        ensures
            b == (NativeBackendBuilder { backend_wait_limit: Some(n), ..self }),
    {
        NativeBackendBuilder { backend_wait_limit: Some(n), ..self }
    }

    /// The settings that building gives: the IP address in the IPv4 or IPv6
    /// slot according to its kind, or the socket path; the limits not set
    /// are 0.
    pub fn settings(&self) -> (s: BackendSettings)
        requires
            self.endpoint is Some,
        ensures
            match self.endpoint {
                Some(BackendEndpoint::Ip(a)) => {
                    &&& a is V4 ==> s.ipv4 == Some(a) && s.ipv6 is None
                    &&& a is V6 ==> s.ipv6 == Some(a) && s.ipv4 is None
                    &&& s.uds_path is None
                },
                Some(BackendEndpoint::Uds(p)) => s.ipv4 is None && s.ipv6 is None && s.uds_path
                    == Some(p),
                None => false,
            },
            s.vcl_name == self.vcl_name,
            s.hosthdr == self.hosthdr,
            s.authority == self.authority,
            s.max_connections == unwrap_or_zero(self.max_connections),
            s.proxy_header == unwrap_or_zero(self.proxy_header),
            s.backend_wait_limit == unwrap_or_zero(self.backend_wait_limit),
    {
        let (ipv4, ipv6, uds_path) = match &self.endpoint {
            Some(BackendEndpoint::Ip(addr)) => if addr.is_ipv4() {
                (Some(*addr), None, None)
            } else {
                (None, Some(*addr), None)
            },
            Some(BackendEndpoint::Uds(p)) => (None, None, Some(p.clone())),
            None => (None, None, None),
        };
        BackendSettings {
            ipv4,
            ipv6,
            uds_path,
            vcl_name: self.vcl_name.clone(),
            hosthdr: self.hosthdr.clone(),
            authority: self.authority.clone(),
            max_connections: opt_or_zero(self.max_connections),
            proxy_header: opt_or_zero(self.proxy_header),
            backend_wait_limit: opt_or_zero(self.backend_wait_limit),
        }
    }
}

/// The value, or 0 when not set.
pub open spec fn unwrap_or_zero(o: Option<u32>) -> u32 {
    match o {
        Some(v) => v,
        None => 0,
    }
}

/// The value, or 0 when not set.
fn opt_or_zero(o: Option<u32>) -> (r: u32)
    ensures
        r == unwrap_or_zero(o),
{
    match o {
        Some(v) => v,
        None => 0,
    }
}

/// The framing of a backend response body: no body, a body of unknown
/// length (chunked, length -1), or a body of the given length (a length of 0
/// being no body).
pub fn response_framing(body: Option<Option<usize>>) -> (r: (BodyState, isize))
    ensures
        match body {
            None => r == (BodyState::NoBody, 0isize),
            Some(None) => r == (BodyState::Chunked, -1isize),
            Some(Some(l)) => if l == 0 {
                r == (BodyState::NoBody, 0isize)
            } else {
                r == (BodyState::Length, l as isize)
            },
        },
{
    match body {
        None => (BodyState::NoBody, 0),
        Some(None) => (BodyState::Chunked, -1),
        Some(Some(l)) => if l == 0 {
            (BodyState::NoBody, 0)
        } else {
            (BodyState::Length, l as isize)
        },
    }
}

/// The status that a backend response gets before it is handed to Varnish:
/// 200 when the backend set none, nothing to set otherwise.
pub fn default_status(beresp: &HttpHeaders) -> (r: Option<u16>)
    ensures
        beresp.spec_field(HDR_STATUS as int) is None ==> r == Some(200u16),
        beresp.spec_field(HDR_STATUS as int) is Some ==> r is None,
{
    match beresp.status() {
        Some(_) => None,
        None => Some(200),
    }
}

/// Gives a backend response without a protocol the protocol `HTTP/1.1`;
/// a response that has one is left as it is.
pub fn fill_default_proto(beresp: &mut HttpHeaders) -> (r: Result<(), VclError>)
    requires
        old(beresp).wf(),
    ensures
        final(beresp).wf(),
        old(beresp).spec_field(HDR_PROTO as int) is Some ==> r is Ok && *final(beresp) == *old(
            beresp,
        ),
        old(beresp).spec_field(HDR_PROTO as int) is None ==> {
            &&& final(beresp).spec_protover() == 11
            &&& final(beresp).spec_capacity() == old(beresp).spec_capacity()
            &&& if "HTTP/1.1".spec_bytes().len() + 1 <= old(beresp).spec_ws().spec_free() {
                &&& r is Ok
                &&& final(beresp).slots() == old(beresp).slots().update(
                    HDR_PROTO as int,
                    Some("HTTP/1.1".spec_bytes()),
                )
                &&& final(beresp).spec_field(HDR_PROTO as int) == Some("HTTP/1.1".spec_bytes())
                &&& final(beresp).flags() == old(beresp).flags().update(HDR_PROTO as int, 0u8)
                &&& final(beresp).spec_ws().spec_free() == old(beresp).spec_ws().spec_free() - (
                "HTTP/1.1".spec_bytes().len() + 1)
            } else {
                &&& r == Err::<(), VclError>(VclError::OutOfWorkspace)
                &&& final(beresp).slots() == old(beresp).slots()
                &&& final(beresp).flags() == old(beresp).flags()
                &&& final(beresp).spec_ws() == old(beresp).spec_ws()
            }
        },
{
    match beresp.proto() {
        Some(_) => Ok(()),
        None => {
            proof {
                reveal_strlit("HTTP/1.1");
                assert(vstd::string::is_ascii("HTTP/1.1"));
                vstd::string::is_ascii_spec_bytes("HTTP/1.1");
                assert("HTTP/1.1".spec_bytes() =~= seq![72u8, 84u8, 84u8, 80u8, 47u8, 49u8, 46u8, 49u8]);
                assert(protover_of("HTTP/1.1".spec_bytes()) == 11);
            }
            beresp.set_proto("HTTP/1.1")
        },
    }
}

/// The state a backend reports in `backend.list`.
pub open spec fn health_word(healthy: bool) -> Seq<char> {
    if healthy {
        "healthy"@
    } else {
        "sick"@
    }
}

/// The plain `backend.list` report of a backend: `0/0`, a tab, and its state.
pub fn report_text(healthy: bool) -> (r: String)
    ensures
        r@ == "0/0\t"@ + health_word(healthy),
{
    let mut r = String::from_str("0/0\t");
    if healthy {
        r.append("healthy");
    } else {
        r.append("sick");
    }
    r
}

/// The JSON `backend.list` report of a backend: `[0, 0, <state>]`.
pub fn report_json_text(healthy: bool) -> (r: String)
    ensures
        r@ == "[0, 0, "@ + health_word(healthy) + "]"@,
{
    let mut r = String::from_str("[0, 0, ");
    if healthy {
        r.append("healthy");
    } else {
        r.append("sick");
    }
    r.append("]");
    r
}

/// The status of one pull of a backend response body.
#[derive(Debug, Clone, Copy, PartialEq, Eq, Structural)]
pub enum VfpStatus {
    /// The pull failed.
    Error,
    /// Bytes were produced (Varnish's `VFP_OK`).
    Produced,
    /// The body is complete.
    End,
}

/// The outcome of one pull into a buffer of `buf_len` bytes, given what the
/// response's reader gave (`None` when it was not called, for an empty
/// buffer): the status and the number of bytes produced.
pub fn pull_outcome(buf_len: usize, read: Option<Result<usize, VclError>>) -> (r: (
    VfpStatus,
    usize,
))
    requires
        buf_len > 0 <==> read is Some,
    ensures
        buf_len == 0 ==> r == (VfpStatus::Produced, 0usize),
        buf_len > 0 ==> match read {
            Some(Err(_)) => r.0 == VfpStatus::Error,
            Some(Ok(0)) => r == (VfpStatus::End, 0usize),
            Some(Ok(l)) => r == (VfpStatus::Produced, l),
            None => false,
        },
{
    match read {
        None => (VfpStatus::Produced, 0),
        Some(Err(_)) => (VfpStatus::Error, 0),
        Some(Ok(l)) => if l == 0 {
            (VfpStatus::End, 0)
        } else {
            (VfpStatus::Produced, l)
        },
    }
}

} // verus!
