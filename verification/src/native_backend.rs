//! Configuration of native backends, for which Varnish does all the HTTP
//! networking, connection pooling and health probing.
use vstd::prelude::*;

use std::time::Duration;

use crate::backend::VCL_BACKEND;
use crate::endpoint::Endpoint;
use crate::error::VclError;
use crate::probe::Probe;

verus! {

/// Configuration for a native backend.
#[derive(Debug)]
pub struct NativeBackendConfig {
    /// Backend name (used in logs and CLI).
    pub name: String,
    /// Network endpoint (IP address or Unix socket).
    pub endpoint: Endpoint,
    /// Host header value (defaults to endpoint address if not set).
    pub host_header: Option<String>,
    /// Authority header for HTTP/2.
    pub authority: Option<String>,
    /// Connection timeout (`None`: the Varnish default).
    pub connect_timeout: Option<Duration>,
    /// Timeout for the first byte of the response (`None`: the Varnish default).
    pub first_byte_timeout: Option<Duration>,
    /// Timeout between response bytes (`None`: the Varnish default).
    pub between_bytes_timeout: Option<Duration>,
    /// Timeout waiting for a connection slot (`None`: the Varnish default).
    pub backend_wait_timeout: Option<Duration>,
    /// Maximum concurrent connections (0: unlimited).
    pub max_connections: u32,
    /// PROXY protocol header version (0: none, 1 or 2).
    pub proxy_header: u8,
    /// Maximum number of requests waiting for a connection slot (0: unlimited).
    pub backend_wait_limit: u32,
    /// Health probe configuration.
    pub probe: Option<Probe<String>>,
}

impl NativeBackendConfig {
    /// A configuration with the given name and endpoint, and nothing else set.
    pub fn new(name: String, endpoint: Endpoint) -> (c: NativeBackendConfig)
        ensures
            c.name == name,
            c.endpoint == endpoint,
            c.host_header is None,
            c.authority is None,
            c.connect_timeout is None,
            c.first_byte_timeout is None,
            c.between_bytes_timeout is None,
            c.backend_wait_timeout is None,
            c.max_connections == 0,
            c.proxy_header == 0,
            c.backend_wait_limit == 0,
            c.probe is None,
    {
        NativeBackendConfig {
            name,
            endpoint,
            host_header: None,
            authority: None,
            connect_timeout: None,
            first_byte_timeout: None,
            between_bytes_timeout: None,
            backend_wait_timeout: None,
            max_connections: 0,
            proxy_header: 0,
            backend_wait_limit: 0,
            probe: None,
        }
    }

    /// Sets the Host header value.
    pub fn with_host_header(self, host: String) -> (c: NativeBackendConfig)
        ensures
            c == (NativeBackendConfig { host_header: Some(host), ..self }),
    {
        NativeBackendConfig { host_header: Some(host), ..self }
    }

    /// Sets the authority for HTTP/2.
    pub fn with_authority(self, authority: String) -> (c: NativeBackendConfig)
        ensures
            c == (NativeBackendConfig { authority: Some(authority), ..self }),
    {
        NativeBackendConfig { authority: Some(authority), ..self }
    }

    /// Sets the connection timeout.
    pub fn with_connect_timeout(self, timeout: Duration) -> (c: NativeBackendConfig)
        ensures
            c == (NativeBackendConfig { connect_timeout: Some(timeout), ..self }),
    {
        NativeBackendConfig { connect_timeout: Some(timeout), ..self }
    }

    /// Sets the first byte timeout.
    pub fn with_first_byte_timeout(self, timeout: Duration) -> (c: NativeBackendConfig)
        ensures
            c == (NativeBackendConfig { first_byte_timeout: Some(timeout), ..self }),
    {
        NativeBackendConfig { first_byte_timeout: Some(timeout), ..self }
    }

    /// Sets the between bytes timeout.
    pub fn with_between_bytes_timeout(self, timeout: Duration) -> (c: NativeBackendConfig)
        ensures
            c == (NativeBackendConfig { between_bytes_timeout: Some(timeout), ..self }),
    {
        NativeBackendConfig { between_bytes_timeout: Some(timeout), ..self }
    }

    /// Sets the backend wait timeout.
    pub fn with_backend_wait_timeout(self, timeout: Duration) -> (c: NativeBackendConfig)
        ensures
            c == (NativeBackendConfig { backend_wait_timeout: Some(timeout), ..self }),
    {
        NativeBackendConfig { backend_wait_timeout: Some(timeout), ..self }
    }

    /// Sets the maximum number of concurrent connections.
    pub fn with_max_connections(self, max: u32) -> (c: NativeBackendConfig)
        ensures
            c == (NativeBackendConfig { max_connections: max, ..self }),
    {
        NativeBackendConfig { max_connections: max, ..self }
    }

    /// Sets the PROXY protocol version (0, 1, or 2).
    pub fn with_proxy_header(self, version: u8) -> (c: NativeBackendConfig)
        ensures
            c == (NativeBackendConfig { proxy_header: version, ..self }),
    {
        NativeBackendConfig { proxy_header: version, ..self }
    }

    /// Sets the maximum number of requests waiting for a connection slot.
    pub fn with_backend_wait_limit(self, limit: u32) -> (c: NativeBackendConfig)
        ensures
            c == (NativeBackendConfig { backend_wait_limit: limit, ..self }),
    {
        NativeBackendConfig { backend_wait_limit: limit, ..self }
    }

    /// Sets the health probe.
    pub fn with_probe(self, probe: Probe<String>) -> (c: NativeBackendConfig)
        ensures
            c == (NativeBackendConfig { probe: Some(probe), ..self }),
    {
        NativeBackendConfig { probe: Some(probe), ..self }
    }

    /// The checks made before Varnish is asked for the backend: the name must
    /// not be empty ([`VclError::EmptyBackendName`]), then the endpoint must
    /// have somewhere to connect to ([`VclError::EmptyEndpoint`]).
    pub fn validate(&self) -> (r: Result<(), VclError>)
        ensures
            self.name@.len() == 0 ==> r == Err::<(), VclError>(VclError::EmptyBackendName),
            self.name@.len() != 0 && !self.endpoint.spec_has_target() ==> r == Err::<
                (),
                VclError,
            >(VclError::EmptyEndpoint),
            self.name@.len() != 0 && self.endpoint.spec_has_target() ==> r is Ok,
    {
        if self.name.as_str().is_empty() {
            return Err(VclError::EmptyBackendName);
        }
        self.endpoint.validate()
    }
}

/// A native backend managed by Varnish.
#[derive(Debug)]
pub struct NativeBackend {
    ptr: VCL_BACKEND,
}

impl NativeBackend {
    /// The backend.
    pub closed spec fn spec_ptr(&self) -> VCL_BACKEND {
        self.ptr
    }

    /// The backend that Varnish created at `ptr` for `config`; fails with
    /// [`VclError::NewBackendFailed`] and the backend's name when Varnish
    /// created none.
    pub fn from_created(config: &NativeBackendConfig, ptr: VCL_BACKEND) -> (r: Result<
        NativeBackend,
        VclError,
    >)
        ensures
            ptr.spec_is_null() ==> r == Err::<NativeBackend, VclError>(
                VclError::NewBackendFailed(config.name),
            ),
            !ptr.spec_is_null() ==> (r matches Ok(b) && b.spec_ptr() == ptr),
    {
        if ptr.is_null() {
            return Err(VclError::NewBackendFailed(config.name.clone()));
        }
        Ok(NativeBackend { ptr })
    }

    /// The backend, for use in VCL.
    pub fn vcl_ptr(&self) -> (r: VCL_BACKEND)
        ensures
            r == self.spec_ptr(),
    {
        self.ptr
    }
}

} // verus!
