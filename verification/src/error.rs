use vstd::prelude::*;

use crate::strings::{decimal, push_decimal, string_push_str};

verus! {

/// Errors reported by the library.
///
/// Each variant is one failure that a VCL-facing operation can report.
#[derive(Debug, PartialEq, Eq)]
pub enum VclError {
    /// Every header slot of an HTTP object is taken.
    NoHeaderSlot,
    /// The workspace has no room left for a copy.
    OutOfWorkspace,
    /// The workspace has no room left for a formatted header value.
    NoSpaceForHeaderValue,
    /// The context has no client request.
    NoReq,
    /// The request body has not been cached beforehand.
    BodyNotCached,
    /// Iterating over the cached request body failed.
    BodyIterationFailed,
    /// Neither a request body nor a backend request body is reachable from
    /// the context.
    BodyUnavailable,
    /// Reading the client request body failed.
    ReqBodyReadError,
    /// Reading the streamed backend request body failed.
    BereqBodyStreamReadError,
    /// A backend or director needs a name.
    EmptyBackendName,
    /// An endpoint needs an IPv4 address, an IPv6 address or a socket path.
    EmptyEndpoint,
    /// Varnish created no backend for the configuration of this name.
    NewBackendFailed(String),
    /// Varnish registered no director of this name.
    AddDirectorFailed(String),
    /// A name meant for C holds a NUL byte at this byte position.
    NulByte(usize),
    /// `local.socket` cannot be read in this context.
    LocalSocketUnavailable,
    /// `local.endpoint` cannot be read in this context.
    LocalEndpointUnavailable,
    /// A free-form message.
    Message(String),
}

/// The text of an error.
pub open spec fn error_text(e: VclError) -> Seq<char> {
    match e {
        VclError::NoHeaderSlot => "no more header slot"@,
        VclError::OutOfWorkspace => "insufficient workspace"@,
        VclError::NoSpaceForHeaderValue => "no space in the workspace for the header value"@,
        VclError::NoReq => "req object isn't available"@,
        VclError::BodyNotCached => "request body hasn't been previously cached"@,
        VclError::BodyIterationFailed => "req.body iteration failed"@,
        VclError::BodyUnavailable => "req.body/bereq.body isn't available in this context"@,
        VclError::ReqBodyReadError => "req.body read error"@,
        VclError::BereqBodyStreamReadError => "bereq.body (streamed) read error"@,
        VclError::EmptyBackendName => "Backend name cannot be empty"@,
        VclError::EmptyEndpoint => "Endpoint must have at least one of: ipv4, ipv6, or uds_path"@,
        VclError::NewBackendFailed(n) => "VRT_new_backend returned null for '"@ + n@ + "'"@,
        VclError::AddDirectorFailed(n) => "VRT_AddDirector returned null for "@ + n@,
        VclError::NulByte(i) => "nul byte found in provided data at position: "@ + decimal(
            i as nat,
        ),
        VclError::LocalSocketUnavailable => "local.socket isn't available in this context"@,
        VclError::LocalEndpointUnavailable => "local.endpoint isn't available in this context"@,
        VclError::Message(m) => m@,
    }
}

impl VclError {
    /// The text of this error.
    pub fn message(&self) -> (m: String)
        ensures
            m@ == error_text(*self),
    {
        match self {
            VclError::NoHeaderSlot => String::from_str("no more header slot"),
            VclError::OutOfWorkspace => String::from_str("insufficient workspace"),
            VclError::NoSpaceForHeaderValue => String::from_str(
                "no space in the workspace for the header value",
            ),
            VclError::NoReq => String::from_str("req object isn't available"),
            VclError::BodyNotCached => String::from_str("request body hasn't been previously cached"),
            VclError::BodyIterationFailed => String::from_str("req.body iteration failed"),
            VclError::BodyUnavailable => String::from_str(
                "req.body/bereq.body isn't available in this context",
            ),
            VclError::ReqBodyReadError => String::from_str("req.body read error"),
            VclError::BereqBodyStreamReadError => String::from_str(
                "bereq.body (streamed) read error",
            ),
            VclError::EmptyBackendName => String::from_str("Backend name cannot be empty"),
            VclError::EmptyEndpoint => String::from_str(
                "Endpoint must have at least one of: ipv4, ipv6, or uds_path",
            ),
            VclError::NewBackendFailed(n) => {
                let mut m = String::from_str("VRT_new_backend returned null for '");
                string_push_str(&mut m, n.as_str());
                string_push_str(&mut m, "'");
                m
            },
            VclError::AddDirectorFailed(n) => {
                let mut m = String::from_str("VRT_AddDirector returned null for ");
                string_push_str(&mut m, n.as_str());
                m
            },
            VclError::NulByte(i) => {
                let mut m = String::from_str("nul byte found in provided data at position: ");
                push_decimal(&mut m, *i);
                m
            },
            VclError::LocalSocketUnavailable => String::from_str(
                "local.socket isn't available in this context",
            ),
            VclError::LocalEndpointUnavailable => String::from_str(
                "local.endpoint isn't available in this context",
            ),
            VclError::Message(m) => m.clone(),
        }
    }
}

} // verus!
