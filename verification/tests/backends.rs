use std::borrow::Cow;
use std::time::Duration;

use varnish::backend::{
    default_status,
    added_director, check_c_name, check_director_names, fill_default_proto, pull_outcome,
    report_json_text, report_text, resolved_ref, response_framing, BackendEndpoint,
    NativeBackend as OwnedBackend, NativeBackendBuilder, VfpStatus, VCL_BACKEND,
};
use varnish::ctx::BodyState;
use varnish::director::{resolved_backend, Director, VclDirector};
use varnish::endpoint::{Endpoint, SocketAddr};
use varnish::error::VclError;
use varnish::http::HttpHeaders;
use varnish::native_backend::{NativeBackend, NativeBackendConfig};
use varnish::probe::{request_from, Probe, Request};
use varnish::workspace::Workspace;

fn v4() -> SocketAddr {
    SocketAddr::V4 { octets: [127, 0, 0, 1], port: 8080 }
}

#[test]
fn test_native_backend_config_builders() {
    let c = NativeBackendConfig::new("be".to_string(), Endpoint::ip(v4()))
        .with_host_header("example.com".to_string())
        .with_authority("auth".to_string())
        .with_connect_timeout(Duration::from_secs(1))
        .with_first_byte_timeout(Duration::from_secs(2))
        .with_between_bytes_timeout(Duration::from_secs(3))
        .with_backend_wait_timeout(Duration::from_secs(4))
        .with_max_connections(10)
        .with_proxy_header(2)
        .with_backend_wait_limit(5);
    assert_eq!(c.name, "be");
    assert_eq!(c.host_header.as_deref(), Some("example.com"));
    assert_eq!(c.authority.as_deref(), Some("auth"));
    assert_eq!(c.connect_timeout, Some(Duration::from_secs(1)));
    assert_eq!(c.first_byte_timeout, Some(Duration::from_secs(2)));
    assert_eq!(c.between_bytes_timeout, Some(Duration::from_secs(3)));
    assert_eq!(c.backend_wait_timeout, Some(Duration::from_secs(4)));
    assert_eq!(c.max_connections, 10);
    assert_eq!(c.proxy_header, 2);
    assert_eq!(c.backend_wait_limit, 5);
    assert!(c.probe.is_none());
    assert_eq!(c.validate(), Ok(()));
}

#[test]
fn test_native_backend_config_validate() {
    let c = NativeBackendConfig::new(String::new(), Endpoint::ip(v4()));
    assert_eq!(c.validate(), Err(VclError::EmptyBackendName));
    let c = NativeBackendConfig::new(String::new(), Endpoint::default());
    assert_eq!(c.validate(), Err(VclError::EmptyBackendName));
    let c = NativeBackendConfig::new("x".to_string(), Endpoint::default());
    assert_eq!(c.validate(), Err(VclError::EmptyEndpoint));
}

#[test]
fn test_native_backend_created() {
    let c = NativeBackendConfig::new("be".to_string(), Endpoint::ip(v4()));
    assert_eq!(
        NativeBackend::from_created(&c, VCL_BACKEND(0)).unwrap_err(),
        VclError::NewBackendFailed("be".to_string())
    );
    let b = NativeBackend::from_created(&c, VCL_BACKEND(42)).unwrap();
    assert_eq!(b.vcl_ptr(), VCL_BACKEND(42));
}

#[test]
fn test_owned_backend_ref() {
    assert!(OwnedBackend::from_ptr(VCL_BACKEND(0)).is_none());
    let b = OwnedBackend::from_ptr(VCL_BACKEND(7)).unwrap();
    assert_eq!(b.backend_ref().vcl_ptr(), VCL_BACKEND(7));
    assert!(VCL_BACKEND(0).is_null());
}

#[test]
fn test_builder_settings() {
    let b = NativeBackendBuilder::new_ip("be".to_string(), v4()).max_connections(3);
    let s = b.settings();
    assert_eq!(s.ipv4, Some(v4()));
    assert_eq!(s.ipv6, None);
    assert_eq!(s.max_connections, 3);
    assert_eq!(s.proxy_header, 0);
    assert_eq!(s.backend_wait_limit, 0);
    let v6 = SocketAddr::V6 { segments: [0, 0, 0, 0, 0, 0, 0, 1], port: 80, flowinfo: 0, scope_id: 0 };
    let s = NativeBackendBuilder::new_ip("be".to_string(), v6).proxy_header(1).settings();
    assert_eq!(s.ipv4, None);
    assert_eq!(s.ipv6, Some(v6));
    assert_eq!(s.proxy_header, 1);
    let b = NativeBackendBuilder::new_uds("u".to_string(), "/s".to_string())
        .hosthdr("h".to_string())
        .backend_wait_limit(9);
    assert!(matches!(b.endpoint, Some(BackendEndpoint::Uds(_))));
    let s = b.settings();
    assert_eq!(s.uds_path.as_deref(), Some("/s"));
    assert_eq!(s.hosthdr.as_deref(), Some("h"));
    assert_eq!(s.backend_wait_limit, 9);
    assert_eq!(s.vcl_name, "u");
}

#[test]
fn test_c_names() {
    assert_eq!(check_c_name("abc"), Ok(()));
    assert_eq!(check_c_name("a\0b\0"), Err(VclError::NulByte(1)));
    assert_eq!(check_director_names("rr", "x\0"), Err(VclError::NulByte(1)));
    assert_eq!(check_director_names("\0rr", "x\0"), Err(VclError::NulByte(0)));
    assert_eq!(check_director_names("rr", "name"), Ok(()));
    assert_eq!(
        added_director("d1", VCL_BACKEND(0)).unwrap_err(),
        VclError::AddDirectorFailed("d1".to_string())
    );
    assert_eq!(added_director("d1", VCL_BACKEND(5)).unwrap().vcl_ptr(), VCL_BACKEND(5));
}

#[test]
fn test_response_framing() {
    assert_eq!(response_framing(None), (BodyState::NoBody, 0));
    assert_eq!(response_framing(Some(None)), (BodyState::Chunked, -1));
    assert_eq!(response_framing(Some(Some(0))), (BodyState::NoBody, 0));
    assert_eq!(response_framing(Some(Some(42))), (BodyState::Length, 42));
}

#[test]
fn test_fill_default_proto() {
    let hd = vec![None, None, None, None, None];
    let mut beresp = HttpHeaders::from_parts(hd, vec![0; 5], 10, 0, Workspace::new(100)).unwrap();
    fill_default_proto(&mut beresp).unwrap();
    assert_eq!(beresp.proto(), Some(b"HTTP/1.1".to_vec()));
    assert_eq!(beresp.protover(), 11);
    let hd = vec![None, None, Some(b"HTTP/1.0".to_vec()), None, None];
    let mut beresp = HttpHeaders::from_parts(hd, vec![0; 5], 10, 10, Workspace::new(100)).unwrap();
    fill_default_proto(&mut beresp).unwrap();
    assert_eq!(beresp.proto(), Some(b"HTTP/1.0".to_vec()));
    let hd = vec![None, None, None, None, None];
    let mut small = HttpHeaders::from_parts(hd, vec![0; 5], 10, 0, Workspace::new(3)).unwrap();
    assert_eq!(fill_default_proto(&mut small), Err(VclError::OutOfWorkspace));
    // the version number is set even when the text does not fit
    assert_eq!(small.protover(), 11);
    assert_eq!(small.proto(), None);
}

#[test]
fn test_default_status() {
    let hd = vec![None, None, Some(b"HTTP/1.1".to_vec()), None, None];
    let beresp = HttpHeaders::from_parts(hd, vec![0; 5], 10, 11, Workspace::new(100)).unwrap();
    assert_eq!(default_status(&beresp), Some(200));
    let hd = vec![None, None, None, Some(b"404".to_vec()), Some(b"Not Found".to_vec())];
    let beresp = HttpHeaders::from_parts(hd, vec![0; 5], 10, 0, Workspace::new(100)).unwrap();
    assert_eq!(default_status(&beresp), None);
}

#[test]
fn test_reports() {
    assert_eq!(report_text(true), "0/0\thealthy");
    assert_eq!(report_text(false), "0/0\tsick");
    assert_eq!(report_json_text(true), "[0, 0, healthy]");
    assert_eq!(report_json_text(false), "[0, 0, sick]");
}

#[test]
fn test_pull_outcome() {
    assert_eq!(pull_outcome(0, None), (VfpStatus::Produced, 0));
    assert_eq!(pull_outcome(10, Some(Ok(0))), (VfpStatus::End, 0));
    assert_eq!(pull_outcome(10, Some(Ok(4))), (VfpStatus::Produced, 4));
    assert_eq!(pull_outcome(10, Some(Err(VclError::NoReq))).0, VfpStatus::Error);
}

struct Fixed(Option<VCL_BACKEND>);

impl VclDirector for Fixed {
    fn resolve(&self, _ctx: &mut varnish::ctx::Ctx) -> Option<VCL_BACKEND> {
        self.0
    }
    fn release(&self) {}
}

#[test]
fn test_director() {
    assert_eq!(resolved_backend(Some(VCL_BACKEND(3))), VCL_BACKEND(3));
    assert_eq!(resolved_backend(None), VCL_BACKEND(0));
    let mut ctx = varnish::ctx::Ctx::new(Workspace::new(0), None, None);
    let d = Director::from_added("rr", VCL_BACKEND(9), Fixed(Some(VCL_BACKEND(4)))).unwrap();
    assert_eq!(d.vcl_ptr(), VCL_BACKEND(9));
    assert_eq!(d.get_inner().resolve(&mut ctx), Some(VCL_BACKEND(4)));
    assert!(d.get_inner().healthy(&mut ctx).0);
    assert!(matches!(
        Director::from_added("rr", VCL_BACKEND(0), Fixed(None)),
        Err(VclError::AddDirectorFailed(n)) if n == "rr"
    ));
    let r = added_director("x", VCL_BACKEND(2)).unwrap();
    assert_eq!(resolved_ref(&Some(r)), VCL_BACKEND(2));
    assert_eq!(resolved_ref(&None), VCL_BACKEND(0));
}

#[test]
fn test_probe_to_owned() {
    let p: Probe<Cow<'_, str>> = Probe {
        request: Request::Url(Cow::Borrowed("/health")),
        timeout: Duration::from_secs(2),
        interval: Duration::from_secs(5),
        exp_status: 200,
        window: 8,
        threshold: 3,
        initial: 2,
    };
    let o = p.to_owned();
    assert!(matches!(o.request, Request::Url(ref s) if s == "/health"));
    assert_eq!(o.timeout, Duration::from_secs(2));
    assert_eq!(o.interval, Duration::from_secs(5));
    assert_eq!((o.exp_status, o.window, o.threshold, o.initial), (200, 8, 3, 2));
    let p: Probe<Cow<'_, str>> = Probe { request: Request::Text(Cow::Owned("GET / HTTP/1.1\r\n\r\n".to_string())), ..p };
    assert!(matches!(p.to_owned().request, Request::Text(ref s) if s == "GET / HTTP/1.1\r\n\r\n"));
}

#[test]
fn test_probe_request_from() {
    assert!(matches!(request_from(Some("/h".to_string()), None), Request::Url(ref s) if s == "/h"));
    assert!(matches!(request_from(None, Some("raw".to_string())), Request::Text(ref s) if s == "raw"));
}
