use varnish::endpoint::{Endpoint, SocketAddr};
use varnish::error::VclError;

fn v4() -> SocketAddr {
    // 127.0.0.1:8080
    SocketAddr::V4 { octets: [127, 0, 0, 1], port: 8080 }
}

fn v6() -> SocketAddr {
    // [::1]:8080
    SocketAddr::V6 { segments: [0, 0, 0, 0, 0, 0, 0, 1], port: 8080, flowinfo: 0, scope_id: 0 }
}

#[test]
fn test_endpoint_ipv4() {
    let addr = v4();
    let ep = Endpoint::ip(addr);
    assert_eq!(ep.ipv4, Some(addr));
    assert_eq!(ep.ipv6, None);
    assert_eq!(ep.uds_path, None);
}

#[test]
fn test_endpoint_ipv6() {
    let addr = v6();
    let ep = Endpoint::ip(addr);
    assert_eq!(ep.ipv4, None);
    assert_eq!(ep.ipv6, Some(addr));
    assert_eq!(ep.uds_path, None);
}

#[test]
fn test_endpoint_uds() {
    let ep = Endpoint::uds("/var/run/backend.sock".to_string());
    assert_eq!(ep.ipv4, None);
    assert_eq!(ep.ipv6, None);
    assert_eq!(ep.uds_path, Some("/var/run/backend.sock".to_string()));
}

#[test]
fn test_endpoint_dual_stack() {
    let ep = Endpoint::dual_stack(v4(), v6());
    assert_eq!(ep.ipv4, Some(v4()));
    assert_eq!(ep.ipv6, Some(v6()));
}

#[test]
fn test_endpoint_with_preamble() {
    let preamble = b"PROXY TCP4 1.2.3.4 5.6.7.8 12345 80\r\n".to_vec();
    let ep = Endpoint::ip(v4()).with_preamble(preamble.clone());
    assert_eq!(ep.preamble, Some(preamble));
    assert_eq!(ep.ipv4, Some(v4()));
}

#[test]
fn test_endpoint_explicit_kinds() {
    assert_eq!(Endpoint::ipv4(v4()).ipv4, Some(v4()));
    assert_eq!(Endpoint::ipv6(v6()).ipv6, Some(v6()));
    assert!(v4().is_ipv4() && !v4().is_ipv6());
    assert!(v6().is_ipv6() && !v6().is_ipv4());
}

#[test]
fn test_endpoint_validate() {
    assert_eq!(Endpoint::default().validate(), Err(VclError::EmptyEndpoint));
    assert_eq!(
        Endpoint::default().with_preamble(vec![1]).validate(),
        Err(VclError::EmptyEndpoint)
    );
    assert_eq!(Endpoint::ip(v4()).validate(), Ok(()));
    assert_eq!(Endpoint::uds("/s".to_string()).validate(), Ok(()));
}
