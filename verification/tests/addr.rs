use dns_checker::addr::{dial, resolve_proxy, resolve_target, target_found, Dial, TargetPlan};
use dns_checker::error::{Error, ErrorKind};
use dns_checker::ip::{IpAddr, SocketAddr};
use dns_checker::time::Duration;
use dns_checker::DNS_PORT;

const LOOPBACK_V6: IpAddr = IpAddr::V6([0, 0, 0, 0, 0, 0, 0, 0, 0, 0, 0, 0, 0, 0, 0, 1]);

fn known(plan: TargetPlan) -> SocketAddr {
    match plan {
        TargetPlan::Known(addr) => addr,
        TargetPlan::Lookup(text) => panic!("a lookup of {}", text),
    }
}

#[test]
fn resolve_bare_ipv4_gets_default_port() {
    let a = known(resolve_target("8.8.8.8", None, Some(IpAddr::V4([8, 8, 8, 8]))));
    assert_eq!(a.port, DNS_PORT);
    assert_eq!(a.ip, IpAddr::V4([8, 8, 8, 8]));
}

#[test]
fn resolve_bare_ipv6_gets_default_port() {
    let a = known(resolve_target("::1", None, Some(LOOPBACK_V6)));
    assert_eq!(a.port, DNS_PORT);
    assert!(a.ip.is_ipv6());
}

#[test]
fn resolve_full_ipv6_gets_default_port() {
    let ip = IpAddr::V6([
        0x20, 0x01, 0x48, 0x60, 0x48, 0x60, 0, 0, 0, 0, 0, 0, 0, 0, 0x88, 0x88,
    ]);
    let a = known(resolve_target("2001:4860:4860::8888", None, Some(ip)));
    assert_eq!(a.port, DNS_PORT);
    assert!(a.ip.is_ipv6());
}

#[test]
fn resolve_ipv4_with_explicit_port() {
    let socket = SocketAddr::new(IpAddr::V4([8, 8, 8, 8]), 5353);
    let a = known(resolve_target("8.8.8.8:5353", Some(socket), None));
    assert_eq!(a.port, 5353);
}

#[test]
fn resolve_ipv6_with_explicit_port() {
    let socket = SocketAddr::new(LOOPBACK_V6, 5353);
    let a = known(resolve_target("[::1]:5353", Some(socket), None));
    assert_eq!(a.port, 5353);
    assert!(a.ip.is_ipv6());
}

/// The system finds the endpoint of a proxy that names its port, and refuses one that does not.
#[test]
fn resolve_proxy_requires_port() {
    let found = SocketAddr::new(IpAddr::V4([127, 0, 0, 1]), 1080);
    assert!(resolve_proxy("127.0.0.1:1080", Ok(vec![found])).is_ok());
    let refused = Error::new(ErrorKind::InvalidInput, "invalid socket address");
    assert!(resolve_proxy("127.0.0.1", Err(refused)).is_err());
}

#[test]
fn host_name_is_looked_up_with_the_port_of_dns() {
    match resolve_target("dns.google", None, None) {
        TargetPlan::Lookup(text) => assert_eq!(text, "dns.google:53"),
        TargetPlan::Known(_) => panic!("a host name is no literal"),
    }
}

#[test]
fn first_endpoint_found_counts() {
    let first = SocketAddr::new(IpAddr::V4([8, 8, 4, 4]), 53);
    let second = SocketAddr::new(IpAddr::V4([8, 8, 8, 8]), 53);
    assert_eq!(target_found("dns.google", Ok(vec![first, second])).unwrap(), first);
    assert_eq!(resolve_proxy("proxy:1080", Ok(vec![second, first])).unwrap(), second);
}

#[test]
fn nothing_found_is_an_error() {
    let err = target_found("nowhere", Ok(vec![])).unwrap_err();
    assert_eq!(err.kind(), ErrorKind::AddrNotAvailable);
    assert_eq!(err.message, "no address resolved for target: nowhere");
    let err = resolve_proxy("nowhere:1", Ok(vec![])).unwrap_err();
    assert_eq!(err.kind(), ErrorKind::InvalidInput);
    assert_eq!(err.message, "invalid proxy address: nowhere:1");
}

#[test]
fn failed_lookup_is_passed_on() {
    let fault = Error::new(ErrorKind::Other, "temporary failure in name resolution");
    assert_eq!(target_found("dns.google", Err(fault.clone())).unwrap_err(), fault);
    assert_eq!(resolve_proxy("proxy:1080", Err(fault.clone())).unwrap_err(), fault);
}

#[test]
fn proxy_decides_the_way() {
    let target = SocketAddr::new(IpAddr::V4([8, 8, 8, 8]), 53);
    let proxy = SocketAddr::new(IpAddr::V4([127, 0, 0, 1]), 1080);
    let timeout = Duration::from_secs(3);
    assert_eq!(dial(target, None, timeout), Dial::Direct { target, timeout });
    assert_eq!(dial(target, Some(proxy), timeout), Dial::Proxied { proxy, target, timeout });
}
