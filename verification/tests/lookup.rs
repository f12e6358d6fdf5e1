use dns_checker::addr::Dial;
use dns_checker::dns::{build_query, tcp_frame, QTYPE_A, QTYPE_AAAA};
use dns_checker::error::{Error, ErrorKind};
use dns_checker::ip::{IpAddr, SocketAddr};
use dns_checker::lookup::{
    doh_outcome, query, query_doh, resolve, Lookup, QueryAction, QueryEvent, ResolveAction,
};
use dns_checker::time::Duration;

fn endpoint(port: u16) -> SocketAddr {
    SocketAddr::new(IpAddr::V4([127, 0, 0, 1]), port)
}

fn answer() -> Vec<u8> {
    vec![
        0x12, 0x34, 0x81, 0x80, 0x00, 0x01, 0x00, 0x01, 0x00, 0x00, 0x00, 0x00, //
        0x02, b'q', b'q', 0x03, b'c', b'o', b'm', 0x00, //
        0x00, 0x01, 0x00, 0x01, //
        0xc0, 0x0c, 0x00, 0x01, 0x00, 0x01, 0x00, 0x00, 0x00, 0x00, 0x00, 0x04, //
        0x08, 0x08, 0x08, 0x08,
    ]
}

/// Performs a query against a server that sends `input`: the connection that is made, what the
/// server receives, and the outcome.
fn run(
    server: &str,
    proxy: Option<&str>,
    timeout: Duration,
    input: &[u8],
) -> (Option<Dial>, Vec<u8>, Lookup) {
    let (mut query, mut action) = query(server, "qq.com", QTYPE_A, timeout, proxy);
    let mut way = None;
    let mut received = Vec::new();
    let mut taken = 0;
    loop {
        let event = match action {
            QueryAction::ResolveServer(name) => {
                assert_eq!(name, server);
                QueryEvent::Resolved(endpoint(5300))
            }
            QueryAction::ResolveProxy(name) => {
                assert_eq!(Some(name.as_str()), proxy);
                QueryEvent::Resolved(endpoint(1080))
            }
            QueryAction::Connect(dial) => {
                way = Some(dial);
                QueryEvent::Connected
            }
            QueryAction::Exchange { send, expect } => {
                received.extend_from_slice(&send);
                taken += expect;
                if taken <= input.len() {
                    QueryEvent::Received(input[taken - expect..taken].to_vec())
                } else {
                    QueryEvent::Failed(Error::new(ErrorKind::UnexpectedEof, "closed"))
                }
            }
            QueryAction::Finish(lookup) => return (way, received, lookup),
        };
        action = query.step(event);
    }
}

/// The whole way of a query.
#[test]
fn query_against_mock_server() {
    let timeout = Duration::from_secs(2);
    let (way, received, lookup) = run("127.0.0.1:5300", None, timeout, &tcp_frame(&answer()));
    assert_eq!(way, Some(Dial::Direct { target: endpoint(5300), timeout }));
    let qlen = u16::from_be_bytes([received[0], received[1]]) as usize;
    let q = &received[2..];
    assert_eq!(q.len(), qlen);
    assert_eq!(&q[12..20], &[0x02, b'q', b'q', 0x03, b'c', b'o', b'm', 0x00]);
    assert_eq!(lookup.unwrap(), vec![IpAddr::V4([8, 8, 8, 8])]);
}

#[test]
fn query_goes_through_the_proxy() {
    let timeout = Duration::from_secs(2);
    let input = tcp_frame(&answer());
    let (way, _, lookup) = run("8.8.8.8", Some("127.0.0.1:1080"), timeout, &input);
    assert_eq!(
        way,
        Some(Dial::Proxied { proxy: endpoint(1080), target: endpoint(5300), timeout })
    );
    assert_eq!(lookup.unwrap().len(), 1);
}

#[test]
fn query_rejects_a_short_response() {
    let (_, _, lookup) = run("8.8.8.8", None, Duration::from_secs(1), &[0, 11, 1, 2, 3]);
    assert_eq!(lookup.unwrap_err().message, "dns response too short");
}

#[test]
fn query_reports_a_broken_connection() {
    let framed = tcp_frame(&answer());
    for len in 0..framed.len() {
        let (_, _, lookup) = run("8.8.8.8", None, Duration::from_secs(1), &framed[..len]);
        assert_eq!(lookup.unwrap_err().kind(), ErrorKind::UnexpectedEof);
    }
}

#[test]
fn query_stops_at_the_first_failure() {
    let fault = Error::new(ErrorKind::NetworkUnreachable, "unreachable");
    let (mut q, _) = query("8.8.8.8", "qq.com", QTYPE_A, Duration::from_secs(1), None);
    match q.step(QueryEvent::Failed(fault.clone())) {
        QueryAction::Finish(lookup) => assert_eq!(lookup.unwrap_err(), fault),
        _ => panic!("a failure ends the query"),
    }
}

#[test]
fn doh_request_carries_the_same_message() {
    let timeout = Duration::from_secs(15);
    let request = query_doh("https://doh.pub/dns-query", "qq.com", QTYPE_A, timeout);
    assert_eq!(request.url, "https://doh.pub/dns-query");
    assert_eq!(request.content_type, "application/dns-message");
    assert_eq!(request.accept, "application/dns-message");
    assert_eq!(request.body, build_query("qq.com", QTYPE_A));
    assert_eq!(request.timeout, timeout);
}

#[test]
fn doh_response_is_read_like_any_other() {
    assert_eq!(doh_outcome(Ok(answer()), QTYPE_A).unwrap(), vec![IpAddr::V4([8, 8, 8, 8])]);
    assert_eq!(doh_outcome(Ok(answer()), QTYPE_AAAA).unwrap(), vec![]);
    let fault = Error::new(ErrorKind::Other, "status code 503");
    assert_eq!(doh_outcome(Err(fault.clone()), QTYPE_A).unwrap_err(), fault);
}

/// A body that cannot hold a header is refused over HTTPS as it is over TCP.
#[test]
fn doh_rejects_a_short_body() {
    let whole = [0x12, 0x34, 0x81, 0x80, 0, 0, 0, 0, 0, 0, 0, 0];
    for len in 0..12 {
        let err = doh_outcome(Ok(whole[..len].to_vec()), QTYPE_A).unwrap_err();
        assert_eq!(err.kind(), ErrorKind::InvalidData);
        assert_eq!(err.message, "dns response too short");
    }
    assert_eq!(doh_outcome(Ok(whole.to_vec()), QTYPE_A).unwrap(), vec![]);
}

/// A short body over HTTPS leads to TCP like any other failure.
#[test]
fn short_doh_body_falls_back_to_tcp() {
    let timeout = Duration::from_secs(3);
    let (mut resolution, _) = resolve("8.8.8.8", "qq.com", timeout, None, Some("https://doh"));
    match resolution.step(doh_outcome(Ok(vec![]), QTYPE_A)) {
        ResolveAction::Tcp { dns_server, qtype, .. } => {
            assert_eq!(dns_server, "8.8.8.8");
            assert_eq!(qtype, QTYPE_A);
        }
        _ => panic!("TCP is the fallback"),
    }
}

const V4: IpAddr = IpAddr::V4([1, 2, 3, 4]);
const V6: IpAddr = IpAddr::V6([2; 16]);

/// Performs a resolution where queries over HTTPS and over TCP come to these outcomes, for IPv4 and
/// for IPv6: the queries made, and the outcome.
fn resolution(
    doh: Option<&str>,
    over_doh: [bool; 2],
    over_tcp: [bool; 2],
) -> (Vec<(&'static str, u16)>, Lookup) {
    let timeout = Duration::from_secs(3);
    let (mut resolution, mut action) = resolve("8.8.8.8", "qq.com", timeout, Some("p:1"), doh);
    let mut made = Vec::new();
    let outcome = |ok: [bool; 2], qtype: u16| {
        if qtype == QTYPE_A && ok[0] {
            Ok(vec![V4])
        } else if qtype == QTYPE_AAAA && ok[1] {
            Ok(vec![V6])
        } else {
            Err(Error::new(ErrorKind::TimedOut, "late"))
        }
    };
    loop {
        let lookup = match action {
            ResolveAction::Doh { url, domain, qtype, timeout: limit } => {
                assert_eq!(Some(url.as_str()), doh);
                assert_eq!(domain, "qq.com");
                assert_eq!(limit, Duration::from_secs(2));
                made.push(("doh", qtype));
                outcome(over_doh, qtype)
            }
            ResolveAction::Tcp { dns_server, domain, qtype, timeout: limit, proxy } => {
                assert_eq!(dns_server, "8.8.8.8");
                assert_eq!(domain, "qq.com");
                assert_eq!(limit, timeout);
                assert_eq!(proxy.as_deref(), Some("p:1"));
                made.push(("tcp", qtype));
                outcome(over_tcp, qtype)
            }
            ResolveAction::Finish(lookup) => return (made, lookup),
        };
        action = resolution.step(lookup);
    }
}

#[test]
fn resolution_puts_ipv4_before_ipv6() {
    let (made, lookup) = resolution(None, [false; 2], [true; 2]);
    assert_eq!(made, vec![("tcp", QTYPE_A), ("tcp", QTYPE_AAAA)]);
    assert_eq!(lookup.unwrap(), vec![V4, V6]);
}

#[test]
fn resolution_does_without_ipv6() {
    let (_, lookup) = resolution(None, [false; 2], [true, false]);
    assert_eq!(lookup.unwrap(), vec![V4]);
}

#[test]
fn resolution_needs_ipv4() {
    let (made, lookup) = resolution(None, [false; 2], [false, true]);
    assert_eq!(made, vec![("tcp", QTYPE_A)]);
    assert_eq!(lookup.unwrap_err().kind(), ErrorKind::TimedOut);
}

#[test]
fn resolution_prefers_https() {
    let (made, lookup) = resolution(Some("https://doh"), [true; 2], [false; 2]);
    assert_eq!(made, vec![("doh", QTYPE_A), ("doh", QTYPE_AAAA)]);
    assert_eq!(lookup.unwrap(), vec![V4, V6]);
}

#[test]
fn resolution_falls_back_to_tcp() {
    let (made, lookup) = resolution(Some("https://doh"), [false; 2], [true; 2]);
    assert_eq!(
        made,
        vec![("doh", QTYPE_A), ("tcp", QTYPE_A), ("doh", QTYPE_AAAA), ("tcp", QTYPE_AAAA)]
    );
    assert_eq!(lookup.unwrap(), vec![V4, V6]);
}

#[test]
fn https_gets_no_more_time_than_there_is() {
    let timeout = Duration::from_millis(500);
    let (_, action) = resolve("8.8.8.8", "qq.com", timeout, None, Some("https://doh"));
    match action {
        ResolveAction::Doh { timeout: limit, .. } => assert_eq!(limit, timeout),
        _ => panic!("a query over HTTPS comes first"),
    }
}
