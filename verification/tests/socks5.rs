use dns_checker::error::{Error, ErrorKind};
use dns_checker::ip::{IpAddr, SocketAddr};
use dns_checker::socks5::{
    build_request, check_method, check_reply, connect_socks5, reply_error, Action, BoundAddr, Event,
    Phase,
};
use dns_checker::time::Duration;

fn v4(octets: [u8; 4], port: u16) -> SocketAddr {
    SocketAddr::new(IpAddr::V4(octets), port)
}

/// Plays the part of a proxy that sends `input`: what the client sends, and how the handshake ends.
fn handshake(target: SocketAddr, input: &[u8]) -> (Vec<u8>, Result<usize, Error>) {
    let proxy = v4([127, 0, 0, 1], 1080);
    let (mut shake, first) = connect_socks5(proxy, target, Duration::from_secs(2));
    match first {
        Action::Connect { proxy: at, timeout } => {
            assert_eq!(at, proxy);
            assert_eq!(timeout, Duration::from_secs(2));
        }
        _ => panic!("the proxy is connected to first"),
    }
    let mut sent = Vec::new();
    let mut taken = 0;
    let mut action = shake.step(Event::Connected);
    loop {
        match action {
            Action::Exchange { send, expect } => {
                sent.extend_from_slice(&send);
                let event = if taken + expect <= input.len() {
                    Event::Received(input[taken..taken + expect].to_vec())
                } else {
                    Event::Failed(Error::new(ErrorKind::UnexpectedEof, "failed to fill whole buffer"))
                };
                taken += expect;
                action = shake.step(event);
            }
            Action::Ready => {
                assert_eq!(shake.phase, Phase::Over);
                return (sent, Ok(taken));
            }
            Action::Fail(e) => {
                assert_eq!(shake.phase, Phase::Over);
                return (sent, Err(e));
            }
            Action::Connect { .. } => panic!("the proxy is connected to once"),
        }
    }
}

#[test]
fn reply_error_maps_known_codes() {
    assert_eq!(reply_error(0x05).kind(), ErrorKind::ConnectionRefused);
    assert_eq!(reply_error(0x03).kind(), ErrorKind::NetworkUnreachable);
    assert_eq!(reply_error(0x06).kind(), ErrorKind::TimedOut);
    assert_eq!(reply_error(0x04).kind(), ErrorKind::HostUnreachable);
}

#[test]
fn reply_errors_have_their_texts() {
    let cases = [
        (0x01, ErrorKind::Other, "socks5 general failure (rep=0x1)"),
        (0x02, ErrorKind::PermissionDenied, "socks5 connection not allowed (rep=0x2)"),
        (0x03, ErrorKind::NetworkUnreachable, "socks5 network unreachable (rep=0x3)"),
        (0x04, ErrorKind::HostUnreachable, "socks5 host unreachable (rep=0x4)"),
        (0x05, ErrorKind::ConnectionRefused, "socks5 connection refused (rep=0x5)"),
        (0x06, ErrorKind::TimedOut, "socks5 ttl expired (rep=0x6)"),
        (0x07, ErrorKind::Unsupported, "socks5 command not supported (rep=0x7)"),
        (0x08, ErrorKind::InvalidData, "socks5 address type not supported (rep=0x8)"),
        (0x09, ErrorKind::Other, "socks5 unknown reply code (rep=0x9)"),
        (0x1f, ErrorKind::Other, "socks5 unknown reply code (rep=0x1f)"),
        (0xff, ErrorKind::Other, "socks5 unknown reply code (rep=0xff)"),
    ];
    for (rep, kind, message) in cases {
        let err = reply_error(rep);
        assert_eq!(err.kind(), kind);
        assert_eq!(err.message, message);
    }
}

/// The whole handshake against a proxy that consents.
#[test]
fn handshake_succeeds_against_mock_server() {
    let reply = [0x05, 0x00, 0x05, 0x00, 0x00, 0x01, 0, 0, 0, 0, 0, 0];
    let (sent, end) = handshake(v4([127, 0, 0, 1], 53), &reply);
    assert_eq!(&sent[..3], &[0x05, 0x01, 0x00]);
    let header = &sent[3..7];
    assert_eq!(header[0], 0x05);
    assert_eq!(header[1], 0x01);
    assert_eq!(header[3], 0x01);
    assert_eq!(&sent[7..], &[127, 0, 0, 1, 0, 53]);
    assert_eq!(end.unwrap(), reply.len());
}

/// A proxy that refuses the connection.
#[test]
fn handshake_surfaces_proxy_reject() {
    let reply = [0x05, 0x00, 0x05, 0x05, 0x00, 0x01, 0, 0, 0, 0, 0, 0];
    let (_, end) = handshake(v4([127, 0, 0, 1], 53), &reply);
    assert_eq!(end.unwrap_err().kind(), ErrorKind::ConnectionRefused);
}

#[test]
fn handshake_takes_in_every_kind_of_bound_address() {
    let target = v4([8, 8, 8, 8], 53);
    let mut v6 = vec![5, 0, 5, 0, 0, 4];
    v6.extend_from_slice(&[0; 18]);
    assert_eq!(handshake(target, &v6).1.unwrap(), 24);
    let mut domain = vec![5, 0, 5, 0, 0, 3, 4];
    domain.extend_from_slice(b"host");
    domain.extend_from_slice(&[0, 80]);
    assert_eq!(handshake(target, &domain).1.unwrap(), 13);
    let nameless = [5, 0, 5, 0, 0, 3, 0, 0, 80];
    assert_eq!(handshake(target, &nameless).1.unwrap(), 9);
}

#[test]
fn handshake_leaves_what_follows_the_consent() {
    let mut input = vec![5, 0, 5, 0, 0, 1, 0, 0, 0, 0, 0, 0];
    input.extend_from_slice(b"beyond");
    assert_eq!(handshake(v4([8, 8, 8, 8], 53), &input).1.unwrap(), 12);
}

#[test]
fn handshake_reports_a_broken_connection() {
    let whole = [5, 0, 5, 0, 0, 1, 0, 0, 0, 0, 0, 0];
    for len in 0..whole.len() {
        let err = handshake(v4([8, 8, 8, 8], 53), &whole[..len]).1.unwrap_err();
        assert_eq!(err.kind(), ErrorKind::UnexpectedEof);
    }
}

#[test]
fn handshake_reports_an_unreachable_proxy() {
    let proxy = v4([127, 0, 0, 1], 1080);
    let (mut shake, _) = connect_socks5(proxy, v4([8, 8, 8, 8], 53), Duration::from_secs(1));
    let fault = Error::new(ErrorKind::ConnectionRefused, "connection refused");
    match shake.step(Event::Failed(fault.clone())) {
        Action::Fail(e) => assert_eq!(e, fault),
        _ => panic!("a failure ends the handshake"),
    }
}

#[test]
fn method_choices_are_told_apart() {
    assert!(check_method(&[5, 0]).is_none());
    let err = check_method(&[4, 0]).unwrap();
    assert_eq!(err.kind(), ErrorKind::InvalidData);
    assert_eq!(err.message, "invalid socks version in handshake: 4");
    let err = check_method(&[5, 0xff]).unwrap();
    assert_eq!(err.kind(), ErrorKind::PermissionDenied);
    assert_eq!(err.message, "socks5 proxy requires authentication (not supported)");
    let err = check_method(&[5, 2]).unwrap();
    assert_eq!(err.kind(), ErrorKind::PermissionDenied);
    assert_eq!(err.message, "unsupported socks5 auth method: 2");
}

#[test]
fn reply_headers_are_told_apart() {
    assert_eq!(check_reply(&[5, 0, 0, 1]).unwrap(), BoundAddr::Octets(4));
    assert_eq!(check_reply(&[5, 0, 0, 4]).unwrap(), BoundAddr::Octets(16));
    assert_eq!(check_reply(&[5, 0, 0, 3]).unwrap(), BoundAddr::Domain);
    let err = check_reply(&[0, 0, 0, 1]).unwrap_err();
    assert_eq!(err.kind(), ErrorKind::InvalidData);
    assert_eq!(err.message, "invalid socks version in reply: 0");
    let err = check_reply(&[5, 0, 0, 200]).unwrap_err();
    assert_eq!(err.kind(), ErrorKind::InvalidData);
    assert_eq!(err.message, "unknown socks5 reply ATYP: 200");
    let err = check_reply(&[5, 1, 0, 200]).unwrap_err();
    assert_eq!(err.message, "socks5 general failure (rep=0x1)");
}

#[test]
fn request_names_the_target() {
    assert_eq!(
        build_request(v4([1, 2, 3, 4], 0x1234)),
        vec![5, 1, 0, 1, 1, 2, 3, 4, 0x12, 0x34]
    );
    let mut octets = [0u8; 16];
    octets[0] = 0x20;
    octets[15] = 1;
    let mut expected = vec![5, 1, 0, 4];
    expected.extend_from_slice(&octets);
    expected.extend_from_slice(&[0, 53]);
    assert_eq!(build_request(SocketAddr::new(IpAddr::V6(octets), 53)), expected);
}
