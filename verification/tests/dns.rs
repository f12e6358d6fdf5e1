use dns_checker::dns::{
    build_query, encode_name, parse_answers, rcode_error, response_len, skip_name,
    tcp_frame, QTYPE_A, QTYPE_AAAA,
};
use dns_checker::error::ErrorKind;
use dns_checker::ip::IpAddr;

#[test]
fn encode_name_basic() {
    let mut out = Vec::new();
    encode_name("qq.com", &mut out);
    assert_eq!(out, vec![0x02, b'q', b'q', 0x03, b'c', b'o', b'm', 0x00]);
}

#[test]
fn encode_name_ignores_trailing_dot() {
    let mut out = Vec::new();
    encode_name("a.b.", &mut out);
    assert_eq!(out, vec![0x01, b'a', 0x01, b'b', 0x00]);
}

#[test]
fn encode_name_ignores_empty_labels() {
    let mut out = Vec::new();
    encode_name("..a..b...", &mut out);
    assert_eq!(out, vec![0x01, b'a', 0x01, b'b', 0x00]);
}

#[test]
fn encode_name_of_nothing_is_the_root() {
    for name in ["", ".", "..."] {
        let mut out = vec![7];
        encode_name(name, &mut out);
        assert_eq!(out, vec![7, 0x00]);
    }
}

#[test]
fn encode_name_counts_octets_not_characters() {
    let mut out = Vec::new();
    encode_name("检测.cn", &mut out);
    let mut expected = vec![6];
    expected.extend_from_slice("检测".as_bytes());
    expected.extend_from_slice(&[2, b'c', b'n', 0]);
    assert_eq!(out, expected);
}

/// The length octet keeps the low eight bits of the length of a label.
#[test]
fn encode_name_wraps_the_length_of_a_long_label() {
    let label = "x".repeat(300);
    let mut out = Vec::new();
    encode_name(&label, &mut out);
    assert_eq!(out.len(), 302);
    assert_eq!(out[0], 44);
    assert_eq!(out[301], 0);
}

#[test]
fn build_query_is_header_and_question() {
    let msg = build_query("qq.com", QTYPE_AAAA);
    assert_eq!(
        msg,
        vec![
            0x12, 0x34, 0x01, 0x00, 0x00, 0x01, 0x00, 0x00, 0x00, 0x00, 0x00, 0x00, //
            0x02, b'q', b'q', 0x03, b'c', b'o', b'm', 0x00, //
            0x00, 0x1c, 0x00, 0x01,
        ]
    );
}

#[test]
fn tcp_frame_puts_the_length_in_front() {
    assert_eq!(tcp_frame(&[9, 8, 7]), vec![0, 3, 9, 8, 7]);
    let long = vec![1u8; 0x0102];
    let framed = tcp_frame(&long);
    assert_eq!(&framed[..3], &[1, 2, 1]);
    assert_eq!(framed.len(), 0x0104);
}

#[test]
fn frame_is_read_back() {
    let msg = build_query("example.org", QTYPE_A);
    let framed = tcp_frame(&msg);
    assert_eq!(response_len(&framed[..2]).unwrap(), msg.len());
    assert_eq!(&framed[2..], &msg[..]);
}

#[test]
fn response_len_rejects_what_cannot_hold_a_header() {
    assert_eq!(response_len(&[0, 12]).unwrap(), 12);
    assert_eq!(response_len(&[255, 255]).unwrap(), 65535);
    let err = response_len(&[0, 11]).unwrap_err();
    assert_eq!(err.kind(), ErrorKind::InvalidData);
    assert_eq!(err.message, "dns response too short");
}

#[test]
fn skip_name_stops_behind_the_name() {
    let mut pos = 1;
    assert!(skip_name(&[9, 2, b'q', b'q', 0, 9], &mut pos).is_ok());
    assert_eq!(pos, 5);
    let mut pos = 0;
    assert!(skip_name(&[1, b'a', 0xc0, 0x0c], &mut pos).is_ok());
    assert_eq!(pos, 4);
    let mut pos = 0;
    let err = skip_name(&[5, b'a'], &mut pos).unwrap_err();
    assert_eq!(err.kind(), ErrorKind::InvalidData);
    assert_eq!(err.message, "dns name truncated");
}

/// What was encoded is skipped again, to the octet.
#[test]
fn encoded_name_is_skipped_whole() {
    let mut buf = vec![1, 2, 3];
    encode_name("www.example.org", &mut buf);
    buf.push(99);
    let mut pos = 3;
    assert!(skip_name(&buf, &mut pos).is_ok());
    assert_eq!(buf[pos], 99);
    assert_eq!(pos, buf.len() - 1);
}

#[test]
fn parse_single_a_record() {
    let resp = vec![
        0x12, 0x34, 0x81, 0x80, 0x00, 0x01, 0x00, 0x01, 0x00, 0x00, 0x00, 0x00, //
        0x02, b'q', b'q', 0x03, b'c', b'o', b'm', 0x00, //
        0x00, 0x01, 0x00, 0x01, //
        0xc0, 0x0c, //
        0x00, 0x01, 0x00, 0x01, 0x00, 0x00, 0x00, 0x00, 0x00, 0x04, //
        0x01, 0x02, 0x03, 0x04,
    ];
    let ips = parse_answers(&resp, QTYPE_A).unwrap();
    assert_eq!(ips, vec![IpAddr::V4([1, 2, 3, 4])]);
}

#[test]
fn parse_multiple_a_records() {
    let resp = vec![
        0x12, 0x34, 0x81, 0x80, 0x00, 0x01, 0x00, 0x02, 0x00, 0x00, 0x00, 0x00, //
        0x02, b'q', b'q', 0x03, b'c', b'o', b'm', 0x00, //
        0x00, 0x01, 0x00, 0x01, //
        0xc0, 0x0c, 0x00, 0x01, 0x00, 0x01, 0x00, 0x00, 0x00, 0x00, 0x00, 0x04, //
        0x01, 0x02, 0x03, 0x04, //
        0xc0, 0x0c, 0x00, 0x01, 0x00, 0x01, 0x00, 0x00, 0x00, 0x00, 0x00, 0x04, //
        0x05, 0x06, 0x07, 0x08,
    ];
    let ips = parse_answers(&resp, QTYPE_A).unwrap();
    assert_eq!(ips.len(), 2);
    assert_eq!(ips, vec![IpAddr::V4([1, 2, 3, 4]), IpAddr::V4([5, 6, 7, 8])]);
}

/// A response with an alias and an address gives the address alone.
#[test]
fn parse_skips_cname_and_collects_a() {
    let resp = vec![
        0x12, 0x34, 0x81, 0x80, 0x00, 0x01, 0x00, 0x02, 0x00, 0x00, 0x00, 0x00, //
        // question: foo.bar A IN
        0x03, b'f', b'o', b'o', 0x03, b'b', b'a', b'r', 0x00, //
        0x00, 0x01, 0x00, 0x01, //
        // answer 1: CNAME -> baz.
        0xc0, 0x0c, 0x00, 0x05, 0x00, 0x01, 0x00, 0x00, 0x00, 0x00, 0x00, 0x05, //
        0x03, b'b', b'a', b'z', 0x00, //
        // answer 2: A -> 10.0.0.1
        0xc0, 0x0c, 0x00, 0x01, 0x00, 0x01, 0x00, 0x00, 0x00, 0x00, 0x00, 0x04, //
        0x0A, 0x00, 0x00, 0x01,
    ];
    let ips = parse_answers(&resp, QTYPE_A).unwrap();
    assert_eq!(ips, vec![IpAddr::V4([10, 0, 0, 1])]);
}

#[test]
fn parse_aaaa_record() {
    let resp = vec![
        0x12, 0x34, 0x81, 0x80, 0x00, 0x01, 0x00, 0x01, 0x00, 0x00, 0x00, 0x00, //
        0x02, b'q', b'q', 0x03, b'c', b'o', b'm', 0x00, //
        0x00, 0x1c, 0x00, 0x01, //
        0xc0, 0x0c, 0x00, 0x1c, 0x00, 0x01, 0x00, 0x00, 0x00, 0x00, 0x00, 0x10, //
        0x20, 0x01, 0x0d, 0xb8, 0, 0, 0, 0, 0, 0, 0, 0, 0, 0, 0, 0x01,
    ];
    let ips = parse_answers(&resp, QTYPE_AAAA).unwrap();
    assert_eq!(ips.len(), 1);
    assert!(ips[0].is_ipv6());
    assert_eq!(
        ips[0],
        IpAddr::V6([0x20, 0x01, 0x0d, 0xb8, 0, 0, 0, 0, 0, 0, 0, 0, 0, 0, 0, 1])
    );
}

/// A name that does not exist.
#[test]
fn parse_nxdomain() {
    let resp = vec![
        0x12, 0x34, 0x81, 0x83, 0x00, 0x01, 0x00, 0x00, 0x00, 0x00, 0x00, 0x00, //
        0x07, b'e', b'x', b'a', b'm', b'p', b'l', b'e', 0x00, //
        0x00, 0x01, 0x00, 0x01,
    ];
    let err = parse_answers(&resp, QTYPE_A).unwrap_err();
    assert_eq!(err.kind(), ErrorKind::AddrNotAvailable);
    assert_eq!(err.message, "dns name does not exist (rcode=3)");
}

#[test]
fn parse_rejects_another_identifier() {
    let err = parse_answers(&[0x12, 0x35], QTYPE_A).unwrap_err();
    assert_eq!(err.kind(), ErrorKind::InvalidData);
    assert_eq!(err.message, "dns response id mismatch");
}

#[test]
fn parse_passes_over_records_of_the_wrong_size() {
    // An A record of three octets, then one of four.
    let resp = vec![
        0x12, 0x34, 0x81, 0x80, 0x00, 0x00, 0x00, 0x02, 0x00, 0x00, 0x00, 0x00, //
        0x00, 0x00, 0x01, 0x00, 0x01, 0x00, 0x00, 0x00, 0x00, 0x00, 0x03, 1, 2, 3, //
        0x00, 0x00, 0x01, 0x00, 0x01, 0x00, 0x00, 0x00, 0x00, 0x00, 0x04, 4, 5, 6, 7,
    ];
    assert_eq!(parse_answers(&resp, QTYPE_A).unwrap(), vec![IpAddr::V4([4, 5, 6, 7])]);
    assert_eq!(parse_answers(&resp, QTYPE_AAAA).unwrap(), vec![]);
}

#[test]
fn parse_reports_what_is_cut_off() {
    let resp = vec![
        0x12, 0x34, 0x81, 0x80, 0x00, 0x01, 0x00, 0x01, 0x00, 0x00, 0x00, 0x00, //
        0x01, b'a', 0x00, 0x00, 0x01, 0x00, 0x01, //
        0xc0, 0x0c, 0x00, 0x01, 0x00, 0x01, 0x00, 0x00, 0x00, 0x00, 0x00, 0x04, //
        1, 2, 3, 4,
    ];
    assert_eq!(parse_answers(&resp, QTYPE_A).unwrap(), vec![IpAddr::V4([1, 2, 3, 4])]);
    let cut = |len: usize| parse_answers(&resp[..len], QTYPE_A).unwrap_err().message;
    assert_eq!(cut(resp.len() - 1), "dns rdata truncated");
    assert_eq!(cut(resp.len() - 5), "dns answer truncated");
    assert_eq!(cut(19), "dns name truncated");
    assert_eq!(cut(12), "dns name truncated");
    assert_eq!(cut(8), "dns name truncated");
}

#[test]
fn rcode_errors_have_their_kinds() {
    let cases = [
        (1, ErrorKind::InvalidData, "dns format error (rcode=1)"),
        (2, ErrorKind::Other, "dns server failure (rcode=2)"),
        (3, ErrorKind::AddrNotAvailable, "dns name does not exist (rcode=3)"),
        (4, ErrorKind::Unsupported, "dns not implemented (rcode=4)"),
        (5, ErrorKind::PermissionDenied, "dns query refused (rcode=5)"),
        (6, ErrorKind::Other, "dns unknown rcode (rcode=6)"),
        (15, ErrorKind::Other, "dns unknown rcode (rcode=15)"),
        (65535, ErrorKind::Other, "dns unknown rcode (rcode=65535)"),
    ];
    for (rcode, kind, message) in cases {
        let err = rcode_error(rcode);
        assert_eq!(err.kind(), kind);
        assert_eq!(err.message, message);
    }
}
