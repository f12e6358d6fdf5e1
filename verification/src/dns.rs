//! DNS messages (RFC 1035): queries for the addresses of a name, and the answers to them.

use vstd::prelude::*;
use vstd::slice::slice_subrange;
use vstd::string::StringExecFns;
use vstd::utf8;

use crate::error::{Error, ErrorKind, ErrorView};
use crate::ip;
use crate::ip::{IpAddr, IpView};
use crate::text;

verus! {

/// The identifier of every query. Queries never overlap, so one value serves them all; a response
/// must carry the same.
pub const QUERY_ID: u16 = 0x1234;

/// The flags of a query: recursion desired.
pub const FLAGS_RD: u16 = 0x0100;

/// The record type of IPv4 addresses.
pub const QTYPE_A: u16 = 1;

/// The record type of IPv6 addresses.
pub const QTYPE_AAAA: u16 = 28;

/// The Internet class.
pub const QCLASS_IN: u16 = 1;

/// The length of a message header.
pub const HEADER_LEN: usize = 12;

// ---------------------------------------------------------------------------------------------
// Numbers on the wire
// ---------------------------------------------------------------------------------------------

/// The two octets of `x`, most significant first.
pub open spec fn be16(x: u16) -> Seq<u8> {
    seq![(x / 256) as u8, (x % 256) as u8]
}

/// The number whose two octets, most significant first, stand in `buf` at `pos`.
pub open spec fn be16_at(buf: Seq<u8>, pos: int) -> u16 {
    (buf[pos] * 256 + buf[pos + 1]) as u16
}

/// Appends the two octets of `x` to `out`.
fn push_be16(out: &mut Vec<u8>, x: u16)
    ensures
        final(out)@ == old(out)@ + be16(x),
{
    out.push((x / 256) as u8);
    out.push((x % 256) as u8);
    assert(out@ =~= old(out)@ + be16(x));
}

/// Reads a number from the two octets in `buf` at `pos`.
fn read_be16(buf: &[u8], pos: usize) -> (x: u16)
    requires
        pos + 2 <= buf@.len(),
    ensures
        x == be16_at(buf@, pos as int),
{
    buf[pos] as u16 * 256 + buf[pos + 1] as u16
}

/// Reading gives back what writing wrote.
pub proof fn law_be16_round_trip(x: u16)
    ensures
        be16_at(be16(x), 0) == x,
{
}

// ---------------------------------------------------------------------------------------------
// Names
// ---------------------------------------------------------------------------------------------

/// The octet that separates the labels of a written name.
pub const DOT: u8 = 0x2E;

/// `name` cut at every dot: one more piece than there are dots, empty pieces kept.
pub open spec fn pieces(name: Seq<u8>) -> Seq<Seq<u8>>
    decreases name.len(),
{
    if name.len() == 0 {
        seq![Seq::empty()]
    } else {
        let before = pieces(name.drop_last());
        if name.last() == DOT {
            before.push(Seq::empty())
        } else {
            before.drop_last().push(before.last().push(name.last()))
        }
    }
}

/// The labels of a written name: its pieces without the empty ones.
pub open spec fn labels(name: Seq<u8>) -> Seq<Seq<u8>> {
    nonempty(pieces(name))
}

/// The members of `parts` that are not empty, in order.
pub open spec fn nonempty(parts: Seq<Seq<u8>>) -> Seq<Seq<u8>>
    decreases parts.len(),
{
    if parts.len() == 0 {
        seq![]
    } else if parts.last().len() == 0 {
        nonempty(parts.drop_last())
    } else {
        nonempty(parts.drop_last()).push(parts.last())
    }
}

/// A label on the wire: its length in one octet, which holds the length modulo 256, then itself.
pub open spec fn wire_label(label: Seq<u8>) -> Seq<u8> {
    seq![(label.len() % 256) as u8] + label
}

/// The wire forms of `labels`, one after the other.
pub open spec fn wire_labels(labels: Seq<Seq<u8>>) -> Seq<u8>
    decreases labels.len(),
{
    if labels.len() == 0 {
        seq![]
    } else {
        wire_labels(labels.drop_last()) + wire_label(labels.last())
    }
}

/// A name on the wire: its labels, then the empty label of the root.
pub open spec fn wire_name(labels: Seq<Seq<u8>>) -> Seq<u8> {
    wire_labels(labels).push(0)
}

/// Appends the label in `name` between `start` and `end` to `out`; an empty one is left out.
fn push_label(out: &mut Vec<u8>, name: &[u8], start: usize, end: usize)
    requires
        start <= end <= name@.len(),
    ensures
        final(out)@ == old(out)@ + (if start == end {
            Seq::empty()
        } else {
            wire_label(name@.subrange(start as int, end as int))
        }),
{
    if start < end {
        out.push(((end - start) % 256) as u8);
        out.extend_from_slice(slice_subrange(name, start, end));
        assert(out@ =~= old(out)@ + wire_label(name@.subrange(start as int, end as int)));
    } else {
        assert(out@ =~= old(out)@ + Seq::empty());
    }
}

/// Appends `domain` in wire form to `out`. Empty labels are dropped, so a trailing dot makes no
/// difference.
pub fn encode_name(domain: &str, out: &mut Vec<u8>)
    ensures
        final(out)@ == old(out)@ + wire_name(labels(utf8::encode_utf8(domain@))),
{
    let name: &[u8] = domain.as_bytes();
    let mut start: usize = 0;
    let mut pos: usize = 0;
    assert(name@.take(0) =~= Seq::empty());
    while pos < name.len()
        invariant
            start <= pos <= name@.len(),
            pieces(name@.take(pos as int)).len() > 0,
            pieces(name@.take(pos as int)).last() =~= name@.subrange(start as int, pos as int),
            out@ =~= old(out)@ + wire_labels(
                nonempty(pieces(name@.take(pos as int)).drop_last()),
            ),
        decreases name@.len() - pos,
    {
        let ghost seen = name@.take(pos as int);
        let ghost next = name@.take(pos + 1);
        assert(next.drop_last() =~= seen);
        let ghost before = pieces(seen);
        if name[pos] == DOT {
            push_label(out, name, start, pos);
            assert(pieces(next).drop_last() =~= before);
            assert(nonempty(before) == nonempty(before.drop_last().push(before.last()))) by {
                assert(before.drop_last().push(before.last()) =~= before);
            }
            proof {
                if before.last().len() > 0 {
                    let kept = nonempty(before.drop_last()).push(before.last());
                    assert(kept.drop_last() =~= nonempty(before.drop_last()));
                }
            }
            start = pos + 1;
        } else {
            assert(pieces(next).drop_last() =~= before.drop_last());
        }
        pos += 1;
    }
    assert(name@.take(pos as int) =~= name@);
    push_label(out, name, start, pos);
    let ghost all = pieces(name@);
    proof {
        if all.last().len() > 0 {
            let kept = nonempty(all.drop_last()).push(all.last());
            assert(kept.drop_last() =~= nonempty(all.drop_last()));
        }
    }
    out.push(0);
    assert(out@ =~= old(out)@ + wire_name(labels(name@)));
}

// ---------------------------------------------------------------------------------------------
// Queries
// ---------------------------------------------------------------------------------------------

/// The header of a query: the identifier, the flags, one question and nothing else.
pub open spec fn query_header() -> Seq<u8> {
    be16(QUERY_ID) + be16(FLAGS_RD) + be16(1) + be16(0) + be16(0) + be16(0)
}

/// A question for the records of type `qtype` of the name with `labels`.
pub open spec fn wire_question(labels: Seq<Seq<u8>>, qtype: u16) -> Seq<u8> {
    wire_name(labels) + be16(qtype) + be16(QCLASS_IN)
}

/// The query for the records of type `qtype` of `domain`.
pub open spec fn query_message(domain: Seq<char>, qtype: u16) -> Seq<u8> {
    query_header() + wire_question(labels(utf8::encode_utf8(domain)), qtype)
}

/// Builds the query for the records of type `qtype` of `domain`.
pub fn build_query(domain: &str, qtype: u16) -> (msg: Vec<u8>)
    ensures
        msg@ == query_message(domain@, qtype),
{
    let mut msg: Vec<u8> = Vec::with_capacity(32);
    push_be16(&mut msg, QUERY_ID);
    push_be16(&mut msg, FLAGS_RD);
    push_be16(&mut msg, 1);
    push_be16(&mut msg, 0);
    push_be16(&mut msg, 0);
    push_be16(&mut msg, 0);
    encode_name(domain, &mut msg);
    push_be16(&mut msg, qtype);
    push_be16(&mut msg, QCLASS_IN);
    assert(msg@ =~= query_message(domain@, qtype));
    msg
}

/// A message as it travels over TCP: its length in two octets, which hold the length modulo 65536,
/// then itself.
pub open spec fn framed(msg: Seq<u8>) -> Seq<u8> {
    be16((msg.len() % 65536) as u16) + msg
}

/// Puts the length in front of a message that travels over TCP.
pub fn tcp_frame(msg: &[u8]) -> (frame: Vec<u8>)
    ensures
        frame@ == framed(msg@),
{
    let mut frame: Vec<u8> = Vec::new();
    push_be16(&mut frame, (msg.len() % 65536) as u16);
    frame.extend_from_slice(msg);
    assert(frame@ =~= framed(msg@));
    frame
}

/// What is reported of a response that cannot even hold a header.
pub open spec fn too_short() -> ErrorView {
    ErrorView { kind: ErrorKind::InvalidData, message: "dns response too short"@ }
}

/// The error that stands for a response that cannot even hold a header.
pub fn too_short_error() -> (error: Error)
    ensures
        error@ == too_short(),
{
    Error::new(ErrorKind::InvalidData, "dns response too short")
}

/// Reads the length that precedes a response over TCP. A response that cannot hold a header is
/// refused.
pub fn response_len(prefix: &[u8]) -> (len: Result<usize, Error>)
    requires
        prefix@.len() == 2,
    ensures
        be16_at(prefix@, 0) >= HEADER_LEN ==> len == Ok::<usize, Error>(
            be16_at(prefix@, 0) as usize,
        ),
        be16_at(prefix@, 0) < HEADER_LEN ==> (len matches Err(e) && e@ == too_short()),
        prefix@[0] * 256 + prefix@[1] >= 12 ==> len is Ok && len->Ok_0 == prefix@[0] * 256
            + prefix@[1],
        prefix@[0] * 256 + prefix@[1] < 12 ==> len is Err && len->Err_0.kind
            == ErrorKind::InvalidData && len->Err_0.message@ == "dns response too short"@,
{
    let len: usize = read_be16(prefix, 0) as usize;
    if len < HEADER_LEN {
        return Err(too_short_error());
    }
    Ok(len)
}

// ---------------------------------------------------------------------------------------------
// Responses
// ---------------------------------------------------------------------------------------------

/// Where the reading of a name ended: behind it, or at the place where the buffer gave out.
pub enum NameEnd {
    Behind(int),
    Truncated(int),
}

/// Follows the name in `buf` at `pos`: labels up to the empty one, or up to a pointer to the rest
/// of the name elsewhere, which takes two octets and is not followed.
pub open spec fn name_end(buf: Seq<u8>, pos: int) -> NameEnd
    decreases
        (if pos < buf.len() {
            buf.len() - pos
        } else {
            0
        }),
{
    if pos >= buf.len() {
        NameEnd::Truncated(pos)
    } else if buf[pos] == 0 {
        NameEnd::Behind(pos + 1)
    } else if buf[pos] >= 0xC0 {
        NameEnd::Behind(pos + 2)
    } else {
        name_end(buf, pos + 1 + buf[pos])
    }
}

/// A name has an end behind its start and at most one octet outside the buffer.
proof fn lemma_name_end(buf: Seq<u8>, pos: int)
    ensures
        name_end(buf, pos) matches NameEnd::Behind(end) ==> pos < end <= buf.len() + 1,
    decreases
            (if pos < buf.len() {
                buf.len() - pos
            } else {
                0
            }),
{
    if pos < buf.len() && 0 < buf[pos] < 0xC0 {
        lemma_name_end(buf, pos + 1 + buf[pos]);
    }
}

/// What is reported of a name that runs past the end of a response.
pub open spec fn name_truncated() -> ErrorView {
    ErrorView { kind: ErrorKind::InvalidData, message: "dns name truncated"@ }
}

/// Moves `pos` behind the name that stands there in `buf`. (No slice of octets is longer than
/// `isize::MAX`.)
pub fn skip_name(buf: &[u8], pos: &mut usize) -> (done: Result<(), Error>)
    requires
        buf@.len() <= isize::MAX,
    ensures
        match name_end(buf@, *old(pos) as int) {
            NameEnd::Behind(end) => done is Ok && *final(pos) == end,
            NameEnd::Truncated(end) => {
                &&& done matches Err(e) && e@ == name_truncated()
                &&& *final(pos) == end
            },
        },
{
    loop
        invariant
            buf@.len() <= isize::MAX,
            name_end(buf@, *pos as int) == name_end(buf@, *old(pos) as int),
        decreases
            (if *pos < buf@.len() {
                buf@.len() - *pos
            } else {
                0
            }),
    {
        if *pos >= buf.len() {
            return Err(Error::new(ErrorKind::InvalidData, "dns name truncated"));
        }
        let len: u8 = buf[*pos];
        if len == 0 {
            *pos += 1;
            return Ok(());
        }
        if len >= 0xC0 {
            *pos += 2;
            return Ok(());
        }
        *pos += 1 + len as usize;
    }
}

/// What a DNS server means by a response code.
pub open spec fn rcode_meaning(rcode: u16) -> (ErrorKind, Seq<char>) {
    if rcode == 1 {
        (ErrorKind::InvalidData, "dns format error"@)
    } else if rcode == 2 {
        (ErrorKind::Other, "dns server failure"@)
    } else if rcode == 3 {
        (ErrorKind::AddrNotAvailable, "dns name does not exist"@)
    } else if rcode == 4 {
        (ErrorKind::Unsupported, "dns not implemented"@)
    } else if rcode == 5 {
        (ErrorKind::PermissionDenied, "dns query refused"@)
    } else {
        (ErrorKind::Other, "dns unknown rcode"@)
    }
}

/// What is reported of a response with the code `rcode`.
pub open spec fn rcode_error_view(rcode: u16) -> ErrorView {
    ErrorView {
        kind: rcode_meaning(rcode).0,
        message: rcode_meaning(rcode).1 + " (rcode="@ + text::decimal(rcode as nat) + ")"@,
    }
}

/// The error that stands for the response code `rcode`.
pub fn rcode_error(rcode: u16) -> (error: Error)
    ensures
        error@ == rcode_error_view(rcode),
{
    let (kind, meaning): (ErrorKind, &str) = match rcode {
        1 => (ErrorKind::InvalidData, "dns format error"),
        2 => (ErrorKind::Other, "dns server failure"),
        3 => (ErrorKind::AddrNotAvailable, "dns name does not exist"),
        4 => (ErrorKind::Unsupported, "dns not implemented"),
        5 => (ErrorKind::PermissionDenied, "dns query refused"),
        _ => (ErrorKind::Other, "dns unknown rcode"),
    };
    let mut message: String = meaning.to_owned();
    message.append(" (rcode=");
    text::push_decimal(&mut message, rcode as u64);
    message.append(")");
    Error { kind, message }
}

/// The list of addresses, or the error, that a lookup came to, as a mathematical value.
pub open spec fn lookup_view(lookup: Result<Vec<IpAddr>, Error>) -> Result<
    Seq<IpView>,
    ErrorView,
> {
    match lookup {
        Ok(ips) => Ok(ip::ip_views(ips@)),
        Err(e) => Err(e@),
    }
}

/// The addresses in a record of type `rtype` with the data `rdata`, where records of type `qtype`
/// were asked for: none if the type is another, or if the data is not as long as such an address.
pub open spec fn record_ips(rtype: u16, rdata: Seq<u8>, qtype: u16) -> Seq<IpView> {
    if rtype != qtype {
        seq![]
    } else if qtype == QTYPE_A && rdata.len() == 4 {
        seq![IpView::V4(rdata)]
    } else if qtype == QTYPE_AAAA && rdata.len() == 16 {
        seq![IpView::V6(rdata)]
    } else {
        seq![]
    }
}

/// What is reported of a record that runs past the end of a response.
pub open spec fn answer_truncated() -> ErrorView {
    ErrorView { kind: ErrorKind::InvalidData, message: "dns answer truncated"@ }
}

/// What is reported of record data that runs past the end of a response.
pub open spec fn rdata_truncated() -> ErrorView {
    ErrorView { kind: ErrorKind::InvalidData, message: "dns rdata truncated"@ }
}

/// What is reported of a response to some other query.
pub open spec fn id_mismatch() -> ErrorView {
    ErrorView { kind: ErrorKind::InvalidData, message: "dns response id mismatch"@ }
}

/// The place behind `count` questions in `buf` from `pos` on, or `None` if the buffer gives out
/// inside one of their names.
pub open spec fn questions_end(buf: Seq<u8>, pos: int, count: nat) -> Option<int>
    decreases count,
{
    if count == 0 {
        Some(pos)
    } else {
        match name_end(buf, pos) {
            NameEnd::Behind(end) => questions_end(buf, end + 4, (count - 1) as nat),
            NameEnd::Truncated(_) => None,
        }
    }
}

/// The addresses in the `count` records in `buf` from `pos` on, or the first defect among them. A
/// record is a name, the type, the class, the time to live, the length of the data, and the data.
pub open spec fn answers_from(buf: Seq<u8>, pos: int, count: nat, qtype: u16) -> Result<
    Seq<IpView>,
    ErrorView,
>
    decreases count,
{
    if count == 0 {
        Ok(seq![])
    } else {
        match name_end(buf, pos) {
            NameEnd::Truncated(_) => Err(name_truncated()),
            NameEnd::Behind(at) => {
                let data = at + 10;
                let end = data + be16_at(buf, at + 8);
                if data > buf.len() {
                    Err(answer_truncated())
                } else if end > buf.len() {
                    Err(rdata_truncated())
                } else {
                    match answers_from(buf, end, (count - 1) as nat, qtype) {
                        Err(e) => Err(e),
                        Ok(rest) => Ok(
                            record_ips(be16_at(buf, at), buf.subrange(data, end), qtype) + rest,
                        ),
                    }
                }
            },
        }
    }
}

/// The response code of a response: the low four bits of its flags.
pub open spec fn rcode_of(resp: Seq<u8>) -> u16 {
    (resp[3] % 16) as u16
}

/// What a response says about the addresses of type `qtype`.
pub open spec fn answers(resp: Seq<u8>, qtype: u16) -> Result<Seq<IpView>, ErrorView> {
    if be16_at(resp, 0) != QUERY_ID {
        Err(id_mismatch())
    } else if rcode_of(resp) != 0 {
        Err(rcode_error_view(rcode_of(resp)))
    } else {
        match questions_end(resp, HEADER_LEN as int, be16_at(resp, 4) as nat) {
            None => Err(name_truncated()),
            Some(pos) => answers_from(resp, pos, be16_at(resp, 6) as nat, qtype),
        }
    }
}

/// What a message that arrives in response to a query comes to: one that cannot hold a header is
/// refused.
pub open spec fn response_outcome(msg: Seq<u8>, qtype: u16) -> Result<Seq<IpView>, ErrorView> {
    if msg.len() < HEADER_LEN {
        Err(too_short())
    } else {
        answers(msg, qtype)
    }
}

/// Whether a response is long enough for those fields of its header that decide about it: the
/// identifier; the flags, if the identifier is right; the counts, if the flags report no failure.
/// (No slice of octets is longer than `isize::MAX`.)
pub open spec fn readable(resp: Seq<u8>) -> bool {
    &&& 2 <= resp.len() <= isize::MAX
    &&& be16_at(resp, 0) == QUERY_ID ==> resp.len() >= 4 && (rcode_of(resp) == 0 ==> resp.len()
        >= 8)
}

/// Adds the address in a record to `ips`, if it has one of the type asked for.
fn push_record_ip(ips: &mut Vec<IpAddr>, rtype: u16, rdata: &[u8], qtype: u16)
    ensures
        ip::ip_views(final(ips)@) == ip::ip_views(old(ips)@) + record_ips(rtype, rdata@, qtype),
{
    if rtype == qtype {
        if qtype == QTYPE_A && rdata.len() == 4 {
            let octets: [u8; 4] = [rdata[0], rdata[1], rdata[2], rdata[3]];
            assert(octets@ =~= rdata@);
            ips.push(IpAddr::V4(octets));
        } else if qtype == QTYPE_AAAA && rdata.len() == 16 {
            let octets: [u8; 16] = [
                rdata[0],
                rdata[1],
                rdata[2],
                rdata[3],
                rdata[4],
                rdata[5],
                rdata[6],
                rdata[7],
                rdata[8],
                rdata[9],
                rdata[10],
                rdata[11],
                rdata[12],
                rdata[13],
                rdata[14],
                rdata[15],
            ];
            assert(octets@ =~= rdata@);
            ips.push(IpAddr::V6(octets));
        }
    }
    assert(ip::ip_views(ips@) =~= ip::ip_views(old(ips)@) + record_ips(rtype, rdata@, qtype));
}

/// Reads the addresses of type `qtype` out of a response. Records of other types, such as the
/// aliases in front of the addresses, are passed over.
pub fn parse_answers(resp: &[u8], qtype: u16) -> (lookup: Result<Vec<IpAddr>, Error>)
    requires
        readable(resp@),
    ensures
        lookup_view(lookup) == answers(resp@, qtype),
{
    if read_be16(resp, 0) != QUERY_ID {
        return Err(Error::new(ErrorKind::InvalidData, "dns response id mismatch"));
    }
    let rcode: u16 = (resp[3] % 16) as u16;
    if rcode != 0 {
        return Err(rcode_error(rcode));
    }
    let mut questions: u16 = read_be16(resp, 4);
    let mut records: u16 = read_be16(resp, 6);
    let mut pos: usize = HEADER_LEN;
    while questions > 0
        invariant
            resp@.len() <= isize::MAX,
            pos <= resp@.len() + HEADER_LEN,
            questions_end(resp@, pos as int, questions as nat) == questions_end(
                resp@,
                HEADER_LEN as int,
                be16_at(resp@, 4) as nat,
            ),
            be16_at(resp@, 0) == QUERY_ID,
            rcode_of(resp@) == 0,
        decreases questions,
    {
        proof {
            lemma_name_end(resp@, pos as int);
        }
        match skip_name(resp, &mut pos) {
            Err(e) => {
                return Err(e);
            },
            Ok(_) => {},
        }
        pos += 4;
        questions -= 1;
    }
    let mut ips: Vec<IpAddr> = Vec::new();
    assert(ip::ip_views(ips@) =~= seq![]);
    assert(answers(resp@, qtype) matches Ok(rest) ==> rest =~= ip::ip_views(ips@) + rest);
    while records > 0
        invariant
            resp@.len() <= isize::MAX,
            pos <= resp@.len() + HEADER_LEN,
            match answers_from(resp@, pos as int, records as nat, qtype) {
                Err(e) => answers(resp@, qtype) == Err::<Seq<IpView>, ErrorView>(e),
                Ok(rest) => answers(resp@, qtype) == Ok::<Seq<IpView>, ErrorView>(
                    ip::ip_views(ips@) + rest,
                ),
            },
        decreases records,
    {
        proof {
            lemma_name_end(resp@, pos as int);
        }
        match skip_name(resp, &mut pos) {
            Err(e) => {
                return Err(e);
            },
            Ok(_) => {},
        }
        if pos + 10 > resp.len() {
            return Err(Error::new(ErrorKind::InvalidData, "dns answer truncated"));
        }
        let rtype: u16 = read_be16(resp, pos);
        let rdata_len: usize = read_be16(resp, pos + 8) as usize;
        pos += 10;
        if pos + rdata_len > resp.len() {
            return Err(Error::new(ErrorKind::InvalidData, "dns rdata truncated"));
        }
        let ghost known = ip::ip_views(ips@);
        push_record_ip(&mut ips, rtype, slice_subrange(resp, pos, pos + rdata_len), qtype);
        pos += rdata_len;
        records -= 1;
        proof {
            let found = record_ips(
                rtype,
                resp@.subrange(pos - rdata_len, pos as int),
                qtype,
            );
            match answers_from(resp@, pos as int, records as nat, qtype) {
                Err(_) => {},
                Ok(rest) => {
                    assert(known + (found + rest) =~= ip::ip_views(ips@) + rest);
                },
            }
        }
    }
    assert(ip::ip_views(ips@) + seq![] =~= ip::ip_views(ips@));
    Ok(ips)
}

} // verus!
