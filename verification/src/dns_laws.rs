//! What holds of DNS messages as a whole.

use vstd::prelude::*;
use vstd::utf8;

use crate::dns;
use crate::dns::{NameEnd, DOT, HEADER_LEN, QCLASS_IN, QTYPE_A, QTYPE_AAAA, QUERY_ID};
use crate::error::ErrorView;
use crate::ip::IpView;

verus! {

// ---------------------------------------------------------------------------------------------
// Names
// ---------------------------------------------------------------------------------------------

/// A dot at the end of a name makes no difference to its labels.
pub proof fn law_trailing_dot_ignored(name: Seq<u8>)
    ensures
        dns::labels(name.push(DOT)) == dns::labels(name),
{
    let dotted = name.push(DOT);
    assert(dotted.drop_last() =~= name);
    assert(dns::pieces(dotted).drop_last() =~= dns::pieces(name));
}

/// A dot at the end of a domain makes no difference to the query for it.
pub proof fn law_trailing_dot_same_query(domain: Seq<char>, qtype: u16)
    ensures
        dns::query_message(domain.push('.'), qtype) == dns::query_message(domain, qtype),
{
    let name = utf8::encode_utf8(domain);
    lemma_encode_push(domain, '.');
    lemma_scalar_dots('.');
    assert(name + seq![DOT] =~= name.push(DOT));
    law_trailing_dot_ignored(name);
}

/// No label is empty.
pub proof fn law_labels_nonempty(name: Seq<u8>, i: int)
    requires
        0 <= i < dns::labels(name).len(),
    ensures
        dns::labels(name)[i].len() > 0,
{
    lemma_nonempty_members(dns::pieces(name), i);
}

proof fn lemma_nonempty_members(parts: Seq<Seq<u8>>, i: int)
    requires
        0 <= i < dns::nonempty(parts).len(),
    ensures
        dns::nonempty(parts)[i].len() > 0,
    decreases parts.len(),
{
    let kept = dns::nonempty(parts.drop_last());
    if parts.last().len() == 0 || i < kept.len() {
        lemma_nonempty_members(parts.drop_last(), i);
    }
}

/// `name` cut at every dot, by characters: one more piece than there are dots.
pub open spec fn char_pieces(name: Seq<char>) -> Seq<Seq<char>>
    decreases name.len(),
{
    if name.len() == 0 {
        seq![Seq::empty()]
    } else {
        let before = char_pieces(name.drop_last());
        if name.last() == '.' {
            before.push(Seq::empty())
        } else {
            before.drop_last().push(before.last().push(name.last()))
        }
    }
}

/// Cutting the octets of a name at the dots and cutting its characters at the dots come to the
/// same pieces.
pub proof fn law_pieces_by_character(name: Seq<char>)
    ensures
        dns::pieces(utf8::encode_utf8(name)) == char_pieces(name).map_values(
            |piece: Seq<char>| utf8::encode_utf8(piece),
        ),
        char_pieces(name).len() > 0,
    decreases name.len(),
{
    let encode = |piece: Seq<char>| utf8::encode_utf8(piece);
    if name.len() == 0 {
        assert(char_pieces(name).map_values(encode) =~= seq![Seq::<u8>::empty()]);
    } else {
        let front = name.drop_last();
        let c = name.last();
        law_pieces_by_character(front);
        lemma_encode_push(front, c);
        assert(front.push(c) =~= name);
        lemma_scalar_dots(c);
        let code = utf8::encode_scalar(c as u32);
        let before = char_pieces(front);
        if c == '.' {
            assert(utf8::encode_utf8(front) + code =~= utf8::encode_utf8(front).push(DOT));
            assert(utf8::encode_utf8(front).push(DOT).drop_last() =~= utf8::encode_utf8(front));
            assert(dns::pieces(utf8::encode_utf8(name)) =~= char_pieces(name).map_values(encode));
        } else {
            lemma_pieces_extend(utf8::encode_utf8(front), code);
            lemma_encode_push(before.last(), c);
            assert(dns::pieces(utf8::encode_utf8(name)) =~= char_pieces(name).map_values(encode));
        }
    }
}

/// Encoding one more character appends its octets.
proof fn lemma_encode_push(front: Seq<char>, c: char)
    ensures
        utf8::encode_utf8(front.push(c)) == utf8::encode_utf8(front) + utf8::encode_scalar(
            c as u32,
        ),
    decreases front.len(),
{
    let whole = front.push(c);
    if front.len() == 0 {
        assert(whole.drop_first() =~= Seq::empty());
        assert(utf8::encode_utf8(Seq::<char>::empty()) =~= seq![]);
        assert(utf8::encode_utf8(whole) =~= utf8::encode_utf8(front) + utf8::encode_scalar(
            c as u32,
        ));
    } else {
        lemma_encode_push(front.drop_first(), c);
        assert(whole.drop_first() =~= front.drop_first().push(c));
        assert(utf8::encode_utf8(whole) =~= utf8::encode_utf8(front) + utf8::encode_scalar(
            c as u32,
        ));
    }
}

/// Whether there is no dot among the octets `code`.
spec fn dotless(code: Seq<u8>) -> bool {
    forall|i: int| 0 <= i < code.len() ==> code[i] != DOT
}

/// The dot is encoded as one octet, and no other character has that octet in its encoding.
proof fn lemma_scalar_dots(c: char)
    ensures
        c == '.' ==> utf8::encode_scalar(c as u32) == seq![DOT],
        c != '.' ==> dotless(utf8::encode_scalar(c as u32)),
{
    let v = c as u32;
    assert(v <= 0x7F ==> (v & 0x7F) as u8 == v) by (bit_vector);
    assert(0xC0 | ((v >> 6) & 0x1F) as u8 >= 0x80u8) by (bit_vector);
    assert(0xE0 | ((v >> 12) & 0x0F) as u8 >= 0x80u8) by (bit_vector);
    assert(0xF0 | ((v >> 18) & 0x7) as u8 >= 0x80u8) by (bit_vector);
    assert(0x80 | (v & 0x3F) as u8 >= 0x80u8) by (bit_vector);
    assert(0x80 | ((v >> 6) & 0x3F) as u8 >= 0x80u8) by (bit_vector);
    assert(0x80 | ((v >> 12) & 0x3F) as u8 >= 0x80u8) by (bit_vector);
}

/// Octets without a dot lengthen the last piece.
proof fn lemma_pieces_extend(front: Seq<u8>, code: Seq<u8>)
    requires
        dotless(code),
        dns::pieces(front).len() > 0,
    ensures
        dns::pieces(front + code) == dns::pieces(front).drop_last().push(
            dns::pieces(front).last() + code,
        ),
    decreases code.len(),
{
    let before = dns::pieces(front);
    if code.len() == 0 {
        assert(front + code =~= front);
        assert(before.last() + code =~= before.last());
        assert(before.drop_last().push(before.last()) =~= before);
    } else {
        lemma_pieces_extend(front, code.drop_last());
        assert((front + code).drop_last() =~= front + code.drop_last());
        assert((before.last() + code.drop_last()).push(code.last()) =~= before.last() + code);
        let shorter = dns::pieces(front + code.drop_last());
        assert(shorter.drop_last() =~= before.drop_last());
        assert(dns::pieces(front + code) =~= before.drop_last().push(before.last() + code));
    }
}

/// A name in wire form that ends where its octets end.
pub open spec fn complete_name(name: Seq<u8>) -> bool {
    dns::name_end(name, 0) == NameEnd::Behind(name.len() as int)
}

/// A complete name is skipped exactly, wherever it stands.
pub proof fn law_complete_name_skipped(before: Seq<u8>, name: Seq<u8>, after: Seq<u8>)
    requires
        complete_name(name),
    ensures
        dns::name_end(before + name + after, before.len() as int) == NameEnd::Behind(
            (before.len() + name.len()) as int,
        ),
{
    lemma_name_moved(before, name, after, 0);
}

proof fn lemma_name_moved(before: Seq<u8>, name: Seq<u8>, after: Seq<u8>, pos: int)
    requires
        0 <= pos,
        dns::name_end(name, pos) == NameEnd::Behind(name.len() as int),
    ensures
        dns::name_end(before + name + after, before.len() + pos) == NameEnd::Behind(
            (before.len() + name.len()) as int,
        ),
    decreases
            (if pos < name.len() {
                name.len() - pos
            } else {
                0
            }),
{
    let whole = before + name + after;
    assert(pos < name.len());
    assert(whole[before.len() + pos] == name[pos]);
    if 0 < name[pos] < 0xC0 {
        lemma_name_moved(before, name, after, pos + 1 + name[pos]);
    }
}

/// Whether every label is of a length that its length octet can say. (From 192 on the octet reads
/// as a pointer.)
pub open spec fn speakable(labels: Seq<Seq<u8>>) -> bool {
    forall|i: int| 0 <= i < labels.len() ==> 0 < #[trigger] labels[i].len() < 0xC0
}

/// What `encode_name` writes, `skip_name` skips exactly.
pub proof fn law_encoded_name_complete(labels: Seq<Seq<u8>>)
    requires
        speakable(labels),
    ensures
        complete_name(dns::wire_name(labels)),
{
    lemma_labels_skipped(labels, seq![0]);
    let name = dns::wire_name(labels);
    assert(dns::wire_labels(labels) + seq![0u8] =~= name);
}

/// Reading on behind encoded labels.
proof fn lemma_labels_skipped(labels: Seq<Seq<u8>>, rest: Seq<u8>)
    requires
        speakable(labels),
    ensures
        dns::name_end(dns::wire_labels(labels) + rest, 0) == dns::name_end(
            dns::wire_labels(labels) + rest,
            dns::wire_labels(labels).len() as int,
        ),
    decreases labels.len(),
{
    if labels.len() > 0 {
        let front = labels.drop_last();
        let label = labels.last();
        assert(speakable(front)) by {
            assert forall|i: int| 0 <= i < front.len() implies 0 < #[trigger] front[i].len()
                < 0xC0 by {
                assert(front[i] == labels[i]);
            }
        }
        let whole = dns::wire_labels(labels) + rest;
        lemma_labels_skipped(front, dns::wire_label(label) + rest);
        assert(whole =~= dns::wire_labels(front) + (dns::wire_label(label) + rest));
        assert(labels[labels.len() - 1].len() < 0xC0);
        assert(whole[dns::wire_labels(front).len() as int] == label.len());
    }
}

// ---------------------------------------------------------------------------------------------
// Messages
// ---------------------------------------------------------------------------------------------

/// A message shorter than 65536 octets comes out of its frame as it went in.
pub proof fn law_frame_read_back(msg: Seq<u8>)
    requires
        msg.len() < 65536,
    ensures
        dns::be16_at(dns::framed(msg), 0) == msg.len(),
        dns::framed(msg).skip(2) == msg,
{
    assert(dns::framed(msg).skip(2) =~= msg);
}

/// A question, with its name in wire form.
pub struct Question {
    pub name: Seq<u8>,
    pub qtype: u16,
    pub qclass: u16,
}

/// A record, with its name in wire form.
pub struct Record {
    pub name: Seq<u8>,
    pub rtype: u16,
    pub class: u16,
    pub ttl: Seq<u8>,
    pub rdata: Seq<u8>,
}

/// A question on the wire.
pub open spec fn wire_question(q: Question) -> Seq<u8> {
    q.name + dns::be16(q.qtype) + dns::be16(q.qclass)
}

/// A record on the wire.
pub open spec fn wire_record(r: Record) -> Seq<u8> {
    r.name + (dns::be16(r.rtype) + dns::be16(r.class) + r.ttl + dns::be16(r.rdata.len() as u16))
        + r.rdata
}

/// Questions on the wire, one after the other.
pub open spec fn wire_questions(questions: Seq<Question>) -> Seq<u8>
    decreases questions.len(),
{
    if questions.len() == 0 {
        seq![]
    } else {
        wire_question(questions[0]) + wire_questions(questions.drop_first())
    }
}

/// Records on the wire, one after the other.
pub open spec fn wire_records(records: Seq<Record>) -> Seq<u8>
    decreases records.len(),
{
    if records.len() == 0 {
        seq![]
    } else {
        wire_record(records[0]) + wire_records(records.drop_first())
    }
}

/// The addresses of type `qtype` in `records`, in order.
pub open spec fn addresses(records: Seq<Record>, qtype: u16) -> Seq<IpView>
    decreases records.len(),
{
    if records.len() == 0 {
        seq![]
    } else {
        dns::record_ips(records[0].rtype, records[0].rdata, qtype) + addresses(
            records.drop_first(),
            qtype,
        )
    }
}

/// Whether the parts of a question can be told apart on the wire.
pub open spec fn sound_questions(questions: Seq<Question>) -> bool {
    forall|i: int| 0 <= i < questions.len() ==> complete_name(#[trigger] questions[i].name)
}

/// Whether the parts of a record can be told apart on the wire.
pub open spec fn sound_record(r: Record) -> bool {
    complete_name(r.name) && r.ttl.len() == 4 && r.rdata.len() < 65536
}

/// Whether the parts of each record can be told apart on the wire.
pub open spec fn sound_records(records: Seq<Record>) -> bool {
    forall|i: int| 0 <= i < records.len() ==> sound_record(#[trigger] records[i])
}

/// Reading a response gives back the addresses that were written into it: those of the type asked
/// for, in order, and nothing of the questions, of other records or of what follows.
pub proof fn law_response_read_back(
    header: Seq<u8>,
    questions: Seq<Question>,
    records: Seq<Record>,
    rest: Seq<u8>,
    qtype: u16,
)
    requires
        header.len() == HEADER_LEN,
        dns::be16_at(header, 0) == QUERY_ID,
        dns::rcode_of(header) == 0,
        dns::be16_at(header, 4) == questions.len(),
        dns::be16_at(header, 6) == records.len(),
        sound_questions(questions),
        sound_records(records),
    ensures
        dns::answers(header + wire_questions(questions) + wire_records(records) + rest, qtype)
            == Ok::<Seq<IpView>, ErrorView>(addresses(records, qtype)),
{
    let resp = header + wire_questions(questions) + wire_records(records) + rest;
    let behind = wire_records(records) + rest;
    assert(resp =~= header + wire_questions(questions) + behind);
    lemma_questions_skipped(header, questions, behind);
    let before = header + wire_questions(questions);
    assert(resp =~= before + wire_records(records) + rest);
    lemma_records_read(before, records, rest, qtype);
}

proof fn lemma_questions_skipped(before: Seq<u8>, questions: Seq<Question>, rest: Seq<u8>)
    requires
        sound_questions(questions),
    ensures
        dns::questions_end(
            before + wire_questions(questions) + rest,
            before.len() as int,
            questions.len(),
        ) == Some((before.len() + wire_questions(questions).len()) as int),
    decreases questions.len(),
{
    if questions.len() > 0 {
        let q = questions[0];
        let others = questions.drop_first();
        assert(complete_name(questions[0].name));
        assert(sound_questions(others)) by {
            assert forall|i: int| 0 <= i < others.len() implies complete_name(
                #[trigger] others[i].name,
            ) by {
                assert(others[i] == questions[i + 1]);
            }
        }
        let whole = before + wire_questions(questions) + rest;
        let fields = dns::be16(q.qtype) + dns::be16(q.qclass);
        let next = before + wire_question(q);
        assert(whole =~= before + q.name + (fields + wire_questions(others) + rest));
        law_complete_name_skipped(before, q.name, fields + wire_questions(others) + rest);
        assert(whole =~= next + wire_questions(others) + rest);
        lemma_questions_skipped(next, others, rest);
    }
}

proof fn lemma_records_read(before: Seq<u8>, records: Seq<Record>, rest: Seq<u8>, qtype: u16)
    requires
        sound_records(records),
    ensures
        dns::answers_from(
            before + wire_records(records) + rest,
            before.len() as int,
            records.len(),
            qtype,
        ) == Ok::<Seq<IpView>, ErrorView>(addresses(records, qtype)),
    decreases records.len(),
{
    if records.len() > 0 {
        let r = records[0];
        let others = records.drop_first();
        assert(sound_record(records[0]));
        assert(sound_records(others)) by {
            assert forall|i: int| 0 <= i < others.len() implies sound_record(
                #[trigger] others[i],
            ) by {
                assert(others[i] == records[i + 1]);
            }
        }
        let whole = before + wire_records(records) + rest;
        let fields = dns::be16(r.rtype) + dns::be16(r.class) + r.ttl + dns::be16(
            r.rdata.len() as u16,
        );
        let tail = fields + r.rdata + wire_records(others) + rest;
        let at = (before.len() + r.name.len()) as int;
        assert(whole =~= before + r.name + tail);
        law_complete_name_skipped(before, r.name, tail);
        assert(whole =~= (before + r.name) + tail);
        assert(forall|i: int| 0 <= i < 10 ==> whole[at + i] == #[trigger] fields[i]);
        assert(fields[0] == dns::be16(r.rtype)[0]);
        assert(fields[1] == dns::be16(r.rtype)[1]);
        assert(fields[8] == dns::be16(r.rdata.len() as u16)[0]);
        assert(fields[9] == dns::be16(r.rdata.len() as u16)[1]);
        assert(whole.subrange(at + 10, at + 10 + r.rdata.len()) =~= r.rdata);
        let next = before + wire_record(r);
        assert(whole =~= next + wire_records(others) + rest);
        lemma_records_read(next, others, rest, qtype);
    }
}

/// A query, read as if it were a response, holds no addresses and no defect, provided that its
/// labels are of lengths that their length octets can say.
pub proof fn law_query_well_formed(domain: Seq<char>, qtype: u16, asked: u16)
    requires
        speakable(dns::labels(utf8::encode_utf8(domain))),
    ensures
        dns::answers(dns::query_message(domain, qtype), asked) == Ok::<Seq<IpView>, ErrorView>(
            seq![],
        ),
{
    let labels = dns::labels(utf8::encode_utf8(domain));
    let q = Question { name: dns::wire_name(labels), qtype, qclass: QCLASS_IN };
    let header = dns::query_header();
    law_encoded_name_complete(labels);
    assert(header =~= seq![0x12u8, 0x34, 0x01, 0x00, 0, 1, 0, 0, 0, 0, 0, 0]);
    law_response_read_back(header, seq![q], seq![], seq![], asked);
    assert(seq![q].drop_first() =~= seq![]);
    assert(wire_questions(seq![]) =~= seq![]);
    assert(wire_questions(seq![q]) =~= wire_question(q));
    assert(header + wire_questions(seq![q]) + wire_records(seq![]) + seq![]
        =~= dns::query_message(domain, qtype));
}

/// Addresses come in the family that was asked for, complete, and no more of them than the
/// response announces records; of types other than A and AAAA there are none.
pub proof fn law_answers_of_one_family(resp: Seq<u8>, qtype: u16, i: int)
    requires
        dns::answers(resp, qtype) is Ok,
    ensures
        dns::answers(resp, qtype)->Ok_0.len() <= dns::be16_at(resp, 6),
        0 <= i < dns::answers(resp, qtype)->Ok_0.len() ==> {
            let ip = dns::answers(resp, qtype)->Ok_0[i];
            &&& ip.well_formed()
            &&& qtype == QTYPE_A && ip is V4 || qtype == QTYPE_AAAA && ip is V6
        },
{
    let pos = dns::questions_end(resp, HEADER_LEN as int, dns::be16_at(resp, 4) as nat);
    lemma_one_family(resp, pos->Some_0, dns::be16_at(resp, 6) as nat, qtype, i);
}

proof fn lemma_one_family(buf: Seq<u8>, pos: int, count: nat, qtype: u16, i: int)
    requires
        dns::answers_from(buf, pos, count, qtype) is Ok,
    ensures
        dns::answers_from(buf, pos, count, qtype)->Ok_0.len() <= count,
        0 <= i < dns::answers_from(buf, pos, count, qtype)->Ok_0.len() ==> {
            let ip = dns::answers_from(buf, pos, count, qtype)->Ok_0[i];
            &&& ip.well_formed()
            &&& qtype == QTYPE_A && ip is V4 || qtype == QTYPE_AAAA && ip is V6
        },
    decreases count,
{
    if count > 0 {
        let at = dns::name_end(buf, pos)->Behind_0;
        let end = at + 10 + dns::be16_at(buf, at + 8);
        let found = dns::record_ips(dns::be16_at(buf, at), buf.subrange(at + 10, end), qtype);
        lemma_one_family(buf, end, (count - 1) as nat, qtype, i - found.len());
    }
}

} // verus!
