//! What holds of DNS messages octet by octet: queries told over the domain that they ask for, and
//! responses told over the questions and records that were written into them.

use vstd::prelude::*;
use vstd::utf8;

use crate::dns;
use crate::dns::NameEnd;
use crate::dns_laws;
use crate::error::{Error, ErrorKind, ErrorView};
use crate::ip::{IpAddr, IpView};
use crate::text;

verus! {

// ---------------------------------------------------------------------------------------------
// Numbers and frames
// ---------------------------------------------------------------------------------------------

/// Numbers take two octets, the more significant one first, in writing and in reading.
pub proof fn law_numbers_big_endian(x: u16, buf: Seq<u8>, pos: int)
    ensures
        dns::be16(x).len() == 2,
        dns::be16(x)[0] * 256 + dns::be16(x)[1] == x,
        dns::be16_at(buf, pos) == buf[pos] * 256 + buf[pos + 1],
{
}

/// A frame is the message behind two octets that hold its length, modulo 65536.
pub proof fn law_frame_octets(msg: Seq<u8>)
    ensures
        dns::framed(msg).len() == msg.len() + 2,
        dns::framed(msg)[0] * 256 + dns::framed(msg)[1] == msg.len() % 65536,
        forall|i: int| 0 <= i < msg.len() ==> #[trigger] dns::framed(msg)[i + 2] == msg[i],
{
}

// ---------------------------------------------------------------------------------------------
// Queries
// ---------------------------------------------------------------------------------------------

/// A query starts with the twelve octets of its header: the identifier 0x1234, recursion desired,
/// one question, no records. It ends with the type asked for and the Internet class.
pub proof fn law_query_layout(domain: Seq<char>, qtype: u16)
    ensures
        ({
            let msg = dns::query_message(domain, qtype);
            let n = msg.len() as int;
            &&& n >= 17
            &&& msg.take(12) == seq![0x12u8, 0x34, 0x01, 0x00, 0, 1, 0, 0, 0, 0, 0, 0]
            &&& msg[n - 4] * 256 + msg[n - 3] == qtype
            &&& msg[n - 2] * 256 + msg[n - 1] == 1
            &&& msg[n - 5] == 0
        }),
{
    let msg = dns::query_message(domain, qtype);
    assert(msg.take(12) =~= seq![0x12u8, 0x34, 0x01, 0x00, 0, 1, 0, 0, 0, 0, 0, 0]);
}

/// Queries for different types differ, whatever the domains are.
pub proof fn law_queries_of_types_differ(a: Seq<char>, b: Seq<char>, atype: u16, btype: u16)
    requires
        atype != btype,
    ensures
        dns::query_message(a, atype) != dns::query_message(b, btype),
{
    law_query_layout(a, atype);
    law_query_layout(b, btype);
}

/// Queries for one domain are the same but for the two octets of the type.
pub proof fn law_query_names_domain_whatever_type(domain: Seq<char>, atype: u16, btype: u16)
    ensures
        ({
            let a = dns::query_message(domain, atype);
            let b = dns::query_message(domain, btype);
            &&& a.len() == b.len()
            &&& a.take(a.len() - 4) == b.take(b.len() - 4)
        }),
{
    let a = dns::query_message(domain, atype);
    let b = dns::query_message(domain, btype);
    assert(a.take(a.len() - 4) =~= b.take(b.len() - 4));
}

/// The domain whose parts between the dots are `parts`.
pub open spec fn dotted(parts: Seq<Seq<char>>) -> Seq<char>
    decreases parts.len(),
{
    if parts.len() == 0 {
        seq![]
    } else if parts.len() == 1 {
        parts[0]
    } else {
        dotted(parts.drop_last()) + seq!['.'] + parts.last()
    }
}

/// Whether there is no dot inside any of `parts`.
pub open spec fn without_dots(parts: Seq<Seq<char>>) -> bool {
    forall|i: int| 0 <= i < parts.len() ==> !(#[trigger] parts[i]).contains('.')
}

/// `parts` as labels, one after the other: in front of each the number of its octets, modulo 256;
/// empty ones are left out.
pub open spec fn part_octets(parts: Seq<Seq<char>>) -> Seq<u8> {
    parts.fold_left(
        Seq::<u8>::empty(),
        |octets: Seq<u8>, part: Seq<char>|
            if part.len() == 0 {
                octets
            } else {
                octets + seq![(utf8::encode_utf8(part).len() % 256) as u8] + utf8::encode_utf8(part)
            },
    )
}

/// The query for a domain, octet by octet: the header; the parts of the domain between its dots,
/// each behind its length, empty ones left out; a zero; the type asked for; the Internet class.
pub proof fn law_query_octets(parts: Seq<Seq<char>>, qtype: u16)
    requires
        parts.len() > 0,
        without_dots(parts),
    ensures
        dns::query_message(dotted(parts), qtype) == seq![
            0x12u8,
            0x34,
            0x01,
            0x00,
            0,
            1,
            0,
            0,
            0,
            0,
            0,
            0,
        ] + part_octets(parts) + seq![
            0u8,
            (qtype / 256) as u8,
            (qtype % 256) as u8,
            0,
            1,
        ],
{
    let domain = dotted(parts);
    let encode = |piece: Seq<char>| utf8::encode_utf8(piece);
    lemma_cut_at_dots(parts);
    dns_laws::law_pieces_by_character(domain);
    assert(dns::pieces(utf8::encode_utf8(domain)) == parts.map_values(encode));
    lemma_part_octets(parts);
    assert(dns::query_message(domain, qtype) =~= seq![
        0x12u8,
        0x34,
        0x01,
        0x00,
        0,
        1,
        0,
        0,
        0,
        0,
        0,
        0,
    ] + part_octets(parts) + seq![0u8, (qtype / 256) as u8, (qtype % 256) as u8, 0, 1]);
}

/// Characters without a dot lengthen the last piece.
proof fn lemma_char_pieces_extend(front: Seq<char>, part: Seq<char>)
    requires
        !part.contains('.'),
        dns_laws::char_pieces(front).len() > 0,
    ensures
        dns_laws::char_pieces(front + part) == dns_laws::char_pieces(front).drop_last().push(
            dns_laws::char_pieces(front).last() + part,
        ),
    decreases part.len(),
{
    let before = dns_laws::char_pieces(front);
    if part.len() == 0 {
        assert(front + part =~= front);
        assert(before.last() + part =~= before.last());
        assert(before.drop_last().push(before.last()) =~= before);
    } else {
        let shorter = part.drop_last();
        assert(!shorter.contains('.')) by {
            if shorter.contains('.') {
                let k = choose|k: int| 0 <= k < shorter.len() && shorter[k] == '.';
                assert(part[k] == '.');
            }
        }
        assert(part.last() != '.') by {
            assert(part.contains(part[part.len() - 1]));
        }
        lemma_char_pieces_extend(front, shorter);
        assert((front + part).drop_last() =~= front + shorter);
        assert((before.last() + shorter).push(part.last()) =~= before.last() + part);
        assert(dns_laws::char_pieces(front + shorter).drop_last() =~= before.drop_last());
        assert(dns_laws::char_pieces(front + part) =~= before.drop_last().push(
            before.last() + part,
        ));
    }
}

/// Cutting at the dots gives back the parts.
proof fn lemma_cut_at_dots(parts: Seq<Seq<char>>)
    requires
        parts.len() > 0,
        without_dots(parts),
    ensures
        dns_laws::char_pieces(dotted(parts)) == parts,
    decreases parts.len(),
{
    let last = parts.last();
    assert(!parts[parts.len() - 1].contains('.'));
    if parts.len() == 1 {
        let nothing = Seq::<char>::empty();
        assert(dns_laws::char_pieces(nothing) =~= seq![nothing]);
        lemma_char_pieces_extend(nothing, last);
        assert(nothing + last =~= last);
        assert(dns_laws::char_pieces(last) =~= parts);
    } else {
        let front = parts.drop_last();
        assert(without_dots(front)) by {
            assert forall|i: int| 0 <= i < front.len() implies !(
            #[trigger] front[i]).contains('.') by {
                assert(front[i] == parts[i]);
            }
        }
        lemma_cut_at_dots(front);
        let before = dotted(front) + seq!['.'];
        assert(before.drop_last() =~= dotted(front));
        assert(dns_laws::char_pieces(before) =~= front.push(Seq::empty()));
        lemma_char_pieces_extend(before, last);
        assert(Seq::<char>::empty() + last =~= last);
        assert(dns_laws::char_pieces(dotted(parts)) =~= parts);
    }
}

/// The labels of the parts are the parts that are not empty.
proof fn lemma_part_octets(parts: Seq<Seq<char>>)
    ensures
        dns::wire_labels(
            dns::nonempty(parts.map_values(|piece: Seq<char>| utf8::encode_utf8(piece))),
        ) == part_octets(parts),
    decreases parts.len(),
{
    reveal(Seq::fold_left);
    let encode = |piece: Seq<char>| utf8::encode_utf8(piece);
    if parts.len() > 0 {
        let front = parts.drop_last();
        let last = parts.last();
        lemma_part_octets(front);
        assert(parts.map_values(encode).drop_last() =~= front.map_values(encode));
        lemma_encoding_empty(last);
        let kept = dns::nonempty(front.map_values(encode));
        assert(kept.push(utf8::encode_utf8(last)).drop_last() =~= kept);
        assert(dns::wire_labels(dns::nonempty(parts.map_values(encode))) =~= part_octets(parts));
    }
}

/// Only the empty text is encoded as no octets.
proof fn lemma_encoding_empty(part: Seq<char>)
    ensures
        utf8::encode_utf8(part).len() == 0 <==> part.len() == 0,
{
    if part.len() == 0 {
        assert(part =~= Seq::empty());
    }
}

// ---------------------------------------------------------------------------------------------
// Responses
// ---------------------------------------------------------------------------------------------

/// A name as a server writes it: labels, and then either the zero of the root or a pointer.
pub struct WrittenName {
    pub labels: Seq<Seq<u8>>,
    pub ending: Seq<u8>,
}

/// A question as a server writes it.
pub struct WrittenQuestion {
    pub name: WrittenName,
    pub qtype: u16,
    pub qclass: u16,
}

/// A record as a server writes it.
pub struct WrittenRecord {
    pub name: WrittenName,
    pub rtype: u16,
    pub class: u16,
    pub ttl: Seq<u8>,
    pub rdata: Seq<u8>,
}

/// Labels of 1 to 191 octets, then a zero, or two octets of which the first has its two upper bits
/// set.
pub open spec fn sound_name(name: WrittenName) -> bool {
    &&& forall|i: int| 0 <= i < name.labels.len() ==> 1 <= #[trigger] name.labels[i].len() <= 191
    &&& name.ending == seq![0u8] || name.ending.len() == 2 && name.ending[0] >= 192
}

/// Labels on the wire, each behind its length.
pub open spec fn label_octets(labels: Seq<Seq<u8>>) -> Seq<u8>
    decreases labels.len(),
{
    if labels.len() == 0 {
        seq![]
    } else {
        seq![labels[0].len() as u8] + labels[0] + label_octets(labels.drop_first())
    }
}

/// A name on the wire.
pub open spec fn name_octets(name: WrittenName) -> Seq<u8> {
    label_octets(name.labels) + name.ending
}

/// A question on the wire.
pub open spec fn question_octets(q: WrittenQuestion) -> Seq<u8> {
    name_octets(q.name) + seq![
        (q.qtype / 256) as u8,
        (q.qtype % 256) as u8,
        (q.qclass / 256) as u8,
        (q.qclass % 256) as u8,
    ]
}

/// The ten octets of a record between its name and its data.
pub open spec fn fixed_octets(r: WrittenRecord) -> Seq<u8> {
    seq![
        (r.rtype / 256) as u8,
        (r.rtype % 256) as u8,
        (r.class / 256) as u8,
        (r.class % 256) as u8,
        r.ttl[0],
        r.ttl[1],
        r.ttl[2],
        r.ttl[3],
        (r.rdata.len() / 256) as u8,
        (r.rdata.len() % 256) as u8,
    ]
}

/// A record on the wire.
pub open spec fn record_octets(r: WrittenRecord) -> Seq<u8> {
    name_octets(r.name) + fixed_octets(r) + r.rdata
}

/// Questions on the wire.
pub open spec fn questions_octets(questions: Seq<WrittenQuestion>) -> Seq<u8>
    decreases questions.len(),
{
    if questions.len() == 0 {
        seq![]
    } else {
        question_octets(questions[0]) + questions_octets(questions.drop_first())
    }
}

/// Records on the wire.
pub open spec fn records_octets(records: Seq<WrittenRecord>) -> Seq<u8>
    decreases records.len(),
{
    if records.len() == 0 {
        seq![]
    } else {
        record_octets(records[0]) + records_octets(records.drop_first())
    }
}

/// Whether all names of questions are sound.
pub open spec fn sound_questions(questions: Seq<WrittenQuestion>) -> bool {
    forall|i: int| 0 <= i < questions.len() ==> sound_name(#[trigger] questions[i].name)
}

/// Whether a record can be written: its name is sound, the length of its data fits its field.
pub open spec fn sound_record(r: WrittenRecord) -> bool {
    sound_name(r.name) && r.ttl.len() == 4 && r.rdata.len() < 65536
}

/// Whether all records can be written.
pub open spec fn sound_records(records: Seq<WrittenRecord>) -> bool {
    forall|i: int| 0 <= i < records.len() ==> sound_record(#[trigger] records[i])
}

/// Twelve octets that announce a response without failure, with so many questions and records.
pub open spec fn announces(header: Seq<u8>, questions: nat, records: nat) -> bool {
    &&& header.len() == 12
    &&& header[0] == 0x12
    &&& header[1] == 0x34
    &&& header[3] % 16 == 0
    &&& header[4] * 256 + header[5] == questions
    &&& header[6] * 256 + header[7] == records
}

/// The data of those records, in order, whose type is `qtype` and whose data is as long as an
/// address of that type.
pub open spec fn written_addresses(records: Seq<WrittenRecord>, qtype: u16) -> Seq<IpView> {
    records.filter(
        |r: WrittenRecord|
            r.rtype == qtype && (qtype == 1 && r.rdata.len() == 4 || qtype == 28 && r.rdata.len()
                == 16),
    ).map_values(
        |r: WrittenRecord|
            if qtype == 1 {
                IpView::V4(r.rdata)
            } else {
                IpView::V6(r.rdata)
            },
    )
}

/// What comes out of a response are, in order and octet for octet, the data of the records of the
/// type asked for that hold an address: four octets for A, sixteen for AAAA.
pub proof fn law_response_addresses(
    header: Seq<u8>,
    questions: Seq<WrittenQuestion>,
    records: Seq<WrittenRecord>,
    rest: Seq<u8>,
    qtype: u16,
)
    requires
        announces(header, questions.len(), records.len()),
        sound_questions(questions),
        sound_records(records),
    ensures
        dns::answers(header + questions_octets(questions) + records_octets(records) + rest, qtype)
            == Ok::<Seq<IpView>, ErrorView>(
            records.filter(
                |r: WrittenRecord|
                    r.rtype == qtype && (qtype == 1 && r.rdata.len() == 4 || qtype == 28
                        && r.rdata.len() == 16),
            ).map_values(
                |r: WrittenRecord|
                    if qtype == 1 {
                        IpView::V4(r.rdata)
                    } else {
                        IpView::V6(r.rdata)
                    },
            ),
        ),
        dns::response_outcome(
            header + questions_octets(questions) + records_octets(records) + rest,
            qtype,
        ) == Ok::<Seq<IpView>, ErrorView>(written_addresses(records, qtype)),
{
    let resp = header + questions_octets(questions) + records_octets(records) + rest;
    assert(resp =~= header + questions_octets(questions) + (records_octets(records) + rest));
    lemma_questions_passed(header, questions, records_octets(records) + rest, 0);
    lemma_records_passed(header + questions_octets(questions), records, rest, 0, qtype);
    assert(written_addresses(records, qtype) + seq![] =~= written_addresses(records, qtype));
}

/// A response that ends inside a record, after so many of its octets as `kept` says, or that
/// announces more records than it has, is refused. The error says where it ended.
pub proof fn law_cut_record_refused(
    header: Seq<u8>,
    questions: Seq<WrittenQuestion>,
    records: Seq<WrittenRecord>,
    last: WrittenRecord,
    kept: int,
    announced: nat,
    qtype: u16,
)
    requires
        announced > records.len(),
        announces(header, questions.len(), announced),
        sound_questions(questions),
        sound_records(records),
        sound_record(last),
        0 <= kept < record_octets(last).len(),
    ensures
        dns::answers(
            header + questions_octets(questions) + records_octets(records) + record_octets(
                last,
            ).take(kept),
            qtype,
        ) == Err::<Seq<IpView>, ErrorView>(
            ErrorView {
                kind: ErrorKind::InvalidData,
                message: if kept <= label_octets(last.name.labels).len() {
                    "dns name truncated"@
                } else if kept < name_octets(last.name).len() + 10 {
                    "dns answer truncated"@
                } else {
                    "dns rdata truncated"@
                },
            },
        ),
{
    let piece = record_octets(last).take(kept);
    let before = header + questions_octets(questions) + records_octets(records);
    let resp = before + piece;
    let more = (announced - records.len()) as nat;
    assert(resp =~= header + questions_octets(questions) + (records_octets(records) + piece));
    lemma_questions_passed(header, questions, records_octets(records) + piece, 0);
    lemma_records_passed(header + questions_octets(questions), records, piece, more, qtype);
    let labels = label_octets(last.name.labels);
    if kept <= labels.len() {
        assert(piece =~= labels.take(kept));
        lemma_cut_labels(before, last.name.labels, kept);
    } else {
        let ending = piece.skip(labels.len() as int);
        assert(resp =~= before + labels + ending);
        lemma_labels_passed(before, last.name.labels, ending);
        let at = (before.len() + labels.len()) as int;
        assert(resp[at] == last.name.ending[0]);
        let data = at + last.name.ending.len() + 10;
        assert(dns::name_end(resp, before.len() as int) == NameEnd::Behind(data - 10));
        if kept >= name_octets(last.name).len() + 10 {
            assert(resp[data - 2] == fixed_octets(last)[8]);
            assert(resp[data - 1] == fixed_octets(last)[9]);
            assert(dns::be16_at(resp, data - 2) == last.rdata.len());
        }
    }
}

/// A response that ends inside a question, after so many of its octets as `kept` says, is refused,
/// unless only the type and class of the last question are missing and no records are announced:
/// then there is nothing in it.
pub proof fn law_cut_question_refused(
    header: Seq<u8>,
    questions: Seq<WrittenQuestion>,
    last: WrittenQuestion,
    kept: int,
    announced: nat,
    records: nat,
    qtype: u16,
)
    requires
        announced > questions.len(),
        announces(header, announced, records),
        sound_questions(questions),
        sound_name(last.name),
        0 <= kept < question_octets(last).len(),
    ensures
        dns::answers(header + questions_octets(questions) + question_octets(last).take(kept), qtype)
            == if kept <= label_octets(last.name.labels).len() || announced > questions.len() + 1
            || records > 0 {
            Err::<Seq<IpView>, ErrorView>(
                ErrorView { kind: ErrorKind::InvalidData, message: "dns name truncated"@ },
            )
        } else {
            Ok::<Seq<IpView>, ErrorView>(seq![])
        },
{
    let piece = question_octets(last).take(kept);
    let before = header + questions_octets(questions);
    let resp = before + piece;
    let more = (announced - questions.len()) as nat;
    reveal_with_fuel(dns::questions_end, 3);
    lemma_questions_passed(header, questions, piece, more);
    let labels = label_octets(last.name.labels);
    if kept <= labels.len() {
        assert(piece =~= labels.take(kept));
        lemma_cut_labels(before, last.name.labels, kept);
    } else {
        let ending = piece.skip(labels.len() as int);
        assert(resp =~= before + labels + ending);
        lemma_labels_passed(before, last.name.labels, ending);
        let at = (before.len() + labels.len()) as int;
        assert(resp[at] == last.name.ending[0]);
        let behind = at + last.name.ending.len() + 4;
        assert(dns::name_end(resp, before.len() as int) == NameEnd::Behind(behind - 4));
        assert(behind >= resp.len());
        assert(dns::name_end(resp, behind) is Truncated);
    }
}

/// Reading on behind labels.
proof fn lemma_labels_passed(before: Seq<u8>, labels: Seq<Seq<u8>>, rest: Seq<u8>)
    requires
        forall|i: int| 0 <= i < labels.len() ==> 1 <= #[trigger] labels[i].len() <= 191,
    ensures
        dns::name_end(before + label_octets(labels) + rest, before.len() as int) == dns::name_end(
            before + label_octets(labels) + rest,
            (before.len() + label_octets(labels).len()) as int,
        ),
    decreases labels.len(),
{
    if labels.len() > 0 {
        let others = labels.drop_first();
        assert forall|i: int| 0 <= i < others.len() implies 1 <= #[trigger] others[i].len()
            <= 191 by {
            assert(others[i] == labels[i + 1]);
        }
        let whole = before + label_octets(labels) + rest;
        let next = before + (seq![labels[0].len() as u8] + labels[0]);
        lemma_labels_passed(next, others, rest);
        assert(whole =~= next + label_octets(others) + rest);
        assert(1 <= labels[0].len() <= 191);
        assert(whole[before.len() as int] == labels[0].len());
    }
}

/// Labels that break off have no end.
proof fn lemma_cut_labels(before: Seq<u8>, labels: Seq<Seq<u8>>, kept: int)
    requires
        forall|i: int| 0 <= i < labels.len() ==> 1 <= #[trigger] labels[i].len() <= 191,
        0 <= kept <= label_octets(labels).len(),
    ensures
        dns::name_end(before + label_octets(labels).take(kept), before.len() as int) is Truncated,
    decreases labels.len(),
{
    if kept > 0 {
        let others = labels.drop_first();
        assert forall|i: int| 0 <= i < others.len() implies 1 <= #[trigger] others[i].len()
            <= 191 by {
            assert(others[i] == labels[i + 1]);
        }
        assert(1 <= labels[0].len() <= 191);
        let first = seq![labels[0].len() as u8] + labels[0];
        let whole = before + label_octets(labels).take(kept);
        assert(label_octets(labels) =~= first + label_octets(others));
        assert(whole[before.len() as int] == labels[0].len());
        if kept >= first.len() {
            lemma_cut_labels(before + first, others, kept - first.len());
            assert(whole =~= before + first + label_octets(others).take(kept - first.len()));
        } else {
            assert(dns::name_end(whole, (before.len() + first.len()) as int) is Truncated);
        }
    }
}

/// A sound name ends where its octets end.
proof fn lemma_name_passed(before: Seq<u8>, name: WrittenName, rest: Seq<u8>)
    requires
        sound_name(name),
    ensures
        dns::name_end(before + name_octets(name) + rest, before.len() as int) == NameEnd::Behind(
            (before.len() + name_octets(name).len()) as int,
        ),
{
    let whole = before + name_octets(name) + rest;
    lemma_labels_passed(before, name.labels, name.ending + rest);
    assert(whole =~= before + label_octets(name.labels) + (name.ending + rest));
    assert(whole[(before.len() + label_octets(name.labels).len()) as int] == name.ending[0]);
}

/// Reading on behind questions.
proof fn lemma_questions_passed(
    before: Seq<u8>,
    questions: Seq<WrittenQuestion>,
    rest: Seq<u8>,
    more: nat,
)
    requires
        sound_questions(questions),
    ensures
        dns::questions_end(
            before + questions_octets(questions) + rest,
            before.len() as int,
            questions.len() + more,
        ) == dns::questions_end(
            before + questions_octets(questions) + rest,
            (before.len() + questions_octets(questions).len()) as int,
            more,
        ),
    decreases questions.len(),
{
    if questions.len() > 0 {
        let q = questions[0];
        let others = questions.drop_first();
        assert(sound_name(questions[0].name));
        assert(sound_questions(others)) by {
            assert forall|i: int| 0 <= i < others.len() implies sound_name(
                #[trigger] others[i].name,
            ) by {
                assert(others[i] == questions[i + 1]);
            }
        }
        let whole = before + questions_octets(questions) + rest;
        let tail = question_octets(q).skip(name_octets(q.name).len() as int) + questions_octets(
            others,
        ) + rest;
        assert(whole =~= before + name_octets(q.name) + tail);
        lemma_name_passed(before, q.name, tail);
        let next = before + question_octets(q);
        assert(whole =~= next + questions_octets(others) + rest);
        lemma_questions_passed(next, others, rest, more);
    }
}

/// The addresses of a list of records are those of the first one and then those of the others.
proof fn lemma_first_address(records: Seq<WrittenRecord>, qtype: u16)
    requires
        records.len() > 0,
    ensures
        written_addresses(records, qtype) == dns::record_ips(
            records[0].rtype,
            records[0].rdata,
            qtype,
        ) + written_addresses(records.drop_first(), qtype),
{
    let wanted = |r: WrittenRecord|
        r.rtype == qtype && (qtype == 1 && r.rdata.len() == 4 || qtype == 28 && r.rdata.len()
            == 16);
    let first = seq![records[0]];
    let others = records.drop_first();
    assert(records =~= first + others);
    Seq::filter_distributes_over_add(first, others, wanted);
    reveal_with_fuel(Seq::filter, 2);
    assert(first.drop_last() =~= seq![]);
    assert(written_addresses(records, qtype) =~= dns::record_ips(
        records[0].rtype,
        records[0].rdata,
        qtype,
    ) + written_addresses(others, qtype));
}

/// Reading on behind records.
proof fn lemma_records_passed(
    before: Seq<u8>,
    records: Seq<WrittenRecord>,
    rest: Seq<u8>,
    more: nat,
    qtype: u16,
)
    requires
        sound_records(records),
    ensures
        dns::answers_from(
            before + records_octets(records) + rest,
            before.len() as int,
            records.len() + more,
            qtype,
        ) == match dns::answers_from(
            before + records_octets(records) + rest,
            (before.len() + records_octets(records).len()) as int,
            more,
            qtype,
        ) {
            Err(e) => Err::<Seq<IpView>, ErrorView>(e),
            Ok(ips) => Ok(written_addresses(records, qtype) + ips),
        },
    decreases records.len(),
{
    let whole = before + records_octets(records) + rest;
    if records.len() == 0 {
        reveal(Seq::filter);
        match dns::answers_from(whole, before.len() as int, more, qtype) {
            Err(_) => {},
            Ok(ips) => {
                assert(written_addresses(records, qtype) + ips =~= ips);
            },
        }
    } else {
        let r = records[0];
        let others = records.drop_first();
        assert(sound_record(records[0]));
        assert(sound_records(others)) by {
            assert forall|i: int| 0 <= i < others.len() implies sound_record(
                #[trigger] others[i],
            ) by {
                assert(others[i] == records[i + 1]);
            }
        }
        lemma_first_address(records, qtype);
        let tail = fixed_octets(r) + r.rdata + records_octets(others) + rest;
        let at = (before.len() + name_octets(r.name).len()) as int;
        assert(whole =~= before + name_octets(r.name) + tail);
        lemma_name_passed(before, r.name, tail);
        assert(whole =~= (before + name_octets(r.name)) + tail);
        assert(forall|i: int| 0 <= i < 10 ==> whole[at + i] == #[trigger] fixed_octets(r)[i]);
        assert(fixed_octets(r)[0] == (r.rtype / 256) as u8);
        assert(fixed_octets(r)[1] == (r.rtype % 256) as u8);
        assert(fixed_octets(r)[8] == (r.rdata.len() / 256) as u8);
        assert(fixed_octets(r)[9] == (r.rdata.len() % 256) as u8);
        assert(dns::be16_at(whole, at) == r.rtype);
        assert(dns::be16_at(whole, at + 8) == r.rdata.len());
        assert(whole.subrange(at + 10, at + 10 + r.rdata.len()) =~= r.rdata);
        let next = before + record_octets(r);
        assert(whole =~= next + records_octets(others) + rest);
        lemma_records_passed(next, others, rest, more, qtype);
        let end = (before.len() + records_octets(records).len()) as int;
        assert(end == next.len() + records_octets(others).len());
        match dns::answers_from(whole, end, more, qtype) {
            Err(_) => {},
            Ok(ips) => {
                assert(dns::record_ips(r.rtype, r.rdata, qtype) + (written_addresses(others, qtype)
                    + ips) =~= written_addresses(records, qtype) + ips);
            },
        }
    }
}

/// A message of fewer than twelve octets is refused as too short, whatever is in it; a longer one
/// is read.
pub proof fn law_header_decides(msg: Seq<u8>, qtype: u16)
    ensures
        msg.len() < 12 ==> dns::response_outcome(msg, qtype) == Err::<Seq<IpView>, ErrorView>(
            ErrorView { kind: ErrorKind::InvalidData, message: "dns response too short"@ },
        ),
        msg.len() >= 12 ==> dns::response_outcome(msg, qtype) == dns::answers(msg, qtype),
{
}

/// A response that carries another identifier than 0x1234 is refused, whatever else it says.
pub proof fn law_other_identifier_refused(msg: Seq<u8>, qtype: u16)
    requires
        msg.len() >= 2,
        msg[0] != 0x12 || msg[1] != 0x34,
    ensures
        dns::answers(msg, qtype) == Err::<Seq<IpView>, ErrorView>(
            ErrorView { kind: ErrorKind::InvalidData, message: "dns response id mismatch"@ },
        ),
{
}

/// A response to our query whose code is not zero is refused. The error goes by the code alone,
/// and names it.
pub proof fn law_failure_code_refused(msg: Seq<u8>, qtype: u16)
    requires
        msg.len() >= 4,
        msg[0] == 0x12,
        msg[1] == 0x34,
        msg[3] % 16 != 0,
    ensures
        ({
            let code = msg[3] % 16;
            let named = |meaning: Seq<char>|
                meaning + " (rcode="@ + text::decimal(code as nat) + ")"@;
            dns::answers(msg, qtype) == Err::<Seq<IpView>, ErrorView>(
                match code {
                    1 => ErrorView {
                        kind: ErrorKind::InvalidData,
                        message: named("dns format error"@),
                    },
                    2 => ErrorView {
                        kind: ErrorKind::Other,
                        message: named("dns server failure"@),
                    },
                    3 => ErrorView {
                        kind: ErrorKind::AddrNotAvailable,
                        message: named("dns name does not exist"@),
                    },
                    4 => ErrorView {
                        kind: ErrorKind::Unsupported,
                        message: named("dns not implemented"@),
                    },
                    5 => ErrorView {
                        kind: ErrorKind::PermissionDenied,
                        message: named("dns query refused"@),
                    },
                    _ => ErrorView { kind: ErrorKind::Other, message: named("dns unknown rcode"@) },
                },
            )
        }),
{
}

/// What a lookup came to shows every octet of every address, in order, or the error as it is.
pub proof fn law_lookup_shown_whole(lookup: Result<Vec<IpAddr>, Error>, i: int)
    ensures
        lookup matches Ok(ips) ==> {
            &&& dns::lookup_view(lookup) matches Ok(shown) && shown.len() == ips@.len()
            &&& 0 <= i < ips@.len() ==> dns::lookup_view(lookup)->Ok_0[i] == match ips@[i] {
                IpAddr::V4(octets) => IpView::V4(octets@),
                IpAddr::V6(octets) => IpView::V6(octets@),
            }
        },
        lookup matches Err(e) ==> dns::lookup_view(lookup) == Err::<Seq<IpView>, ErrorView>(
            ErrorView { kind: e.kind, message: e.message@ },
        ),
{
}

/// A name on the wire is its parts between the dots, each behind its length, empty ones left out, and
/// then a zero.
pub proof fn law_name_octets(parts: Seq<Seq<char>>)
    requires
        parts.len() > 0,
        without_dots(parts),
    ensures
        dns::wire_name(dns::labels(utf8::encode_utf8(dotted(parts)))) == part_octets(parts)
            + seq![0u8],
{
    let encode = |piece: Seq<char>| utf8::encode_utf8(piece);
    lemma_cut_at_dots(parts);
    dns_laws::law_pieces_by_character(dotted(parts));
    assert(dns::pieces(utf8::encode_utf8(dotted(parts))) == parts.map_values(encode));
    lemma_part_octets(parts);
    assert(dns::wire_name(dns::labels(utf8::encode_utf8(dotted(parts)))) =~= part_octets(parts)
        + seq![0u8]);
}

/// A name that stands anywhere in a message is skipped up to its last octet, whether it ends in a
/// zero or in a pointer; one that breaks off in its labels is reported as truncated.
pub proof fn law_written_name_skipped(before: Seq<u8>, name: WrittenName, rest: Seq<u8>, kept: int)
    requires
        sound_name(name),
    ensures
        dns::name_end(before + name_octets(name) + rest, before.len() as int) == NameEnd::Behind(
            (before.len() + name_octets(name).len()) as int,
        ),
        0 <= kept <= label_octets(name.labels).len() ==> dns::name_end(
            before + name_octets(name).take(kept),
            before.len() as int,
        ) is Truncated,
        dns::name_truncated() == (ErrorView {
            kind: ErrorKind::InvalidData,
            message: "dns name truncated"@,
        }),
{
    lemma_name_passed(before, name, rest);
    if 0 <= kept <= label_octets(name.labels).len() {
        lemma_cut_labels(before, name.labels, kept);
        assert(name_octets(name).take(kept) =~= label_octets(name.labels).take(kept));
    }
}

/// Each response code is reported as what it means, and by its number.
pub proof fn law_response_codes_reported(code: u16)
    ensures
        ({
            let named = |meaning: Seq<char>|
                meaning + " (rcode="@ + text::decimal(code as nat) + ")"@;
            dns::rcode_error_view(code) == match code {
                1 => ErrorView {
                    kind: ErrorKind::InvalidData,
                    message: named("dns format error"@),
                },
                2 => ErrorView { kind: ErrorKind::Other, message: named("dns server failure"@) },
                3 => ErrorView {
                    kind: ErrorKind::AddrNotAvailable,
                    message: named("dns name does not exist"@),
                },
                4 => ErrorView {
                    kind: ErrorKind::Unsupported,
                    message: named("dns not implemented"@),
                },
                5 => ErrorView {
                    kind: ErrorKind::PermissionDenied,
                    message: named("dns query refused"@),
                },
                _ => ErrorView { kind: ErrorKind::Other, message: named("dns unknown rcode"@) },
            }
        }),
{
}

/// A response that is cut inside its header, but has its counts, holds nothing if it announces
/// nothing, and is refused otherwise.
pub proof fn law_cut_header_read(msg: Seq<u8>, qtype: u16)
    requires
        8 <= msg.len() < 12,
        msg[0] == 0x12,
        msg[1] == 0x34,
        msg[3] % 16 == 0,
    ensures
        dns::answers(msg, qtype) == if msg[4] == 0 && msg[5] == 0 && msg[6] == 0 && msg[7] == 0 {
            Ok::<Seq<IpView>, ErrorView>(seq![])
        } else {
            Err::<Seq<IpView>, ErrorView>(
                ErrorView { kind: ErrorKind::InvalidData, message: "dns name truncated"@ },
            )
        },
{
    assert(dns::name_end(msg, 12) is Truncated);
}

/// Every response that can hold a header can be read.
pub proof fn law_whole_header_is_readable(msg: Seq<u8>)
    requires
        12 <= msg.len() <= isize::MAX,
    ensures
        dns::readable(msg),
{
}

} // verus!
