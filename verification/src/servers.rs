//! The list of DNS servers: what is known of each, the servers that are there from the start, and
//! the ranking by score.

use vstd::prelude::*;

use crate::score::{Encryption, Score};
use crate::text;

verus! {

/// Where AliDNS answers queries over HTTPS.
pub const DOH_ALIDNS: &'static str = "https://dns.alidns.com/dns-query";

/// Where DNSPod answers queries over HTTPS.
pub const DOH_DNSPOD: &'static str = "https://doh.pub/dns-query";

/// Where Cloudflare answers queries over HTTPS.
pub const DOH_CLOUDFLARE: &'static str = "https://cloudflare-dns.com/dns-query";

/// Where Google answers queries over HTTPS.
pub const DOH_GOOGLE: &'static str = "https://dns.google/dns-query";

/// Where Quad9 answers queries over HTTPS.
pub const DOH_QUAD9: &'static str = "https://dns.quad9.net/dns-query";

/// A DNS server, and what the last test of it came to.
#[derive(Debug)]
pub struct DnsEntry {
    pub address: String,
    pub encryption: Encryption,
    /// The recommendation, in percent.
    pub recommendation: u8,
    /// The URL to ask over HTTPS; without one the server is asked in plain DNS over TCP.
    pub doh: Option<String>,
    /// The latency in milliseconds, if it has been measured.
    pub dns_latency: Option<u128>,
    /// The resolve quality in milliseconds, if it has been measured.
    pub resolve_quality: Option<u128>,
    /// The score, if there is one.
    pub score: Option<Score>,
}

/// A DNS server as a mathematical value.
pub struct EntryView {
    pub address: Seq<char>,
    pub encryption: Encryption,
    pub recommendation: u8,
    pub doh: Option<Seq<char>>,
    pub dns_latency: Option<u128>,
    pub resolve_quality: Option<u128>,
    pub score: Option<Score>,
}

impl View for DnsEntry {
    type V = EntryView;

    open spec fn view(&self) -> EntryView {
        EntryView {
            address: self.address@,
            encryption: self.encryption,
            recommendation: self.recommendation,
            doh: text::opt_chars(self.doh),
            dns_latency: self.dns_latency,
            resolve_quality: self.resolve_quality,
            score: self.score,
        }
    }
}

/// The mathematical values of servers.
pub open spec fn entry_views(entries: Seq<DnsEntry>) -> Seq<EntryView> {
    entries.map_values(|e: DnsEntry| e@)
}

/// A server that has not been tested.
pub open spec fn untested(
    address: Seq<char>,
    encryption: Encryption,
    recommendation: u8,
    doh: Option<Seq<char>>,
) -> EntryView {
    EntryView {
        address,
        encryption,
        recommendation,
        doh,
        dns_latency: None,
        resolve_quality: None,
        score: None,
    }
}

impl DnsEntry {
    /// A server that has not been tested.
    pub fn new(address: &str, encryption: Encryption, recommendation: u8, doh: Option<&str>) -> (entry:
        DnsEntry)
        ensures
            entry@ == untested(address@, encryption, recommendation, text::opt_str_chars(doh)),
    {
        DnsEntry {
            address: address.to_owned(),
            encryption,
            recommendation,
            doh: text::opt_owned(doh),
            dns_latency: None,
            resolve_quality: None,
            score: None,
        }
    }

    /// Tells whether this is the server at `address`.
    pub fn matches(&self, address: &str) -> (yes: bool)
        ensures
            yes == (self@.address == address@),
    {
        text::same(&self.address, address)
    }
}

/// The servers that are there from the start. The one at `114.114.114.114` does not answer over
/// HTTPS.
pub open spec fn initial_entries() -> Seq<EntryView> {
    seq![
        untested("223.5.5.5"@, Encryption::Full, 80, Some(DOH_ALIDNS@)),
        untested("119.29.29.29"@, Encryption::Full, 95, Some(DOH_DNSPOD@)),
        untested("114.114.114.114"@, Encryption::Plain, 100, None),
        untested("1.1.1.1"@, Encryption::Full, 100, Some(DOH_CLOUDFLARE@)),
        untested("8.8.8.8"@, Encryption::Full, 100, Some(DOH_GOOGLE@)),
        untested("9.9.9.9"@, Encryption::Full, 100, Some(DOH_QUAD9@)),
    ]
}

/// The servers that are there from the start.
pub fn default_entries() -> (entries: Vec<DnsEntry>)
    ensures
        entry_views(entries@) == initial_entries(),
{
    let entries: Vec<DnsEntry> = vec![
        DnsEntry::new("223.5.5.5", Encryption::Full, 80, Some(DOH_ALIDNS)),
        DnsEntry::new("119.29.29.29", Encryption::Full, 95, Some(DOH_DNSPOD)),
        DnsEntry::new("114.114.114.114", Encryption::Plain, 100, None),
        DnsEntry::new("1.1.1.1", Encryption::Full, 100, Some(DOH_CLOUDFLARE)),
        DnsEntry::new("8.8.8.8", Encryption::Full, 100, Some(DOH_GOOGLE)),
        DnsEntry::new("9.9.9.9", Encryption::Full, 100, Some(DOH_QUAD9)),
    ];
    assert(entry_views(entries@) =~= initial_entries());
    entries
}

// ---------------------------------------------------------------------------------------------
// Test results
// ---------------------------------------------------------------------------------------------

/// What the test of the server at an address came to.
#[derive(Debug)]
pub struct TestResult {
    pub address: String,
    pub dns_latency: Option<u128>,
    pub resolve_quality: Option<u128>,
    pub score: Option<Score>,
}

/// What the test of a server came to, as a mathematical value.
pub struct ResultView {
    pub address: Seq<char>,
    pub dns_latency: Option<u128>,
    pub resolve_quality: Option<u128>,
    pub score: Option<Score>,
}

impl View for TestResult {
    type V = ResultView;

    open spec fn view(&self) -> ResultView {
        ResultView {
            address: self.address@,
            dns_latency: self.dns_latency,
            resolve_quality: self.resolve_quality,
            score: self.score,
        }
    }
}

/// The mathematical values of test results.
pub open spec fn result_views(results: Seq<TestResult>) -> Seq<ResultView> {
    results.map_values(|r: TestResult| r@)
}

impl EntryView {
    /// The server with `result` filled in.
    pub open spec fn with_result(self, result: ResultView) -> EntryView {
        EntryView {
            dns_latency: result.dns_latency,
            resolve_quality: result.resolve_quality,
            score: result.score,
            ..self
        }
    }
}

/// The servers with `result` filled in for the first one at its address.
pub open spec fn filled_in(entries: Seq<EntryView>, result: ResultView) -> Seq<EntryView>
    decreases entries.len(),
{
    if entries.len() == 0 {
        entries
    } else if entries[0].address == result.address {
        entries.update(0, entries[0].with_result(result))
    } else {
        seq![entries[0]] + filled_in(entries.drop_first(), result)
    }
}

/// The servers with all of `results` filled in, one after the other.
pub open spec fn all_filled_in(entries: Seq<EntryView>, results: Seq<ResultView>) -> Seq<EntryView>
    decreases results.len(),
{
    if results.len() == 0 {
        entries
    } else {
        filled_in(all_filled_in(entries, results.drop_last()), results.last())
    }
}

/// The first server at the address is the one that is filled in.
proof fn lemma_filled_in_at(entries: Seq<EntryView>, result: ResultView, at: int)
    requires
        0 <= at <= entries.len(),
        forall|i: int| 0 <= i < at ==> (#[trigger] entries[i]).address != result.address,
        at < entries.len() ==> entries[at].address == result.address,
    ensures
        filled_in(entries, result) == (if at < entries.len() {
            entries.update(at, entries[at].with_result(result))
        } else {
            entries
        }),
    decreases at,
{
    if at > 0 {
        let rest = entries.drop_first();
        assert forall|i: int| 0 <= i < at - 1 implies (#[trigger] rest[i]).address
            != result.address by {
            assert(rest[i] == entries[i + 1]);
        }
        lemma_filled_in_at(rest, result, at - 1);
        assert(entries[0].address != result.address);
        assert(seq![entries[0]] + filled_in(rest, result) =~= filled_in(entries, result));
        if at < entries.len() {
            assert(seq![entries[0]] + rest.update(at - 1, rest[at - 1].with_result(result))
                =~= entries.update(at, entries[at].with_result(result)));
        } else {
            assert(seq![entries[0]] + rest =~= entries);
        }
    }
}

/// Fills `result` in for the first server at its address.
pub fn fill_in(entries: &mut Vec<DnsEntry>, result: &TestResult)
    ensures
        entry_views(final(entries)@) == filled_in(entry_views(old(entries)@), result@),
{
    let ghost before = entry_views(entries@);
    let mut at: usize = 0;
    while at < entries.len() && !entries[at].matches(result.address.as_str())
        invariant
            at <= entries@.len(),
            before == entry_views(entries@),
            forall|i: int| 0 <= i < at ==> (#[trigger] before[i]).address != result@.address,
        decreases entries@.len() - at,
    {
        at += 1;
    }
    proof {
        lemma_filled_in_at(before, result@, at as int);
    }
    if at < entries.len() {
        entries[at].dns_latency = result.dns_latency;
        entries[at].resolve_quality = result.resolve_quality;
        entries[at].score = result.score;
        assert(entry_views(entries@) =~= before.update(at as int, before[at as int].with_result(
            result@,
        )));
    }
}

// ---------------------------------------------------------------------------------------------
// Ranking
// ---------------------------------------------------------------------------------------------

impl EntryView {
    /// The value of the score, as a multiple of `1 / 2400`, if there is one.
    pub open spec fn rank(self) -> Option<nat> {
        match self.score {
            Some(score) => Some(score.value()),
            None => None,
        }
    }
}

/// Whether a server whose score has the value `a` belongs before one whose score has the value `b`:
/// a higher score comes first, and any score comes before none.
pub open spec fn ranks_before(a: Option<nat>, b: Option<nat>) -> bool {
    match (a, b) {
        (Some(x), Some(y)) => x > y,
        (Some(_), None) => true,
        (None, _) => false,
    }
}

/// Whether no server stands behind one that it belongs before.
pub open spec fn ranked(entries: Seq<EntryView>) -> bool {
    forall|i: int, j: int|
        0 <= i < j < entries.len() ==> !ranks_before(
            #[trigger] entries[j].rank(),
            #[trigger] entries[i].rank(),
        )
}

/// The servers whose score has the value `rank`, in order.
pub open spec fn with_rank(entries: Seq<EntryView>, rank: Option<nat>) -> Seq<EntryView> {
    entries.filter(|e: EntryView| e.rank() == rank)
}

/// Whether `after` is the ranking of `before`: the same servers, ranked by score, and those with
/// the same score, or with none, in the order in which they were.
pub open spec fn is_ranking(before: Seq<EntryView>, after: Seq<EntryView>) -> bool {
    &&& ranked(after)
    &&& forall|rank: Option<nat>| #[trigger]
        with_rank(after, rank) == with_rank(before, rank)
}

/// Tells whether the server `a` belongs before the server `b`.
fn belongs_before(a: &DnsEntry, b: &DnsEntry) -> (yes: bool)
    ensures
        yes == ranks_before(a@.rank(), b@.rank()),
{
    match (a.score, b.score) {
        (Some(x), Some(y)) => x.rank() > y.rank(),
        (Some(_), None) => true,
        (None, _) => false,
    }
}

/// One server in front of others.
proof fn lemma_with_rank_front(first: EntryView, rest: Seq<EntryView>, rank: Option<nat>)
    ensures
        with_rank(seq![first] + rest, rank) == (if first.rank() == rank {
            seq![first] + with_rank(rest, rank)
        } else {
            with_rank(rest, rank)
        }),
{
    let pred = |e: EntryView| e.rank() == rank;
    Seq::filter_distributes_over_add(seq![first], rest, pred);
    reveal_with_fuel(Seq::filter, 2);
    assert(seq![first].drop_last() =~= seq![]);
    assert(seq![first].filter(pred) =~= (if first.rank() == rank {
        seq![first]
    } else {
        seq![]
    }));
    assert(with_rank(seq![first] + rest, rank) =~= (if first.rank() == rank {
        seq![first] + with_rank(rest, rank)
    } else {
        with_rank(rest, rank)
    }));
}

/// Putting a server behind those that belong before it, and in front of the others, gives the
/// ranking of the servers with this one in front.
proof fn lemma_insert_ranks(
    before: Seq<EntryView>,
    after: Seq<EntryView>,
    entry: EntryView,
    at: int,
)
    requires
        is_ranking(before, after),
        0 <= at <= after.len(),
        forall|i: int| 0 <= i < at ==> ranks_before(#[trigger] after[i].rank(), entry.rank()),
        at < after.len() ==> !ranks_before(after[at].rank(), entry.rank()),
    ensures
        is_ranking(seq![entry] + before, after.insert(at, entry)),
{
    let longer = after.insert(at, entry);
    assert forall|i: int, j: int| 0 <= i < j < longer.len() implies !ranks_before(
        #[trigger] longer[j].rank(),
        #[trigger] longer[i].rank(),
    ) by {
        let a = if i < at {
            i
        } else {
            i - 1
        };
        let b = if j < at {
            j
        } else {
            j - 1
        };
        if i != at {
            assert(longer[i] == after[a]);
        }
        if j != at {
            assert(longer[j] == after[b]);
        }
        if i == at {
            // Nothing from `at` on belongs before the new server.
            assert(!ranks_before(after[at].rank(), entry.rank()));
            if b > at {
                assert(!ranks_before(after[b].rank(), after[at].rank()));
            }
        } else if j == at {
            assert(ranks_before(after[a].rank(), entry.rank()));
        } else {
            assert(!ranks_before(after[b].rank(), after[a].rank()));
        }
    }
    assert forall|rank: Option<nat>| #[trigger]
        with_rank(longer, rank) == with_rank(seq![entry] + before, rank) by {
        let pred = |e: EntryView| e.rank() == rank;
        let front = after.take(at);
        let back = after.skip(at);
        assert(after =~= front + back);
        assert(longer =~= front + (seq![entry] + back));
        Seq::filter_distributes_over_add(front, back, pred);
        Seq::filter_distributes_over_add(front, seq![entry] + back, pred);
        lemma_with_rank_front(entry, back, rank);
        lemma_with_rank_front(entry, before, rank);
        assert(with_rank(after, rank) == with_rank(before, rank));
        if entry.rank() == rank {
            assert forall|i: int| 0 <= i < front.len() implies !pred(#[trigger] front[i]) by {
                assert(front[i] == after[i]);
            }
            front.lemma_all_neg_filter_empty(pred);
            assert(front.filter(pred) =~= seq![]);
        }
        assert(with_rank(longer, rank) =~= with_rank(seq![entry] + before, rank));
    }
}

/// Ranks the servers by score. Those with the same score stay in order.
pub fn sort_entries_by_score(entries: &mut Vec<DnsEntry>)
    ensures
        is_ranking(entry_views(old(entries)@), entry_views(final(entries)@)),
{
    let mut rest: Vec<DnsEntry> = Vec::new();
    std::mem::swap(&mut rest, entries);
    let ghost all = entry_views(rest@);
    assert(entry_views(entries@) =~= all.skip(rest@.len() as int));
    assert(all.take(rest@.len() as int) =~= all);
    loop
        invariant
            rest@.len() <= all.len(),
            entry_views(rest@) == all.take(rest@.len() as int),
            is_ranking(all.skip(rest@.len() as int), entry_views(entries@)),
        ensures
            is_ranking(all, entry_views(entries@)),
        decreases rest@.len(),
    {
        let ghost left = rest@;
        match rest.pop() {
            None => {
                assert(all.skip(0) =~= all);
                break;
            },
            Some(entry) => {
                let ghost ranking = entry_views(entries@);
                let ghost done = all.skip(left.len() as int);
                let mut at: usize = 0;
                while at < entries.len() && belongs_before(&entries[at], &entry)
                    invariant
                        at <= entries@.len(),
                        ranking == entry_views(entries@),
                        forall|i: int|
                            0 <= i < at ==> ranks_before(#[trigger] ranking[i].rank(), entry@.rank()),
                    decreases entries@.len() - at,
                {
                    at += 1;
                }
                proof {
                    lemma_insert_ranks(done, ranking, entry@, at as int);
                    assert(entry@ == entry_views(left).last());
                    assert(entry_views(rest@) =~= all.take(rest@.len() as int));
                    assert(seq![entry@] + done =~= all.skip(rest@.len() as int));
                }
                entries.insert(at, entry);
                assert(entry_views(entries@) =~= ranking.insert(at as int, entry@));
            },
        }
    }
}

// ---------------------------------------------------------------------------------------------
// Laws
// ---------------------------------------------------------------------------------------------

/// The first of `entries` is the first of those with its score.
proof fn lemma_first_with_rank(entries: Seq<EntryView>)
    requires
        entries.len() > 0,
    ensures
        with_rank(entries, entries[0].rank()).len() > 0,
        with_rank(entries, entries[0].rank())[0] == entries[0],
{
    assert(entries =~= seq![entries[0]] + entries.drop_first());
    lemma_with_rank_front(entries[0], entries.drop_first(), entries[0].rank());
}

/// If there are servers with a score, the first of a ranking does not rank behind them.
proof fn lemma_first_is_best(entries: Seq<EntryView>, rank: Option<nat>)
    requires
        ranked(entries),
        with_rank(entries, rank).len() > 0,
    ensures
        entries.len() > 0,
        !ranks_before(rank, entries[0].rank()),
{
    let pred = |e: EntryView| e.rank() == rank;
    let found = with_rank(entries, rank);
    entries.lemma_filter_pred(pred, 0);
    assert(found.contains(found[0]));
    entries.lemma_filter_contains_rev(pred, found[0]);
    let k = choose|k: int| 0 <= k < entries.len() && entries[k] == found[0];
    if k > 0 {
        assert(!ranks_before(entries[k].rank(), entries[0].rank()));
    }
}

/// There is only one ranking of a list of servers.
pub proof fn law_ranking_is_unique(before: Seq<EntryView>, a: Seq<EntryView>, b: Seq<EntryView>)
    requires
        is_ranking(before, a),
        is_ranking(before, b),
    ensures
        a == b,
{
    assert forall|rank: Option<nat>| #[trigger] with_rank(a, rank) == with_rank(b, rank) by {
        assert(with_rank(a, rank) == with_rank(before, rank));
        assert(with_rank(b, rank) == with_rank(before, rank));
    }
    lemma_same_ranking(a, b);
}

/// Two rankings with the same servers of each score are the same.
proof fn lemma_same_ranking(a: Seq<EntryView>, b: Seq<EntryView>)
    requires
        ranked(a),
        ranked(b),
        forall|rank: Option<nat>| #[trigger] with_rank(a, rank) == with_rank(b, rank),
    ensures
        a == b,
    decreases a.len() + b.len(),
{
    if a.len() > 0 {
        lemma_first_with_rank(a);
        assert(with_rank(a, a[0].rank()) == with_rank(b, a[0].rank()));
        lemma_first_is_best(b, a[0].rank());
    }
    if b.len() > 0 {
        lemma_first_with_rank(b);
        assert(with_rank(a, b[0].rank()) == with_rank(b, b[0].rank()));
        lemma_first_is_best(a, b[0].rank());
        let x = a.drop_first();
        let y = b.drop_first();
        assert(a[0].rank() == b[0].rank());
        assert(a[0] == b[0]);
        assert forall|rank: Option<nat>| #[trigger] with_rank(x, rank) == with_rank(
            y,
            rank,
        ) by {
            assert(a =~= seq![a[0]] + x);
            assert(b =~= seq![b[0]] + y);
            lemma_with_rank_front(a[0], x, rank);
            lemma_with_rank_front(b[0], y, rank);
            assert(with_rank(a, rank) == with_rank(b, rank));
            if a[0].rank() == rank {
                assert((seq![a[0]] + with_rank(x, rank)).drop_first() =~= with_rank(x, rank));
                assert((seq![b[0]] + with_rank(y, rank)).drop_first() =~= with_rank(y, rank));
            }
        }
        assert forall|i: int, j: int| 0 <= i < j < x.len() implies !ranks_before(
            #[trigger] x[j].rank(),
            #[trigger] x[i].rank(),
        ) by {
            assert(x[i] == a[i + 1] && x[j] == a[j + 1]);
        }
        assert forall|i: int, j: int| 0 <= i < j < y.len() implies !ranks_before(
            #[trigger] y[j].rank(),
            #[trigger] y[i].rank(),
        ) by {
            assert(y[i] == b[i + 1] && y[j] == b[j + 1]);
        }
        lemma_same_ranking(x, y);
        assert(a =~= seq![a[0]] + x);
        assert(b =~= seq![b[0]] + y);
    } else {
        assert(a =~= b);
    }
}

/// A list that is ranked already stays as it is.
pub proof fn law_ranking_of_ranked(entries: Seq<EntryView>, after: Seq<EntryView>)
    requires
        ranked(entries),
        is_ranking(entries, after),
    ensures
        after == entries,
{
    law_ranking_is_unique(entries, after, entries);
}

/// A server occurs as often among those with its score as in the whole list.
proof fn lemma_count_with_rank(entries: Seq<EntryView>, entry: EntryView)
    ensures
        entries.to_multiset().count(entry) == with_rank(
            entries,
            entry.rank(),
        ).to_multiset().count(entry),
    decreases entries.len(),
{
    broadcast use vstd::seq_lib::group_to_multiset_ensures;

    let pred = |e: EntryView| e.rank() == entry.rank();
    reveal(Seq::filter);
    if entries.len() > 0 {
        let front = entries.drop_last();
        lemma_count_with_rank(front, entry);
        assert(entries =~= front.push(entries.last()));
        assert(entries.filter(pred) == (if pred(entries.last()) {
            front.filter(pred).push(entries.last())
        } else {
            front.filter(pred)
        }));
    }
}

/// A ranking loses no server and adds none.
pub proof fn law_ranking_keeps_servers(before: Seq<EntryView>, after: Seq<EntryView>)
    requires
        is_ranking(before, after),
    ensures
        after.to_multiset() == before.to_multiset(),
        after.len() == before.len(),
{
    broadcast use vstd::seq_lib::group_to_multiset_ensures;

    assert forall|entry: EntryView| #[trigger]
        after.to_multiset().count(entry) == before.to_multiset().count(entry) by {
        lemma_count_with_rank(before, entry);
        lemma_count_with_rank(after, entry);
        assert(with_rank(after, entry.rank()) == with_rank(before, entry.rank()));
    }
    assert(after.to_multiset() =~= before.to_multiset());
    assert(after.to_multiset().len() == before.to_multiset().len());
}

/// In a ranking, scores never rise from one server to a later one.
pub proof fn law_higher_scores_first(entries: Seq<EntryView>, i: int, j: int)
    requires
        ranked(entries),
        0 <= i < j < entries.len(),
        entries[i].score is Some,
        entries[j].score is Some,
    ensures
        entries[i].score->0.value() >= entries[j].score->0.value(),
{
    assert(!ranks_before(entries[j].rank(), entries[i].rank()));
}

/// In a ranking, every server with a score stands before every server without one.
pub proof fn law_scored_before_unscored(entries: Seq<EntryView>, i: int, j: int)
    requires
        ranked(entries),
        0 <= i < entries.len(),
        0 <= j < entries.len(),
        entries[i].score is Some,
        entries[j].score is None,
    ensures
        i < j,
{
    if j < i {
        assert(!ranks_before(entries[i].rank(), entries[j].rank()));
    }
}

/// Filling in a result changes no server but the first one at its address, and of that one only what
/// tests find out.
pub proof fn law_filled_in_elsewhere_unchanged(entries: Seq<EntryView>, result: ResultView, i: int)
    requires
        0 <= i < entries.len(),
    ensures
        filled_in(entries, result).len() == entries.len(),
        filled_in(entries, result)[i] == (if entries[i].address == result.address && forall|j: int|
            0 <= j < i ==> (#[trigger] entries[j]).address != result.address {
            entries[i].with_result(result)
        } else {
            entries[i]
        }),
    decreases entries.len(),
{
    if entries[0].address != result.address {
        let rest = entries.drop_first();
        if rest.len() > 0 {
            if i > 0 {
                law_filled_in_elsewhere_unchanged(rest, result, i - 1);
                if forall|j: int|
                    0 <= j < i - 1 ==> (#[trigger] rest[j]).address != result.address {
                    assert forall|j: int| 0 <= j < i implies (#[trigger] entries[j]).address
                        != result.address by {
                        if j > 0 {
                            assert(entries[j] == rest[j - 1]);
                        }
                    }
                } else {
                    let j = choose|j: int|
                        0 <= j < i - 1 && (#[trigger] rest[j]).address == result.address;
                    assert(entries[j + 1] == rest[j]);
                }
            } else {
                law_filled_in_elsewhere_unchanged(rest, result, 0);
            }
        }
    }
}

} // verus!
