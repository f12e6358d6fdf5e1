//! What holds of the list of servers: what is there from the start, what results leave behind, and
//! in which order a ranking puts it.

use vstd::prelude::*;

use crate::score::{Encryption, Score};
use crate::servers;
use crate::servers::{DnsEntry, EntryView, ResultView, TestResult};

verus! {

/// A server of which nothing has been measured.
pub open spec fn unmeasured(
    address: Seq<char>,
    encryption: Encryption,
    recommendation: u8,
    doh: Option<Seq<char>>,
) -> EntryView {
    EntryView {
        address,
        encryption,
        recommendation,
        doh,
        dns_latency: None,
        resolve_quality: None,
        score: None,
    }
}

/// A new server has what it was given, and nothing has been measured of it.
pub proof fn law_new_server_unmeasured(
    address: Seq<char>,
    encryption: Encryption,
    recommendation: u8,
    doh: Option<Seq<char>>,
)
    ensures
        servers::untested(address, encryption, recommendation, doh) == unmeasured(
            address,
            encryption,
            recommendation,
            doh,
        ),
{
}

/// The servers that are there from the start.
pub proof fn law_servers_at_the_start()
    ensures
        servers::initial_entries() == seq![
            unmeasured(
                "223.5.5.5"@,
                Encryption::Full,
                80,
                Some("https://dns.alidns.com/dns-query"@),
            ),
            unmeasured("119.29.29.29"@, Encryption::Full, 95, Some("https://doh.pub/dns-query"@)),
            unmeasured("114.114.114.114"@, Encryption::Plain, 100, None),
            unmeasured(
                "1.1.1.1"@,
                Encryption::Full,
                100,
                Some("https://cloudflare-dns.com/dns-query"@),
            ),
            unmeasured("8.8.8.8"@, Encryption::Full, 100, Some("https://dns.google/dns-query"@)),
            unmeasured("9.9.9.9"@, Encryption::Full, 100, Some("https://dns.quad9.net/dns-query"@)),
        ],
{
}

/// Servers and results are shown with everything that is in them.
pub proof fn law_servers_shown_whole(
    entries: Seq<DnsEntry>,
    i: int,
    results: Seq<TestResult>,
    j: int,
)
    ensures
        servers::entry_views(entries).len() == entries.len(),
        0 <= i < entries.len() ==> {
            let shown = servers::entry_views(entries)[i];
            &&& shown == entries[i]@
            &&& shown.address == entries[i].address@
            &&& shown.encryption == entries[i].encryption
            &&& shown.recommendation == entries[i].recommendation
            &&& shown.doh is Some <==> entries[i].doh is Some
            &&& entries[i].doh matches Some(url) ==> shown.doh == Some(url@)
            &&& shown.dns_latency == entries[i].dns_latency
            &&& shown.resolve_quality == entries[i].resolve_quality
            &&& shown.score == entries[i].score
        },
        servers::result_views(results).len() == results.len(),
        0 <= j < results.len() ==> servers::result_views(results)[j] == (ResultView {
            address: results[j].address@,
            dns_latency: results[j].dns_latency,
            resolve_quality: results[j].resolve_quality,
            score: results[j].score,
        }),
{
}

// ---------------------------------------------------------------------------------------------
// Test results
// ---------------------------------------------------------------------------------------------

/// Whether `entries[i]` is the first server at its address.
pub open spec fn first_at_address(entries: Seq<EntryView>, i: int) -> bool {
    forall|j: int| 0 <= j < i ==> (#[trigger] entries[j]).address != entries[i].address
}

/// A server once `results` are filled in: of those for its address the last counts, for the latency,
/// the quality and the score alike; everything else stays.
pub open spec fn updated(entry: EntryView, results: Seq<ResultView>) -> EntryView {
    results.fold_left(
        entry,
        |e: EntryView, r: ResultView|
            if r.address == entry.address {
                EntryView {
                    address: entry.address,
                    encryption: entry.encryption,
                    recommendation: entry.recommendation,
                    doh: entry.doh,
                    dns_latency: r.dns_latency,
                    resolve_quality: r.resolve_quality,
                    score: r.score,
                }
            } else {
                e
            },
    )
}

/// Filling in results leaves every server in its place. The first one at an address gets what the
/// last result for the address says; others at the same address, and those without a result, stay as
/// they are.
pub proof fn law_last_result_counts(entries: Seq<EntryView>, results: Seq<ResultView>, i: int)
    requires
        0 <= i < entries.len(),
    ensures
        servers::all_filled_in(entries, results).len() == entries.len(),
        servers::all_filled_in(entries, results)[i] == if first_at_address(entries, i) {
            updated(entries[i], results)
        } else {
            entries[i]
        },
        servers::all_filled_in(entries, results)[i].address == entries[i].address,
    decreases results.len(),
{
    reveal(Seq::fold_left);
    if results.len() > 0 {
        let front = results.drop_last();
        let last = results.last();
        let before = servers::all_filled_in(entries, front);
        law_last_result_counts(entries, front, i);
        servers::law_filled_in_elsewhere_unchanged(before, last, i);
        assert forall|j: int| 0 <= j < entries.len() implies (#[trigger] before[j]).address
            == entries[j].address by {
            law_last_result_counts(entries, front, j);
        }
        lemma_kept_by_update(entries[i], front);
        if entries[i].address == last.address {
            if first_at_address(entries, i) {
                assert forall|j: int| 0 <= j < i implies (#[trigger] before[j]).address
                    != last.address by {
                    assert(entries[j].address != entries[i].address);
                }
            } else {
                let j = choose|j: int|
                    0 <= j < i && (#[trigger] entries[j]).address == entries[i].address;
                assert(before[j].address == last.address);
            }
        }
    }
}

/// Results change nothing but what tests find out.
proof fn lemma_kept_by_update(entry: EntryView, results: Seq<ResultView>)
    ensures
        updated(entry, results).address == entry.address,
        updated(entry, results).encryption == entry.encryption,
        updated(entry, results).recommendation == entry.recommendation,
        updated(entry, results).doh == entry.doh,
    decreases results.len(),
{
    reveal(Seq::fold_left);
    if results.len() > 0 {
        lemma_kept_by_update(entry, results.drop_last());
        let f = |e: EntryView, r: ResultView|
            if r.address == entry.address {
                EntryView {
                    address: entry.address,
                    encryption: entry.encryption,
                    recommendation: entry.recommendation,
                    doh: entry.doh,
                    dns_latency: r.dns_latency,
                    resolve_quality: r.resolve_quality,
                    score: r.score,
                }
            } else {
                e
            };
        assert(updated(entry, results) == f(
            updated(entry, results.drop_last()),
            results.last(),
        ));
    }
}

// ---------------------------------------------------------------------------------------------
// Ranking
// ---------------------------------------------------------------------------------------------

/// What a score comes to: the product of its parts.
pub open spec fn worth(score: Score) -> nat {
    score.latency_halves as nat * score.quality_thirds as nat * score.encryption_quarters as nat
        * score.recommendation_percent as nat
}

/// What the score of a server comes to, if it has one.
pub open spec fn entry_worth(entry: EntryView) -> Option<nat> {
    match entry.score {
        Some(score) => Some(worth(score)),
        None => None,
    }
}

/// In a ranking a server with a higher score stands before one with a lower score, and one with a
/// score before one without, whatever the order was before.
pub proof fn law_ranking_orders_by_worth(
    before: Seq<EntryView>,
    after: Seq<EntryView>,
    i: int,
    j: int,
)
    requires
        servers::is_ranking(before, after),
        0 <= i < j < after.len(),
    ensures
        match (after[i].score, after[j].score) {
            (Some(a), Some(b)) => worth(a) >= worth(b),
            (Some(_), None) => true,
            (None, Some(_)) => false,
            (None, None) => true,
        },
{
    assert(!servers::ranks_before(after[j].rank(), after[i].rank()));
}

/// In a ranking the servers whose scores come to the same, or that have none, are the same ones as
/// before, in the same order.
pub proof fn law_ranking_keeps_order_of_equals(
    before: Seq<EntryView>,
    after: Seq<EntryView>,
    value: Option<nat>,
)
    requires
        servers::is_ranking(before, after),
    ensures
        after.filter(|e: EntryView| entry_worth(e) == value) == before.filter(
            |e: EntryView| entry_worth(e) == value,
        ),
{
    let by_worth = |e: EntryView| entry_worth(e) == value;
    let by_rank = |e: EntryView| e.rank() == value;
    assert(by_worth =~= by_rank);
    assert(servers::with_rank(after, value) == servers::with_rank(before, value));
}

} // verus!
