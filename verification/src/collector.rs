//! Putting together what the tests of DNS servers find out. Each server is tested in two parts, its
//! latency and its resolve quality, which come in in any order; once both are there, the server can
//! be scored.

use vstd::prelude::*;

use crate::error::Error;
use crate::ping::PingStat;
use crate::quality::QualityReport;
use crate::score;
use crate::score::{Encryption, Score};
use crate::servers::{ResultView, TestResult};
use crate::stats;
use crate::stats::Sample;
use crate::text;
use crate::time::Duration;

verus! {

/// The milliseconds beyond which a latency or a resolve quality counts as a timeout, and the server
/// gets no score.
pub const LATENCY_TIMEOUT_MS: u128 = 1000;

/// Whether there is a measurement, and it counts as a timeout.
pub open spec fn timed_out(v: Option<u128>) -> bool {
    v matches Some(x) && x > LATENCY_TIMEOUT_MS
}

/// Tells whether there is a measurement, and it counts as a timeout.
pub fn is_timeout(v: Option<u128>) -> (yes: bool)
    ensures
        yes == timed_out(v),
{
    match v {
        Some(x) => x > LATENCY_TIMEOUT_MS,
        None => false,
    }
}

// ---------------------------------------------------------------------------------------------
// From the outcome of a test to milliseconds
// ---------------------------------------------------------------------------------------------

/// The average latency of `samples`, in whole milliseconds; `None` if none of them succeeded.
pub open spec fn average_millis(samples: Seq<Sample>) -> Option<u128> {
    match stats::average(stats::latencies(samples)) {
        Some(d) => Some(d.nanos / 1_000_000),
        None => None,
    }
}

/// An average in whole milliseconds.
fn in_millis(avg: Option<Duration>) -> (millis: Option<u128>)
    ensures
        millis == (match avg {
            Some(d) => Some(d.nanos / 1_000_000),
            None => None,
        }),
{
    match avg {
        Some(d) => Some(d.as_millis()),
        None => None,
    }
}

/// The latency of a server whose pings came to `outcome`: their average in whole milliseconds;
/// `None` if none succeeded, or if there were none because something could not be resolved.
pub fn ping_latency(outcome: &Result<PingStat, Error>) -> (latency: Option<u128>)
    requires
        outcome matches Ok(stat) ==> stats::summable(stats::latencies(stat@)),
    ensures
        latency == (match outcome {
            Ok(stat) => average_millis(stat@),
            Err(_) => None,
        }),
{
    match outcome {
        Ok(stat) => in_millis(stat.avg_latency()),
        Err(_) => None,
    }
}

/// The resolve quality of a server whose check came to `outcome`: the average of its pings in whole
/// milliseconds; `None` if none succeeded, or if there were none because the proxy could not be
/// resolved.
pub fn check_quality(outcome: &Result<QualityReport, Error>) -> (quality: Option<u128>)
    requires
        outcome matches Ok(report) ==> stats::summable(stats::latencies(report@.outcomes())),
    ensures
        quality == (match outcome {
            Ok(report) => average_millis(report@.outcomes()),
            Err(_) => None,
        }),
{
    match outcome {
        Ok(report) => in_millis(report.avg_latency()),
        Err(_) => None,
    }
}

// ---------------------------------------------------------------------------------------------
// Tasks and their results
// ---------------------------------------------------------------------------------------------

/// A server to be tested.
#[derive(Debug)]
pub struct Task {
    pub address: String,
    pub encryption: Encryption,
    /// The recommendation, in percent.
    pub recommendation: u8,
    pub doh: Option<String>,
}

/// A server to be tested, as a mathematical value.
pub struct TaskView {
    pub address: Seq<char>,
    pub encryption: Encryption,
    pub recommendation: u8,
    pub doh: Option<Seq<char>>,
}

impl View for Task {
    type V = TaskView;

    open spec fn view(&self) -> TaskView {
        TaskView {
            address: self.address@,
            encryption: self.encryption,
            recommendation: self.recommendation,
            doh: text::opt_chars(self.doh),
        }
    }
}

/// The mathematical values of tasks.
pub open spec fn task_views(tasks: Seq<Task>) -> Seq<TaskView> {
    tasks.map_values(|t: Task| t@)
}

/// What one part of the test of a server came to.
#[derive(Debug)]
pub enum SubResult {
    /// Its latency in milliseconds, if it could be measured.
    Ping { address: String, latency: Option<u128> },
    /// Its resolve quality in milliseconds, if it could be measured.
    Resolve { address: String, quality: Option<u128> },
}

/// What one part of the test of a server came to, as a mathematical value.
pub enum SubResultView {
    Ping { address: Seq<char>, latency: Option<u128> },
    Resolve { address: Seq<char>, quality: Option<u128> },
}

impl View for SubResult {
    type V = SubResultView;

    open spec fn view(&self) -> SubResultView {
        match self {
            SubResult::Ping { address, latency } => SubResultView::Ping {
                address: address@,
                latency: *latency,
            },
            SubResult::Resolve { address, quality } => SubResultView::Resolve {
                address: address@,
                quality: *quality,
            },
        }
    }
}

impl SubResultView {
    /// The address of the server.
    pub open spec fn address(self) -> Seq<char> {
        match self {
            SubResultView::Ping { address, .. } => address,
            SubResultView::Resolve { address, .. } => address,
        }
    }
}

impl SubResult {
    /// The address of the server.
    pub fn address(&self) -> (address: &str)
        ensures
            address@ == self@.address(),
    {
        match self {
            SubResult::Ping { address, .. } => address.as_str(),
            SubResult::Resolve { address, .. } => address.as_str(),
        }
    }
}

// ---------------------------------------------------------------------------------------------
// The collector
// ---------------------------------------------------------------------------------------------

/// What is known so far of the server at an address.
#[derive(Debug)]
struct Partial {
    address: String,
    encryption: Encryption,
    recommendation: u8,
    dns_latency: Option<u128>,
    resolve_quality: Option<u128>,
    sent: bool,
}

/// What is known so far of a server. `sent` tells whether it has been reported.
pub struct PartialView {
    pub encryption: Encryption,
    pub recommendation: u8,
    pub dns_latency: Option<u128>,
    pub resolve_quality: Option<u128>,
    pub sent: bool,
}

impl Partial {
    spec fn known(self) -> PartialView {
        PartialView {
            encryption: self.encryption,
            recommendation: self.recommendation,
            dns_latency: self.dns_latency,
            resolve_quality: self.resolve_quality,
            sent: self.sent,
        }
    }
}

/// What the list `partials` holds for each address: of several for one address the last counts.
spec fn by_address(partials: Seq<Partial>) -> Map<Seq<char>, PartialView>
    decreases partials.len(),
{
    if partials.len() == 0 {
        Map::empty()
    } else {
        by_address(partials.drop_last()).insert(partials.last().address@, partials.last().known())
    }
}

/// What is known so far of each server under test.
#[derive(Debug)]
pub struct Collector {
    partials: Vec<Partial>,
}

impl View for Collector {
    type V = Map<Seq<char>, PartialView>;

    closed spec fn view(&self) -> Map<Seq<char>, PartialView> {
        by_address(self.partials@)
    }
}

/// What is known of servers of which nothing has been found out. Of several tasks for one address
/// the last counts.
pub open spec fn nothing_known(tasks: Seq<TaskView>) -> Map<Seq<char>, PartialView>
    decreases tasks.len(),
{
    if tasks.len() == 0 {
        Map::empty()
    } else {
        nothing_known(tasks.drop_last()).insert(
            tasks.last().address,
            PartialView {
                encryption: tasks.last().encryption,
                recommendation: tasks.last().recommendation,
                dns_latency: None,
                resolve_quality: None,
                sent: false,
            },
        )
    }
}

impl PartialView {
    /// What is known once `result` has come in.
    pub open spec fn with(self, result: SubResultView) -> PartialView {
        match result {
            SubResultView::Ping { latency, .. } => PartialView { dns_latency: latency, ..self },
            SubResultView::Resolve { quality, .. } => PartialView {
                resolve_quality: quality,
                ..self
            },
        }
    }

    /// Whether the server is to be reported: both measurements are there, and it has not been.
    pub open spec fn due(self) -> bool {
        !self.sent && self.dns_latency is Some && self.resolve_quality is Some
    }
}

/// What is to be reported of a server of which `latency` and `quality` are known: both, and its
/// score, unless one of them counts as a timeout.
pub open spec fn result_of(
    address: Seq<char>,
    encryption: Encryption,
    recommendation: u8,
    latency: u128,
    quality: u128,
) -> ResultView {
    ResultView {
        address,
        dns_latency: Some(latency),
        resolve_quality: Some(quality),
        score: if timed_out(Some(latency)) || timed_out(Some(quality)) {
            None
        } else {
            Some(
                Score {
                    latency_halves: score::latency_term(latency) as u8,
                    quality_thirds: score::quality_term(quality) as u8,
                    encryption_quarters: score::encryption_quarters(encryption) as u8,
                    recommendation_percent: recommendation,
                },
            )
        },
    }
}

/// What is known of the servers once `result` has come in, and what is to be reported then. A
/// result for an address that is not under test changes nothing.
pub open spec fn taken_in(known: Map<Seq<char>, PartialView>, result: SubResultView) -> (
    Map<Seq<char>, PartialView>,
    Option<ResultView>,
) {
    let address = result.address();
    if !known.contains_key(address) {
        (known, None)
    } else {
        let now = known[address].with(result);
        if now.due() {
            (
                known.insert(address, PartialView { sent: true, ..now }),
                Some(
                    result_of(
                        address,
                        now.encryption,
                        now.recommendation,
                        now.dns_latency->0,
                        now.resolve_quality->0,
                    ),
                ),
            )
        } else {
            (known.insert(address, now), None)
        }
    }
}

/// Replacing what counts for an address.
proof fn lemma_by_address_update(partials: Seq<Partial>, at: int, new: Partial)
    requires
        0 <= at < partials.len(),
        new.address@ == partials[at].address@,
        forall|i: int|
            at < i < partials.len() ==> (#[trigger] partials[i]).address@ != new.address@,
    ensures
        by_address(partials.update(at, new)) == by_address(partials).insert(
            new.address@,
            new.known(),
        ),
        by_address(partials).contains_key(new.address@),
        by_address(partials)[new.address@] == partials[at].known(),
    decreases partials.len(),
{
    let updated = partials.update(at, new);
    if at == partials.len() - 1 {
        assert(updated.drop_last() =~= partials.drop_last());
        assert(by_address(updated) =~= by_address(partials).insert(new.address@, new.known()));
    } else {
        let front = partials.drop_last();
        assert(updated.drop_last() =~= front.update(at, new));
        assert(updated.last() == partials.last());
        lemma_by_address_update(front, at, new);
        assert(partials[partials.len() - 1].address@ != new.address@);
        assert(by_address(updated) =~= by_address(partials).insert(new.address@, new.known()));
    }
}

/// An address that is not in the list has nothing known of it.
proof fn lemma_by_address_absent(partials: Seq<Partial>, address: Seq<char>)
    requires
        forall|i: int| 0 <= i < partials.len() ==> (#[trigger] partials[i]).address@ != address,
    ensures
        !by_address(partials).contains_key(address),
    decreases partials.len(),
{
    if partials.len() > 0 {
        lemma_by_address_absent(partials.drop_last(), address);
    }
}

impl Collector {
    /// A collector for these servers, of which nothing has been found out.
    pub fn new(tasks: &Vec<Task>) -> (collector: Collector)
        ensures
            collector@ == nothing_known(task_views(tasks@)),
    {
        let mut partials: Vec<Partial> = Vec::new();
        let mut i: usize = 0;
        assert(task_views(tasks@.take(0)) =~= seq![]);
        while i < tasks.len()
            invariant
                i <= tasks@.len(),
                by_address(partials@) == nothing_known(task_views(tasks@.take(i as int))),
            decreases tasks@.len() - i,
        {
            let ghost before = partials@;
            partials.push(
                Partial {
                    address: tasks[i].address.clone(),
                    encryption: tasks[i].encryption,
                    recommendation: tasks[i].recommendation,
                    dns_latency: None,
                    resolve_quality: None,
                    sent: false,
                },
            );
            assert(partials@.drop_last() =~= before);
            assert(task_views(tasks@.take(i + 1)).drop_last() =~= task_views(
                tasks@.take(i as int),
            ));
            i += 1;
        }
        assert(tasks@.take(i as int) =~= tasks@);
        Collector { partials }
    }

    /// Takes in what one part of a test came to, and tells what is to be reported now, if anything.
    pub fn take_in(&mut self, result: &SubResult) -> (report: Option<TestResult>)
        ensures
            (final(self)@, match report {
                Some(r) => Some(r@),
                None => None,
            }) == taken_in(old(self)@, result@),
    {
        let mut end: usize = self.partials.len();
        while end > 0 && !text::same(&self.partials[end - 1].address, result.address())
            invariant
                end <= self.partials@.len(),
                self.partials@ == old(self).partials@,
                forall|i: int|
                    end <= i < self.partials@.len() ==> (#[trigger] self.partials@[i]).address@
                        != result@.address(),
            decreases end,
        {
            end -= 1;
        }
        if end == 0 {
            proof {
                lemma_by_address_absent(self.partials@, result@.address());
            }
            return None;
        }
        let at: usize = end - 1;
        let ghost before = self.partials@;
        match result {
            SubResult::Ping { latency, .. } => {
                self.partials[at].dns_latency = *latency;
            },
            SubResult::Resolve { quality, .. } => {
                self.partials[at].resolve_quality = *quality;
            },
        }
        let mut report: Option<TestResult> = None;
        if !self.partials[at].sent {
            if let Some(latency) = self.partials[at].dns_latency {
                if let Some(quality) = self.partials[at].resolve_quality {
                    let score: Option<Score> = if is_timeout(Some(latency)) || is_timeout(
                        Some(quality),
                    ) {
                        None
                    } else {
                        Some(
                            score::compute_score(
                                latency,
                                quality,
                                self.partials[at].encryption,
                                self.partials[at].recommendation,
                            ),
                        )
                    };
                    report = Some(
                        TestResult {
                            address: result.address().to_owned(),
                            dns_latency: Some(latency),
                            resolve_quality: Some(quality),
                            score,
                        },
                    );
                    self.partials[at].sent = true;
                }
            }
        }
        proof {
            let new = self.partials@[at as int];
            assert(self.partials@ =~= before.update(at as int, new));
            lemma_by_address_update(before, at as int, new);
        }
        report
    }
}

// ---------------------------------------------------------------------------------------------
// Laws
// ---------------------------------------------------------------------------------------------

/// What is known of the servers once all of `results` have come in.
pub open spec fn known_after(
    known: Map<Seq<char>, PartialView>,
    results: Seq<SubResultView>,
) -> Map<Seq<char>, PartialView>
    decreases results.len(),
{
    if results.len() == 0 {
        known
    } else {
        taken_in(known_after(known, results.drop_last()), results.last()).0
    }
}

/// All that is reported as `results` come in.
pub open spec fn reports(
    known: Map<Seq<char>, PartialView>,
    results: Seq<SubResultView>,
) -> Seq<ResultView>
    decreases results.len(),
{
    if results.len() == 0 {
        seq![]
    } else {
        let before = reports(known, results.drop_last());
        match taken_in(known_after(known, results.drop_last()), results.last()).1 {
            Some(report) => before.push(report),
            None => before,
        }
    }
}

/// How often the server at `address` is reported as `results` come in.
pub open spec fn times_reported(
    known: Map<Seq<char>, PartialView>,
    results: Seq<SubResultView>,
    address: Seq<char>,
) -> nat {
    reports(known, results).filter(|r: ResultView| r.address == address).len()
}

/// A server is reported once if it has been sent at the end and had not been before.
proof fn lemma_times_reported(
    known: Map<Seq<char>, PartialView>,
    results: Seq<SubResultView>,
    address: Seq<char>,
)
    ensures
        known_after(known, results).dom() == known.dom(),
        times_reported(known, results, address) == (if known.contains_key(address)
            && !known[address].sent && known_after(known, results)[address].sent {
            1nat
        } else {
            0nat
        }),
        known.contains_key(address) && known[address].sent ==> known_after(
            known,
            results,
        )[address].sent,
    decreases results.len(),
{
    reveal(Seq::filter);
    if results.len() > 0 {
        let front = results.drop_last();
        lemma_times_reported(known, front, address);
        let before = reports(known, front);
        assert(known_after(known, results).dom() =~= known.dom());
        if let Some(report) = taken_in(known_after(known, front), results.last()).1 {
            assert(before.push(report).drop_last() =~= before);
        }
    }
}

/// However the results come in, no server is reported more than once.
pub proof fn law_reported_at_most_once(
    known: Map<Seq<char>, PartialView>,
    results: Seq<SubResultView>,
    address: Seq<char>,
)
    ensures
        times_reported(known, results, address) <= 1,
{
    lemma_times_reported(known, results, address);
}

/// Of a server of which nothing is known, the two parts of its test make up the same report in
/// either order, and it comes with the later of the two.
pub proof fn law_parts_in_any_order(
    known: Map<Seq<char>, PartialView>,
    address: Seq<char>,
    latency: u128,
    quality: u128,
)
    requires
        known.contains_key(address),
        !known[address].sent,
        known[address].dns_latency is None,
        known[address].resolve_quality is None,
    ensures
        ({
            let ping = SubResultView::Ping { address, latency: Some(latency) };
            let resolve = SubResultView::Resolve { address, quality: Some(quality) };
            let report = result_of(
                address,
                known[address].encryption,
                known[address].recommendation,
                latency,
                quality,
            );
            &&& taken_in(known, ping).1 is None
            &&& taken_in(known, resolve).1 is None
            &&& taken_in(taken_in(known, ping).0, resolve).1 == Some(report)
            &&& taken_in(taken_in(known, resolve).0, ping).1 == Some(report)
            &&& taken_in(taken_in(known, ping).0, resolve).0 == taken_in(
                taken_in(known, resolve).0,
                ping,
            ).0
        }),
{
    let ping = SubResultView::Ping { address, latency: Some(latency) };
    let resolve = SubResultView::Resolve { address, quality: Some(quality) };
    assert(taken_in(taken_in(known, ping).0, resolve).0 =~= taken_in(
        taken_in(known, resolve).0,
        ping,
    ).0);
}

/// Whether none of `results` brings a latency of the server at `address`.
pub open spec fn no_latency(results: Seq<SubResultView>, address: Seq<char>) -> bool {
    forall|i: int|
        0 <= i < results.len() ==> !(#[trigger] results[i] matches SubResultView::Ping {
            address: a,
            latency,
        } && a == address && latency is Some)
}

/// Whether none of `results` brings a resolve quality of the server at `address`.
pub open spec fn no_quality(results: Seq<SubResultView>, address: Seq<char>) -> bool {
    forall|i: int|
        0 <= i < results.len() ==> !(#[trigger] results[i] matches SubResultView::Resolve {
            address: a,
            quality,
        } && a == address && quality is Some)
}

/// A server whose latency cannot be measured, or whose resolve quality cannot, is never reported.
pub proof fn law_unmeasured_not_reported(
    known: Map<Seq<char>, PartialView>,
    results: Seq<SubResultView>,
    address: Seq<char>,
)
    requires
        known.contains_key(address),
        (known[address].dns_latency is None && no_latency(results, address)) || (
        known[address].resolve_quality is None && no_quality(results, address)),
    ensures
        times_reported(known, results, address) == 0,
{
    lemma_unmeasured(known, results, address);
    lemma_times_reported(known, results, address);
}

/// What cannot be measured stays unknown, and nothing is sent.
proof fn lemma_unmeasured(
    known: Map<Seq<char>, PartialView>,
    results: Seq<SubResultView>,
    address: Seq<char>,
)
    requires
        known.contains_key(address),
        (known[address].dns_latency is None && no_latency(results, address)) || (
        known[address].resolve_quality is None && no_quality(results, address)),
    ensures
        known_after(known, results).contains_key(address),
        known_after(known, results)[address].sent == known[address].sent,
        known[address].dns_latency is None && no_latency(results, address) ==> known_after(
            known,
            results,
        )[address].dns_latency is None,
        known[address].resolve_quality is None && no_quality(results, address) ==> known_after(
            known,
            results,
        )[address].resolve_quality is None,
    decreases results.len(),
{
    if results.len() > 0 {
        let front = results.drop_last();
        if no_latency(results, address) {
            assert forall|i: int| 0 <= i < front.len() implies !(
            #[trigger] front[i] matches SubResultView::Ping { address: a, latency } && a == address
                && latency is Some) by {
                assert(front[i] == results[i]);
            }
        }
        if no_quality(results, address) {
            assert forall|i: int| 0 <= i < front.len() implies !(
            #[trigger] front[i] matches SubResultView::Resolve { address: a, quality } && a
                == address && quality is Some) by {
                assert(front[i] == results[i]);
            }
        }
        lemma_unmeasured(known, front, address);
        assert(results.last() == results[results.len() - 1]);
    }
}

/// A server that is reported gets a score exactly if neither measurement counts as a timeout, and
/// the score is that of its measurements.
pub proof fn law_scored_iff_in_time(
    address: Seq<char>,
    encryption: Encryption,
    recommendation: u8,
    latency: u128,
    quality: u128,
)
    ensures
        ({
            let score = result_of(
                address,
                encryption,
                recommendation,
                latency,
                quality,
            ).score;
            &&& score is Some <==> latency <= LATENCY_TIMEOUT_MS && quality <= LATENCY_TIMEOUT_MS
            &&& score is Some ==> score->0.value() == score::score_value(
                latency,
                quality,
                encryption,
                recommendation,
            )
        }),
{
}

} // verus!
