//! What holds of the collector over everything that came in: when a server is reported, and as
//! what.

use vstd::prelude::*;

use crate::collector;
use crate::collector::{PartialView, SubResult, SubResultView, Task, TaskView};
use crate::score::{Encryption, Score};
use crate::servers::{ResultView, TestResult};
use crate::stats;
use crate::stats::Sample;
use crate::stats_laws;

verus! {

/// The average in milliseconds is the total time of all samples that succeeded, shared out evenly
/// among them, in whole milliseconds; without any there is none.
pub proof fn law_millis_share_out_the_total(samples: Seq<Sample>)
    ensures
        collector::average_millis(samples) is None <==> stats_laws::succeeded(samples) == 0,
        collector::average_millis(samples) matches Some(ms) ==> stats_laws::succeeded(samples) * (ms
            * 1_000_000) <= stats_laws::time_taken(samples) < stats_laws::succeeded(samples) * ((ms
            + 1) * 1_000_000),
{
    stats_laws::law_average_shares_out_the_total(samples);
    if let Some(avg) = stats::average(stats::latencies(samples)) {
        let n = stats_laws::succeeded(samples) as int;
        let total = stats_laws::time_taken(samples) as int;
        let nanos = avg.nanos as int;
        let ms = nanos / 1_000_000;
        assert(n * (ms * 1_000_000) <= total < n * ((ms + 1) * 1_000_000)) by (nonlinear_arith)
            requires
                n >= 0,
                ms * 1_000_000 <= nanos < (ms + 1) * 1_000_000,
                n * nanos <= total < n * (nanos + 1),
        ;
    }
}

/// A measurement counts as a timeout from 1001 milliseconds on.
pub proof fn law_timeout_beyond_a_second(v: Option<u128>)
    ensures
        collector::timed_out(v) <==> (v matches Some(ms) && ms >= 1001),
{
}

// ---------------------------------------------------------------------------------------------
// What is known
// ---------------------------------------------------------------------------------------------

/// The address that a result is about.
pub open spec fn about(result: SubResultView) -> Seq<char> {
    match result {
        SubResultView::Ping { address, latency: _ } => address,
        SubResultView::Resolve { address, quality: _ } => address,
    }
}

/// The last latency that `results` bring of the server at `address`, if any, and if it could be
/// measured.
pub open spec fn latest_latency(results: Seq<SubResultView>, address: Seq<char>) -> Option<u128> {
    results.fold_left(
        None,
        |known: Option<u128>, r: SubResultView|
            match r {
                SubResultView::Ping { address: a, latency } => if a == address {
                    latency
                } else {
                    known
                },
                SubResultView::Resolve { address: _, quality: _ } => known,
            },
    )
}

/// The last resolve quality that `results` bring of the server at `address`, if any, and if it could
/// be measured.
pub open spec fn latest_quality(results: Seq<SubResultView>, address: Seq<char>) -> Option<u128> {
    results.fold_left(
        None,
        |known: Option<u128>, r: SubResultView|
            match r {
                SubResultView::Resolve { address: a, quality } => if a == address {
                    quality
                } else {
                    known
                },
                SubResultView::Ping { address: _, latency: _ } => known,
            },
    )
}

/// Whether both measurements of the server at `address` are known after `results`.
pub open spec fn both_known(results: Seq<SubResultView>, address: Seq<char>) -> bool {
    latest_latency(results, address) is Some && latest_quality(results, address) is Some
}

/// Whether both measurements of the server at `address` were known at some point while `results`
/// came in.
pub open spec fn once_known(results: Seq<SubResultView>, address: Seq<char>) -> bool
    decreases results.len(),
{
    both_known(results, address) || results.len() > 0 && once_known(results.drop_last(), address)
}

/// What is reported of the server at `address` with these measurements: both, and, unless one of
/// them is above 1000, the score: the latency counts as 80 less itself in halves, or 10 beyond 80;
/// the quality as 100 less itself, doubled, in thirds, or 15 beyond 100; the encryption in quarters;
/// the recommendation in percent.
pub open spec fn full_report(task: TaskView, latency: u128, quality: u128) -> ResultView {
    ResultView {
        address: task.address,
        dns_latency: Some(latency),
        resolve_quality: Some(quality),
        score: if latency > 1000 || quality > 1000 {
            None
        } else {
            Some(
                Score {
                    latency_halves: if latency <= 80 {
                        (80 - latency) as u8
                    } else {
                        10
                    },
                    quality_thirds: if quality <= 100 {
                        (2 * (100 - quality)) as u8
                    } else {
                        15
                    },
                    encryption_quarters: match task.encryption {
                        Encryption::Plain => 2,
                        Encryption::Partial => 3,
                        Encryption::Full => 4,
                    },
                    recommendation_percent: task.recommendation,
                },
            )
        },
    }
}

/// Whether `tasks[at]` is the last task for its address.
pub open spec fn last_for_address(tasks: Seq<TaskView>, at: int) -> bool {
    &&& 0 <= at < tasks.len()
    &&& forall|j: int|
        at < j < tasks.len() ==> (#[trigger] tasks[j]).address != tasks[at].address
}

/// At the start the servers under test are those of the tasks, each as its last task has it, and
/// nothing is known of them.
pub proof fn law_start_knows_nothing(tasks: Seq<TaskView>, at: int, address: Seq<char>)
    ensures
        last_for_address(tasks, at) ==> {
            &&& collector::nothing_known(tasks).contains_key(tasks[at].address)
            &&& collector::nothing_known(tasks)[tasks[at].address] == (PartialView {
                encryption: tasks[at].encryption,
                recommendation: tasks[at].recommendation,
                dns_latency: None,
                resolve_quality: None,
                sent: false,
            })
        },
        (forall|j: int| 0 <= j < tasks.len() ==> (#[trigger] tasks[j]).address != address)
            ==> !collector::nothing_known(tasks).contains_key(address),
    decreases tasks.len(),
{
    if tasks.len() > 0 {
        let front = tasks.drop_last();
        law_start_knows_nothing(front, at, address);
        if last_for_address(tasks, at) && at < tasks.len() - 1 {
            assert forall|j: int| at < j < front.len() implies (#[trigger] front[j]).address
                != front[at].address by {
                assert(front[j] == tasks[j]);
            }
            assert(tasks[tasks.len() - 1].address != tasks[at].address);
        }
        if forall|j: int| 0 <= j < tasks.len() ==> (#[trigger] tasks[j]).address != address {
            assert forall|j: int| 0 <= j < front.len() implies (#[trigger] front[j]).address
                != address by {
                assert(front[j] == tasks[j]);
            }
            assert(tasks[tasks.len() - 1].address != address);
        }
    }
}

/// Once `results` have come in, what is known of a server under test is what they brought last.
proof fn lemma_known_after(tasks: Seq<TaskView>, at: int, results: Seq<SubResultView>)
    requires
        last_for_address(tasks, at),
    ensures
        ({
            let known = collector::known_after(collector::nothing_known(tasks), results);
            let address = tasks[at].address;
            &&& known.contains_key(address)
            &&& known[address] == (PartialView {
                encryption: tasks[at].encryption,
                recommendation: tasks[at].recommendation,
                dns_latency: latest_latency(results, address),
                resolve_quality: latest_quality(results, address),
                sent: once_known(results, address),
            })
        }),
    decreases results.len(),
{
    reveal(Seq::fold_left);
    law_start_knows_nothing(tasks, at, tasks[at].address);
    if results.len() > 0 {
        lemma_known_after(tasks, at, results.drop_last());
    }
}

/// A server under test is reported when a result of its own comes in with which both of its
/// measurements are known for the first time, whatever came in before, of it or of others; then what
/// came in last counts, and it is reported in full. At no other time is it reported.
pub proof fn law_reported_once_both_known(
    tasks: Seq<TaskView>,
    at: int,
    results: Seq<SubResultView>,
    result: SubResultView,
)
    requires
        last_for_address(tasks, at),
        about(result) == tasks[at].address,
    ensures
        ({
            let known = collector::known_after(collector::nothing_known(tasks), results);
            let address = tasks[at].address;
            let now = results.push(result);
            collector::taken_in(known, result).1 == if both_known(now, address) && !once_known(
                results,
                address,
            ) {
                Some(
                    full_report(
                        tasks[at],
                        latest_latency(now, address)->0,
                        latest_quality(now, address)->0,
                    ),
                )
            } else {
                None
            }
        }),
{
    reveal(Seq::fold_left);
    lemma_known_after(tasks, at, results);
    assert(results.push(result).drop_last() =~= results);
}

/// A result for an address that is not under test changes nothing, and nothing is reported.
pub proof fn law_strangers_ignored(
    tasks: Seq<TaskView>,
    results: Seq<SubResultView>,
    result: SubResultView,
)
    requires
        forall|j: int| 0 <= j < tasks.len() ==> (#[trigger] tasks[j]).address != about(result),
    ensures
        ({
            let known = collector::known_after(collector::nothing_known(tasks), results);
            collector::taken_in(known, result) == (known, None::<ResultView>)
        }),
{
    lemma_same_servers_known(tasks, results);
    law_start_knows_nothing(tasks, 0, about(result));
}

/// The servers under test stay the same.
proof fn lemma_same_servers_known(tasks: Seq<TaskView>, results: Seq<SubResultView>)
    ensures
        collector::known_after(collector::nothing_known(tasks), results).dom()
            == collector::nothing_known(tasks).dom(),
    decreases results.len(),
{
    if results.len() > 0 {
        lemma_same_servers_known(tasks, results.drop_last());
        assert(collector::known_after(collector::nothing_known(tasks), results).dom()
            =~= collector::nothing_known(tasks).dom());
    }
}

/// Tasks and results are shown with everything that is in them.
pub proof fn law_tasks_and_results_shown_whole(
    tasks: Seq<Task>,
    i: int,
    part: SubResult,
    result: TestResult,
)
    ensures
        collector::task_views(tasks).len() == tasks.len(),
        0 <= i < tasks.len() ==> {
            let shown = collector::task_views(tasks)[i];
            &&& shown.address == tasks[i].address@
            &&& shown.encryption == tasks[i].encryption
            &&& shown.recommendation == tasks[i].recommendation
            &&& shown.doh is Some <==> tasks[i].doh is Some
            &&& tasks[i].doh matches Some(url) ==> shown.doh == Some(url@)
        },
        match part {
            SubResult::Ping { address, latency } => part@ == (SubResultView::Ping {
                address: address@,
                latency,
            }),
            SubResult::Resolve { address, quality } => part@ == (SubResultView::Resolve {
                address: address@,
                quality,
            }),
        },
        part@.address() == about(part@),
        result@ == (ResultView {
            address: result.address@,
            dns_latency: result.dns_latency,
            resolve_quality: result.resolve_quality,
            score: result.score,
        }),
{
}

} // verus!
