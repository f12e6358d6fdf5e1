//! Averages, extremes and counts over latency samples, some of which may have failed.

use vstd::prelude::*;

use crate::error::Error;
use crate::time::Duration;

verus! {

/// One measurement: how long it took, or why it failed.
pub type Sample = Result<Duration, Error>;

/// The latencies of `samples`: `None` stands for a sample that failed.
pub open spec fn latencies(samples: Seq<Sample>) -> Seq<Option<Duration>> {
    samples.map_values(
        |s: Sample|
            match s {
                Ok(d) => Some(d),
                Err(_) => None,
            },
    )
}

/// The latencies that are there, in order.
pub open spec fn present(durations: Seq<Option<Duration>>) -> Seq<Duration>
    decreases durations.len(),
{
    if durations.len() == 0 {
        seq![]
    } else {
        match durations.last() {
            Some(d) => present(durations.drop_last()).push(d),
            None => present(durations.drop_last()),
        }
    }
}

/// The sum of `durations`, in nanoseconds.
pub open spec fn total_nanos(durations: Seq<Duration>) -> nat
    decreases durations.len(),
{
    if durations.len() == 0 {
        0
    } else {
        total_nanos(durations.drop_last()) + durations.last().nanos as nat
    }
}

/// The mean of `durations`, in whole nanoseconds.
pub open spec fn mean_nanos(durations: Seq<Duration>) -> nat {
    total_nanos(durations) / durations.len()
}

/// The average of those latencies that are there: their mean in whole nanoseconds; `None` if there
/// is none.
pub open spec fn average(durations: Seq<Option<Duration>>) -> Option<Duration> {
    if present(durations).len() == 0 {
        None
    } else {
        Some(Duration { nanos: mean_nanos(present(durations)) as u128 })
    }
}

/// One more latency at the end.
proof fn lemma_present_step(durations: Seq<Option<Duration>>, i: int)
    requires
        0 <= i < durations.len(),
    ensures
        present(durations.take(i + 1)) == (match durations[i] {
            Some(d) => present(durations.take(i)).push(d),
            None => present(durations.take(i)),
        }),
        present(durations.take(i + 1)).len() <= i + 1,
        total_nanos(present(durations.take(i + 1))) == total_nanos(present(durations.take(i)))
            + (match durations[i] {
            Some(d) => d.nanos as nat,
            None => 0,
        }),
    decreases i,
{
    assert(durations.take(i + 1).drop_last() =~= durations.take(i));
    if i > 0 {
        lemma_present_step(durations, i - 1);
    } else {
        assert(durations.take(0) =~= seq![]);
    }
    if let Some(d) = durations[i] {
        let more = present(durations.take(i)).push(d);
        assert(more.drop_last() =~= present(durations.take(i)));
    }
}

/// The sum does not shrink as latencies are added.
proof fn lemma_total_grows(durations: Seq<Option<Duration>>, i: int)
    requires
        0 <= i <= durations.len(),
    ensures
        total_nanos(present(durations.take(i))) <= total_nanos(present(durations)),
    decreases durations.len() - i,
{
    if i < durations.len() {
        lemma_present_step(durations, i);
        lemma_total_grows(durations, i + 1);
    } else {
        assert(durations.take(i) =~= durations);
    }
}

/// Whether the sum of the latencies can be computed: it fits into 128 bits.
pub open spec fn summable(durations: Seq<Option<Duration>>) -> bool {
    total_nanos(present(durations)) <= u128::MAX
}

/// Tells whether the sum of the latencies can be computed.
pub fn is_summable(durations: &Vec<Option<Duration>>) -> (yes: bool)
    ensures
        yes == summable(durations@),
{
    let mut sum: u128 = 0;
    let mut i: usize = 0;
    assert(durations@.take(0) =~= seq![]);
    while i < durations.len()
        invariant
            i <= durations@.len(),
            sum == total_nanos(present(durations@.take(i as int))),
        decreases durations@.len() - i,
    {
        proof {
            lemma_present_step(durations@, i as int);
            lemma_total_grows(durations@, i + 1);
        }
        if let Some(d) = durations[i] {
            match sum.checked_add(d.nanos) {
                None => {
                    return false;
                },
                Some(more) => {
                    sum = more;
                },
            }
        }
        i += 1;
    }
    assert(durations@.take(i as int) =~= durations@);
    true
}

/// The average of those latencies that are there; `None` if there is none.
pub fn average_latency(durations: &Vec<Option<Duration>>) -> (avg: Option<Duration>)
    requires
        summable(durations@),
    ensures
        avg == average(durations@),
{
    let mut sum: u128 = 0;
    let mut count: u128 = 0;
    let mut i: usize = 0;
    assert(durations@.take(0) =~= seq![]);
    while i < durations.len()
        invariant
            i <= durations@.len(),
            summable(durations@),
            sum == total_nanos(present(durations@.take(i as int))),
            count == present(durations@.take(i as int)).len(),
            count <= i,
        decreases durations@.len() - i,
    {
        proof {
            lemma_present_step(durations@, i as int);
            lemma_total_grows(durations@, i + 1);
        }
        if let Some(d) = durations[i] {
            sum += d.nanos;
            count += 1;
        }
        i += 1;
    }
    assert(durations@.take(i as int) =~= durations@);
    if count == 0 {
        return None;
    }
    Some(Duration { nanos: sum / count })
}

/// Whether `d` is the shortest of those latencies that are there.
pub open spec fn is_shortest(durations: Seq<Option<Duration>>, d: Duration) -> bool {
    &&& durations.contains(Some(d))
    &&& forall|i: int|
        0 <= i < durations.len() ==> (#[trigger] durations[i] matches Some(other) ==> d.nanos
            <= other.nanos)
}

/// Whether `d` is the longest of those latencies that are there.
pub open spec fn is_longest(durations: Seq<Option<Duration>>, d: Duration) -> bool {
    &&& durations.contains(Some(d))
    &&& forall|i: int|
        0 <= i < durations.len() ==> (#[trigger] durations[i] matches Some(other) ==> d.nanos
            >= other.nanos)
}

/// Whether there is no latency at all.
pub open spec fn all_absent(durations: Seq<Option<Duration>>) -> bool {
    forall|i: int| 0 <= i < durations.len() ==> #[trigger] durations[i] is None
}

/// What is there stays there as one more latency is added.
proof fn lemma_contains_step(durations: Seq<Option<Duration>>, i: int)
    requires
        0 <= i < durations.len(),
    ensures
        durations.take(i + 1).contains(durations[i]),
        forall|d: Duration|
            durations.take(i).contains(Some(d)) ==> #[trigger] durations.take(i + 1).contains(
                Some(d),
            ),
{
    let more = durations.take(i + 1);
    assert(more[i] == durations[i]);
    assert forall|d: Duration| durations.take(i).contains(Some(d)) implies
        #[trigger] more.contains(Some(d)) by {
        let k = choose|k: int| 0 <= k < i && durations.take(i)[k] == Some(d);
        assert(more[k] == Some(d));
    }
}

/// The shortest of those latencies that are there; `None` if there is none.
pub fn shortest_latency(durations: &Vec<Option<Duration>>) -> (min: Option<Duration>)
    ensures
        match min {
            None => all_absent(durations@),
            Some(d) => is_shortest(durations@, d),
        },
{
    let mut min: Option<Duration> = None;
    let mut i: usize = 0;
    while i < durations.len()
        invariant
            i <= durations@.len(),
            match min {
                None => all_absent(durations@.take(i as int)),
                Some(d) => is_shortest(durations@.take(i as int), d),
            },
        decreases durations@.len() - i,
    {
        proof {
            lemma_contains_step(durations@, i as int);
            assert(durations@.take(i + 1) =~= durations@.take(i as int).push(
                durations@[i as int],
            ));
        }
        if let Some(d) = durations[i] {
            let better: bool = match min {
                None => true,
                Some(m) => d.nanos < m.nanos,
            };
            if better {
                min = Some(d);
            }
        }
        i += 1;
    }
    assert(durations@.take(i as int) =~= durations@);
    min
}

/// The longest of those latencies that are there; `None` if there is none.
pub fn longest_latency(durations: &Vec<Option<Duration>>) -> (max: Option<Duration>)
    ensures
        match max {
            None => all_absent(durations@),
            Some(d) => is_longest(durations@, d),
        },
{
    let mut max: Option<Duration> = None;
    let mut i: usize = 0;
    while i < durations.len()
        invariant
            i <= durations@.len(),
            match max {
                None => all_absent(durations@.take(i as int)),
                Some(d) => is_longest(durations@.take(i as int), d),
            },
        decreases durations@.len() - i,
    {
        proof {
            lemma_contains_step(durations@, i as int);
            assert(durations@.take(i + 1) =~= durations@.take(i as int).push(
                durations@[i as int],
            ));
        }
        if let Some(d) = durations[i] {
            let better: bool = match max {
                None => true,
                Some(m) => d.nanos > m.nanos,
            };
            if better {
                max = Some(d);
            }
        }
        i += 1;
    }
    assert(durations@.take(i as int) =~= durations@);
    max
}

/// How many samples succeeded.
pub open spec fn successes(samples: Seq<Sample>) -> nat {
    samples.filter(|s: Sample| s is Ok).len()
}

/// How many samples failed.
pub open spec fn failures(samples: Seq<Sample>) -> nat {
    samples.filter(|s: Sample| s is Err).len()
}

/// One more sample at the end.
proof fn lemma_counts_step(samples: Seq<Sample>, i: int)
    requires
        0 <= i < samples.len(),
    ensures
        successes(samples.take(i + 1)) == successes(samples.take(i)) + (if samples[i] is Ok {
            1int
        } else {
            0int
        }),
        failures(samples.take(i + 1)) == failures(samples.take(i)) + (if samples[i] is Err {
            1int
        } else {
            0int
        }),
{
    reveal(Seq::filter);
    assert(samples.take(i + 1).drop_last() =~= samples.take(i));
}

/// Every sample either succeeded or failed.
pub proof fn law_counts_add_up(samples: Seq<Sample>)
    ensures
        successes(samples) + failures(samples) == samples.len(),
    decreases samples.len(),
{
    if samples.len() == 0 {
        reveal(Seq::filter);
    } else {
        law_counts_add_up(samples.drop_last());
        lemma_counts_step(samples, samples.len() - 1);
        assert(samples.take(samples.len() as int) =~= samples);
        assert(samples.take(samples.len() - 1) =~= samples.drop_last());
    }
}

/// There are as many latencies as samples that succeeded.
pub proof fn law_latencies_of_successes(samples: Seq<Sample>)
    ensures
        present(latencies(samples)).len() == successes(samples),
    decreases samples.len(),
{
    if samples.len() == 0 {
        reveal(Seq::filter);
    } else {
        law_latencies_of_successes(samples.drop_last());
        lemma_counts_step(samples, samples.len() - 1);
        assert(samples.take(samples.len() as int) =~= samples);
        assert(samples.take(samples.len() - 1) =~= samples.drop_last());
        assert(latencies(samples).drop_last() =~= latencies(samples.drop_last()));
    }
}

/// Counts the latencies that are there.
pub fn count_present(durations: &Vec<Option<Duration>>) -> (count: usize)
    ensures
        count == present(durations@).len(),
{
    let mut count: usize = 0;
    let mut i: usize = 0;
    assert(durations@.take(0) =~= seq![]);
    while i < durations.len()
        invariant
            i <= durations@.len(),
            count == present(durations@.take(i as int)).len(),
            count <= i,
        decreases durations@.len() - i,
    {
        proof {
            lemma_present_step(durations@, i as int);
        }
        if durations[i].is_some() {
            count += 1;
        }
        i += 1;
    }
    assert(durations@.take(i as int) =~= durations@);
    count
}

/// There are at most as many latencies as places for them.
proof fn lemma_present_at_most(durations: Seq<Option<Duration>>)
    ensures
        present(durations).len() <= durations.len(),
    decreases durations.len(),
{
    if durations.len() > 0 {
        lemma_present_at_most(durations.drop_last());
    }
}

/// Counts the latencies that are not there.
pub fn count_absent(durations: &Vec<Option<Duration>>) -> (count: usize)
    ensures
        count == durations@.len() - present(durations@).len(),
{
    proof {
        lemma_present_at_most(durations@);
    }
    durations.len() - count_present(durations)
}

/// Takes the latencies out of `samples`.
pub fn collect_latencies(samples: &Vec<Sample>) -> (durations: Vec<Option<Duration>>)
    ensures
        durations@ == latencies(samples@),
{
    let mut durations: Vec<Option<Duration>> = Vec::new();
    let mut i: usize = 0;
    while i < samples.len()
        invariant
            i <= samples@.len(),
            durations@ =~= latencies(samples@.take(i as int)),
        decreases samples@.len() - i,
    {
        let d: Option<Duration> = match &samples[i] {
            Ok(d) => Some(*d),
            Err(_) => None,
        };
        durations.push(d);
        i += 1;
    }
    assert(samples@.take(i as int) =~= samples@);
    durations
}

// ---------------------------------------------------------------------------------------------
// Laws
// ---------------------------------------------------------------------------------------------

/// What is there is among the latencies that are there, and the other way round.
proof fn lemma_present_members(durations: Seq<Option<Duration>>)
    ensures
        forall|i: int|
            0 <= i < present(durations).len() ==> durations.contains(
                Some(#[trigger] present(durations)[i]),
            ),
        present(durations).len() == 0 <==> all_absent(durations),
    decreases durations.len(),
{
    if durations.len() > 0 {
        let front = durations.drop_last();
        lemma_present_members(front);
        assert forall|i: int| 0 <= i < present(durations).len() implies durations.contains(
            Some(#[trigger] present(durations)[i]),
        ) by {
            if i < present(front).len() {
                assert(present(durations)[i] == present(front)[i]);
                let k = choose|k: int|
                    0 <= k < front.len() && front[k] == Some(present(front)[i]);
                assert(durations[k] == front[k]);
            } else {
                assert(durations[durations.len() - 1] == Some(present(durations)[i]));
            }
        }
        if present(durations).len() == 0 {
            assert forall|i: int| 0 <= i < durations.len() implies #[trigger] durations[i] is None by {
                if i < front.len() {
                    assert(front[i] == durations[i]);
                }
            }
        } else if all_absent(durations) {
            assert(durations[durations.len() - 1] is None);
            assert forall|i: int| 0 <= i < front.len() implies #[trigger] front[i] is None by {
                assert(front[i] == durations[i]);
            }
        }
    }
}

/// A sum lies between the number of its summands times the least and times the greatest of them.
proof fn lemma_total_bounds(durations: Seq<Duration>, least: nat, greatest: nat)
    requires
        forall|i: int|
            0 <= i < durations.len() ==> least <= (#[trigger] durations[i]).nanos <= greatest,
    ensures
        durations.len() * least <= total_nanos(durations) <= durations.len() * greatest,
    decreases durations.len(),
{
    if durations.len() > 0 {
        let front = durations.drop_last();
        let n = front.len();
        assert forall|i: int| 0 <= i < front.len() implies least <= (#[trigger] front[i]).nanos
            <= greatest by {
            assert(front[i] == durations[i]);
        }
        lemma_total_bounds(front, least, greatest);
        assert(least <= durations[durations.len() - 1].nanos <= greatest);
        assert((n + 1) * least == n * least + least) by (nonlinear_arith);
        assert((n + 1) * greatest == n * greatest + greatest) by (nonlinear_arith);
    } else {
        assert(0 * least == 0) by (nonlinear_arith);
        assert(0 * greatest == 0) by (nonlinear_arith);
    }
}

/// The average lies between the shortest and the longest latency.
pub proof fn law_average_between(
    durations: Seq<Option<Duration>>,
    min: Duration,
    max: Duration,
    avg: Duration,
)
    requires
        is_shortest(durations, min),
        is_longest(durations, max),
        average(durations) == Some(avg),
    ensures
        min.nanos <= avg.nanos <= max.nanos,
{
    let there = present(durations);
    lemma_present_members(durations);
    assert forall|i: int| 0 <= i < there.len() implies min.nanos <= (#[trigger] there[i]).nanos
        <= max.nanos by {
        let k = choose|k: int| 0 <= k < durations.len() && durations[k] == Some(there[i]);
        assert(durations[k] == Some(there[i]));
    }
    lemma_total_bounds(there, min.nanos as nat, max.nanos as nat);
    let n = there.len() as int;
    let total = total_nanos(there) as int;
    let least = min.nanos as int;
    let greatest = max.nanos as int;
    assert(least <= total / n <= greatest) by (nonlinear_arith)
        requires
            n > 0,
            n * least <= total <= n * greatest,
    ;
}

/// There is an average exactly if some sample succeeded, and the same goes for the extremes.
pub proof fn law_average_exists_iff_success(samples: Seq<Sample>)
    ensures
        average(latencies(samples)) is Some <==> successes(samples) > 0,
        all_absent(latencies(samples)) <==> successes(samples) == 0,
{
    law_latencies_of_successes(samples);
    lemma_present_members(latencies(samples));
}

} // verus!
