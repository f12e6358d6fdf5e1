//! What holds of averages, extremes and counts, told over the samples themselves.

use vstd::prelude::*;
use vstd::seq_lib;

use crate::ping;
use crate::stats;
use crate::stats::Sample;
use crate::time::Duration;

verus! {

/// How many of `samples` succeeded, counted one by one.
pub open spec fn succeeded(samples: Seq<Sample>) -> nat {
    samples.fold_left(
        0nat,
        |n: nat, s: Sample|
            if s is Ok {
                n + 1
            } else {
                n
            },
    )
}

/// The time that those of `samples` that succeeded took together, added up one by one.
pub open spec fn time_taken(samples: Seq<Sample>) -> nat {
    samples.fold_left(
        0nat,
        |sum: nat, s: Sample|
            match s {
                Ok(d) => sum + d.nanos as nat,
                Err(_) => sum,
            },
    )
}

/// The latencies that are there are as many as samples succeeded, and add up to the time they took.
proof fn lemma_present_totals(samples: Seq<Sample>)
    ensures
        stats::present(stats::latencies(samples)).len() == succeeded(samples),
        stats::total_nanos(stats::present(stats::latencies(samples))) == time_taken(samples),
    decreases samples.len(),
{
    reveal(Seq::fold_left);
    if samples.len() > 0 {
        let front = samples.drop_last();
        lemma_present_totals(front);
        assert(stats::latencies(samples).drop_last() =~= stats::latencies(front));
        let there = stats::present(stats::latencies(front));
        if let Ok(d) = samples.last() {
            assert(there.push(d).drop_last() =~= there);
        }
    }
}

/// What `n` durations add up to is at most `n` times the longest duration there can be.
proof fn lemma_total_limit(durations: Seq<Duration>)
    ensures
        stats::total_nanos(durations) <= durations.len() * u128::MAX,
    decreases durations.len(),
{
    if durations.len() > 0 {
        lemma_total_limit(durations.drop_last());
        let n = (durations.len() - 1) as nat;
        let m = u128::MAX as nat;
        assert((n + 1) * m == n * m + m) by (nonlinear_arith);
    } else {
        assert(0 * (u128::MAX as nat) == 0) by (nonlinear_arith);
    }
}

/// The average of all samples that succeeded, however many there are, is their total time shared
/// out evenly in whole nanoseconds; without any there is none.
pub proof fn law_average_shares_out_the_total(samples: Seq<Sample>)
    ensures
        succeeded(samples) == 0 <==> stats::average(stats::latencies(samples)) is None,
        stats::average(stats::latencies(samples)) matches Some(avg) ==> succeeded(samples)
            * avg.nanos <= time_taken(samples) < succeeded(samples) * (avg.nanos + 1),
{
    lemma_present_totals(samples);
    let there = stats::present(stats::latencies(samples));
    lemma_total_limit(there);
    let n = succeeded(samples) as int;
    let total = time_taken(samples) as int;
    let m = u128::MAX as int;
    if n > 0 {
        assert(n * (total / n) <= total < n * (total / n + 1) && 0 <= total / n <= m)
            by (nonlinear_arith)
            requires
                n > 0,
                0 <= total <= n * m,
        ;
    }
}

/// The average does not depend on the order of the samples.
pub proof fn law_average_ignores_order(a: Seq<Sample>, b: Seq<Sample>)
    requires
        a.to_multiset() == b.to_multiset(),
    ensures
        stats::average(stats::latencies(a)) == stats::average(stats::latencies(b)),
{
    seq_lib::lemma_fold_left_permutation(
        a,
        b,
        |n: nat, s: Sample|
            if s is Ok {
                n + 1
            } else {
                n
            },
        0nat,
    );
    seq_lib::lemma_fold_left_permutation(
        a,
        b,
        |sum: nat, s: Sample|
            match s {
                Ok(d) => sum + d.nanos as nat,
                Err(_) => sum,
            },
        0nat,
    );
    law_average_shares_out_the_total(a);
    law_average_shares_out_the_total(b);
    if succeeded(a) > 0 {
        let n = succeeded(a) as int;
        let total = time_taken(a) as int;
        let x = stats::average(stats::latencies(a))->0.nanos as int;
        let y = stats::average(stats::latencies(b))->0.nanos as int;
        assert(x == y) by (nonlinear_arith)
            requires
                n > 0,
                n * x <= total < n * (x + 1),
                n * y <= total < n * (y + 1),
        ;
    }
}

/// The average of samples that all took the same time is that time.
pub proof fn law_average_of_equals(samples: Seq<Sample>, d: Duration)
    requires
        samples.len() > 0,
        forall|i: int| 0 <= i < samples.len() ==> #[trigger] samples[i] == Ok::<_, crate::error::Error>(
            d,
        ),
    ensures
        stats::average(stats::latencies(samples)) == Some(d),
{
    lemma_all_equal(samples, d);
    law_average_shares_out_the_total(samples);
    let n = samples.len() as int;
    let x = stats::average(stats::latencies(samples))->0.nanos as int;
    let y = d.nanos as int;
    assert(x == y) by (nonlinear_arith)
        requires
            n > 0,
            n * x <= n * y < n * (x + 1),
    ;
}

proof fn lemma_all_equal(samples: Seq<Sample>, d: Duration)
    requires
        forall|i: int| 0 <= i < samples.len() ==> #[trigger] samples[i] == Ok::<_, crate::error::Error>(
            d,
        ),
    ensures
        succeeded(samples) == samples.len(),
        time_taken(samples) == samples.len() * d.nanos,
    decreases samples.len(),
{
    reveal(Seq::fold_left);
    if samples.len() > 0 {
        let front = samples.drop_last();
        assert forall|i: int| 0 <= i < front.len() implies #[trigger] front[i] == Ok::<
            _,
            crate::error::Error,
        >(d) by {
            assert(front[i] == samples[i]);
        }
        lemma_all_equal(front, d);
        assert(samples[samples.len() - 1] == Ok::<_, crate::error::Error>(d));
        let n = front.len() as int;
        let y = d.nanos as int;
        assert((n + 1) * y == n * y + y) by (nonlinear_arith);
    } else {
        let y = d.nanos as int;
        assert(0 * y == 0) by (nonlinear_arith);
    }
}

/// Successes are the samples that succeeded, counted one by one, and failures are all the others.
pub proof fn law_counts_one_by_one(samples: Seq<Sample>)
    ensures
        stats::successes(samples) == succeeded(samples),
        stats::failures(samples) == samples.len() - succeeded(samples),
{
    lemma_present_totals(samples);
    stats::law_latencies_of_successes(samples);
    stats::law_counts_add_up(samples);
}

/// The shortest latency is that of some sample, and no sample that succeeded was quicker; likewise
/// the longest. Without extremes every sample failed.
pub proof fn law_extremes_over_samples(samples: Seq<Sample>, d: Duration, i: int)
    requires
        0 <= i < samples.len(),
    ensures
        stats::is_shortest(stats::latencies(samples), d) ==> samples.contains(Ok(d)) && (samples[i]
            is Ok ==> d.nanos <= samples[i]->Ok_0.nanos),
        stats::is_longest(stats::latencies(samples), d) ==> samples.contains(Ok(d)) && (samples[i]
            is Ok ==> samples[i]->Ok_0.nanos <= d.nanos),
        stats::all_absent(stats::latencies(samples)) ==> samples[i] is Err,
{
    let there = stats::latencies(samples);
    assert(there.len() == samples.len());
    assert(there[i] == (match samples[i] {
        Ok(d) => Some(d),
        Err(_) => None,
    }));
    if there.contains(Some(d)) {
        let k = choose|k: int| 0 <= k < there.len() && there[k] == Some(d);
        assert(samples[k] == Ok::<_, crate::error::Error>(d));
    }
}

/// The latencies can be summed up exactly if the time that they took together fits into 128 bits.
pub proof fn law_summable_iff_total_fits(samples: Seq<Sample>)
    ensures
        stats::summable(stats::latencies(samples)) <==> time_taken(samples) <= u128::MAX,
{
    lemma_present_totals(samples);
}

/// The loss is the share of the samples that did not succeed; of no samples none is lost.
pub proof fn law_loss_is_the_rest(samples: Seq<Sample>)
    ensures
        samples.len() == 0 ==> ping::loss_of(samples) == (0nat, 1nat),
        samples.len() > 0 ==> ping::loss_of(samples).0 + succeeded(samples) == samples.len()
            && ping::loss_of(samples).1 == samples.len(),
{
    law_counts_one_by_one(samples);
}

/// The average, told over the samples alone: with `n` of them that succeeded, in `total` nanoseconds
/// altogether, `n` times the average is at most the total, and `n` times one nanosecond more is above
/// it.
pub proof fn law_average_between_multiples(samples: Seq<Sample>)
    ensures
        ({
            let n = samples.filter(|s: Sample| s is Ok).len();
            let total = samples.fold_left(
                0nat,
                |sum: nat, s: Sample|
                    match s {
                        Ok(d) => sum + d.nanos as nat,
                        Err(_) => sum,
                    },
            );
            match stats::average(stats::latencies(samples)) {
                Some(avg) => n > 0 && n * avg.nanos <= total < n * (avg.nanos + 1),
                None => n == 0,
            }
        }),
{
    law_average_shares_out_the_total(samples);
    law_counts_one_by_one(samples);
}

/// There is one latency for each sample, in order: that of the sample, or none if it failed.
pub proof fn law_latencies_one_for_one(samples: Seq<Sample>, i: int)
    ensures
        stats::latencies(samples).len() == samples.len(),
        0 <= i < samples.len() ==> match samples[i] {
            Ok(d) => stats::latencies(samples)[i] == Some(d),
            Err(_) => stats::latencies(samples)[i] is None,
        },
{
}

/// Of a list of latencies those are there that are not absent, in order.
pub proof fn law_present_are_those_there(durations: Seq<Option<Duration>>)
    ensures
        stats::present(durations) == durations.filter(|d: Option<Duration>| d is Some).map_values(
            |d: Option<Duration>| d->0,
        ),
    decreases durations.len(),
{
    reveal(Seq::filter);
    let there = |d: Option<Duration>| d is Some;
    let taken_out = |d: Option<Duration>| d->0;
    if durations.len() > 0 {
        let front = durations.drop_last();
        law_present_are_those_there(front);
        assert(stats::present(durations) =~= durations.filter(there).map_values(taken_out));
    } else {
        assert(stats::present(durations) =~= durations.filter(there).map_values(taken_out));
    }
}

} // verus!
