//! What holds of pings and series of pings from their start to their end: which connections are
//! made, and what they come to.

use vstd::prelude::*;

use crate::addr::Dial;
use crate::error::Error;
use crate::ip::SocketAddr;
use crate::ping;
use crate::ping::{
    Ping, PingAction, PingActionView, PingEvent, PingPhase, PingSeries, SeriesAction,
    SeriesActionView, SeriesPhase, SeriesView,
};
use crate::stats::Sample;
use crate::time::Duration;

verus! {

/// The world that pings meet: what the names of servers and proxies resolve to, and what the
/// connection by each way comes to, by how many were made before it.
pub struct PingWorld {
    pub target_at: spec_fn(Seq<char>) -> Result<SocketAddr, Error>,
    pub proxy_at: spec_fn(Seq<char>) -> Result<SocketAddr, Error>,
    pub taken: spec_fn(Dial, nat) -> Sample,
}

/// A resolution that succeeded or failed, as an event.
pub open spec fn found(outcome: Result<SocketAddr, Error>) -> PingEvent {
    match outcome {
        Ok(addr) => PingEvent::Resolved(addr),
        Err(e) => PingEvent::Failed(e),
    }
}

/// A connection that was made or not, as an event.
pub open spec fn timed(sample: Sample) -> PingEvent {
    match sample {
        Ok(d) => PingEvent::Measured(d),
        Err(e) => PingEvent::Failed(e),
    }
}

// ---------------------------------------------------------------------------------------------
// One ping
// ---------------------------------------------------------------------------------------------

/// The actions of a ping in `world`, in order, where `action` is the next one; at most `fuel` of
/// them.
pub open spec fn ping_course(
    world: PingWorld,
    phase: PingPhase,
    proxy: Option<Seq<char>>,
    timeout: Duration,
    action: PingActionView,
    fuel: nat,
) -> Seq<PingActionView>
    decreases fuel,
{
    if action is Finish || fuel == 0 {
        seq![action]
    } else {
        let event = match action {
            PingActionView::ResolveTarget(target) => found((world.target_at)(target)),
            PingActionView::ResolveProxy(name) => found((world.proxy_at)(name)),
            PingActionView::Measure(way) => timed((world.taken)(way, 0)),
            PingActionView::Finish(_) => arbitrary(),
        };
        let (then, more) = ping::ping_next(phase, proxy, timeout, event);
        seq![action] + ping_course(world, then, proxy, timeout, more, (fuel - 1) as nat)
    }
}

/// A ping resolves the server, then the proxy if one is named, and makes one connection, with its
/// own timeout: by way of that proxy if one is named, directly otherwise. It comes to what the
/// connection comes to. The first failure ends it.
pub proof fn law_ping_course(
    world: PingWorld,
    server: Seq<char>,
    proxy: Option<Seq<char>>,
    timeout: Duration,
)
    ensures
        ping_course(
            world,
            PingPhase::ResolvingTarget,
            proxy,
            timeout,
            PingActionView::ResolveTarget(server),
            3,
        ) == match ((world.target_at)(server), proxy) {
            (Err(e), _) => seq![
                PingActionView::ResolveTarget(server),
                PingActionView::Finish(Err(e)),
            ],
            (Ok(target), None) => seq![
                PingActionView::ResolveTarget(server),
                PingActionView::Measure(Dial::Direct { target, timeout }),
                PingActionView::Finish((world.taken)(Dial::Direct { target, timeout }, 0)),
            ],
            (Ok(target), Some(name)) => match (world.proxy_at)(name) {
                Err(e) => seq![
                    PingActionView::ResolveTarget(server),
                    PingActionView::ResolveProxy(name),
                    PingActionView::Finish(Err(e)),
                ],
                Ok(via) => seq![
                    PingActionView::ResolveTarget(server),
                    PingActionView::ResolveProxy(name),
                    PingActionView::Measure(Dial::Proxied { proxy: via, target, timeout }),
                    PingActionView::Finish(
                        (world.taken)(Dial::Proxied { proxy: via, target, timeout }, 0),
                    ),
                ],
            },
        },
{
    reveal_with_fuel(ping_course, 4);
    let first = PingActionView::ResolveTarget(server);
    let course = ping_course(world, PingPhase::ResolvingTarget, proxy, timeout, first, 3);
    match ((world.target_at)(server), proxy) {
        (Err(e), _) => {
            assert(course =~= seq![first, PingActionView::Finish(Err(e))]);
        },
        (Ok(target), None) => {
            let way = Dial::Direct { target, timeout };
            let end = PingActionView::Finish((world.taken)(way, 0));
            assert(course =~= seq![first, PingActionView::Measure(way), end]);
        },
        (Ok(target), Some(name)) => {
            let second = PingActionView::ResolveProxy(name);
            match (world.proxy_at)(name) {
                Err(e) => {
                    assert(course =~= seq![first, second, PingActionView::Finish(Err(e))]);
                },
                Ok(via) => {
                    let way = Dial::Proxied { proxy: via, target, timeout };
                    let end = PingActionView::Finish((world.taken)(way, 0));
                    assert(course =~= seq![first, second, PingActionView::Measure(way), end]);
                },
            }
        },
    }
}

/// An action of a ping is shown with everything that is in it.
pub proof fn law_ping_action_shown_whole(action: PingAction)
    ensures
        match action {
            PingAction::ResolveTarget(name) => action@ == PingActionView::ResolveTarget(name@),
            PingAction::ResolveProxy(name) => action@ == PingActionView::ResolveProxy(name@),
            PingAction::Measure(way) => action@ == PingActionView::Measure(way),
            PingAction::Finish(outcome) => action@ == PingActionView::Finish(outcome),
        },
{
}

/// The next action of a ping names the proxy that the ping has, and no other.
pub proof fn law_ping_resolves_own_proxy(ping: Ping, server: SocketAddr)
    requires
        ping.phase is ResolvingTarget,
    ensures
        ({
            let (then, action) = ping::ping_next(
                ping.phase,
                crate::text::opt_chars(ping.proxy),
                ping.timeout,
                PingEvent::Resolved(server),
            );
            match ping.proxy {
                Some(name) => action == PingActionView::ResolveProxy(name@) && then
                    == PingPhase::ResolvingProxy(server),
                None => action == PingActionView::Measure(
                    Dial::Direct { target: server, timeout: ping.timeout },
                ) && then == PingPhase::Measuring,
            }
        }),
{
}

// ---------------------------------------------------------------------------------------------
// Several pings
// ---------------------------------------------------------------------------------------------

/// The actions of a series in `world`, in order, where `action` is the next one and `made`
/// connections were made before; at most `fuel` of them.
pub open spec fn series_course(
    world: PingWorld,
    series: SeriesView,
    action: SeriesActionView,
    made: nat,
    fuel: nat,
) -> Seq<SeriesActionView>
    decreases fuel,
{
    if action is Finish || fuel == 0 {
        seq![action]
    } else {
        let (event, made_then) = match action {
            SeriesActionView::ResolveTarget(target) => (found((world.target_at)(target)), made),
            SeriesActionView::ResolveProxy(name) => (found((world.proxy_at)(name)), made),
            SeriesActionView::Measure(way) => (timed((world.taken)(way, made)), made + 1),
            SeriesActionView::Finish(_) => arbitrary(),
        };
        let (then, more) = series.next(event);
        seq![action] + series_course(world, then, more, made_then, (fuel - 1) as nat)
    }
}

/// `count` connections by `way`, one after the other, and then the report of what each of them
/// came to, in order.
pub open spec fn measured_by(world: PingWorld, way: Dial, count: nat) -> Seq<SeriesActionView> {
    Seq::new(count, |k: int| SeriesActionView::Measure(way)).push(
        SeriesActionView::Finish(Ok(Seq::new(count, |k: int| (world.taken)(way, k as nat)))),
    )
}

/// A series resolves the server, then the proxy if one is named, once each. Then it makes as many
/// connections as it was asked for, each with its own timeout, and each to the resolved server: by
/// way of the resolved proxy if one is named, directly otherwise. It reports what each of them
/// came to, in order; only a name that cannot be resolved ends it early.
pub proof fn law_series_course(
    world: PingWorld,
    server: Seq<char>,
    proxy: Option<Seq<char>>,
    timeout: Duration,
    count: nat,
)
    ensures
        series_course(
            world,
            SeriesView {
                phase: SeriesPhase::ResolvingTarget,
                proxy,
                timeout,
                remaining: count,
                samples: seq![],
            },
            SeriesActionView::ResolveTarget(server),
            0,
            count + 2,
        ) == match ((world.target_at)(server), proxy) {
            (Err(e), _) => seq![
                SeriesActionView::ResolveTarget(server),
                SeriesActionView::Finish(Err(e)),
            ],
            (Ok(target), None) => seq![SeriesActionView::ResolveTarget(server)] + measured_by(
                world,
                Dial::Direct { target, timeout },
                count,
            ),
            (Ok(target), Some(name)) => seq![
                SeriesActionView::ResolveTarget(server),
                SeriesActionView::ResolveProxy(name),
            ] + match (world.proxy_at)(name) {
                Err(e) => seq![SeriesActionView::Finish(Err(e))],
                Ok(via) => measured_by(world, Dial::Proxied { proxy: via, target, timeout }, count),
            },
        },
{
    reveal_with_fuel(series_course, 3);
    let start = SeriesView {
        phase: SeriesPhase::ResolvingTarget,
        proxy,
        timeout,
        remaining: count,
        samples: seq![],
    };
    let first = SeriesActionView::ResolveTarget(server);
    let course = series_course(world, start, first, 0, count + 2);
    match ((world.target_at)(server), proxy) {
        (Err(e), _) => {
            assert(course =~= seq![first, SeriesActionView::Finish(Err(e))]);
        },
        (Ok(target), None) => {
            let way = Dial::Direct { target, timeout };
            lemma_measuring(world, start, way, count, count + 1);
            assert(course =~= seq![first] + measured_by(world, way, count));
        },
        (Ok(target), Some(name)) => {
            let second = SeriesActionView::ResolveProxy(name);
            let then = SeriesView { phase: SeriesPhase::ResolvingProxy(target), ..start };
            match (world.proxy_at)(name) {
                Err(e) => {
                    assert(course =~= seq![first, second] + seq![SeriesActionView::Finish(Err(e))]);
                },
                Ok(via) => {
                    let way = Dial::Proxied { proxy: via, target, timeout };
                    lemma_measuring(world, then, way, count, count);
                    assert(course =~= seq![first, second] + measured_by(world, way, count));
                },
            }
        },
    }
}

/// From the first connection on, where those of `series` were made before.
proof fn lemma_measuring(world: PingWorld, series: SeriesView, way: Dial, count: nat, fuel: nat)
    requires
        series.samples.len() + series.remaining == count,
        forall|k: int|
            0 <= k < series.samples.len() ==> #[trigger] series.samples[k] == (world.taken)(
                way,
                k as nat,
            ),
        fuel >= series.remaining,
    ensures
        series_course(
            world,
            series.go_on(way).0,
            series.go_on(way).1,
            series.samples.len(),
            fuel,
        ) == measured_by(world, way, count).skip(series.samples.len() as int),
    decreases series.remaining,
{
    let whole = measured_by(world, way, count);
    let made = series.samples.len();
    let (now, action) = series.go_on(way);
    let course = series_course(world, now, action, made, fuel);
    if series.remaining == 0 {
        assert(series.samples =~= Seq::new(count, |k: int| (world.taken)(way, k as nat)));
        assert(course =~= whole.skip(made as int));
    } else {
        let sample = (world.taken)(way, made);
        let recorded = now.record(sample);
        lemma_measuring(world, recorded, way, count, (fuel - 1) as nat);
        assert(now.next(timed(sample)) == recorded.go_on(way));
        assert(course =~= whole.skip(made as int));
    }
}

/// An action of a series and the series itself are shown with everything that is in them.
pub proof fn law_series_shown_whole(series: PingSeries, action: SeriesAction)
    ensures
        series@.phase == series.phase,
        series@.timeout == series.timeout,
        series@.remaining == series.remaining,
        series@.samples == series.samples@,
        series@.proxy is Some <==> series.proxy is Some,
        series.proxy matches Some(name) ==> series@.proxy == Some(name@),
        match action {
            SeriesAction::ResolveTarget(name) => action@ == SeriesActionView::ResolveTarget(name@),
            SeriesAction::ResolveProxy(name) => action@ == SeriesActionView::ResolveProxy(name@),
            SeriesAction::Measure(way) => action@ == SeriesActionView::Measure(way),
            SeriesAction::Finish(Ok(stat)) => action@ == SeriesActionView::Finish(Ok(stat@)),
            SeriesAction::Finish(Err(e)) => action@ == SeriesActionView::Finish(Err(e)),
        },
{
}

/// Once the proxy of a series is resolved, the way to the server through it is measured; once the
/// server of a series without a proxy is, the way straight to the server. With nothing to measure,
/// the report of nothing comes at once.
pub proof fn law_series_measures_way_to_server(
    series: SeriesView,
    server: SocketAddr,
    addr: SocketAddr,
)
    ensures
        series.phase == SeriesPhase::ResolvingProxy(server) && series.remaining > 0 ==> series.next(
            PingEvent::Resolved(addr),
        ).1 == SeriesActionView::Measure(
            Dial::Proxied { proxy: addr, target: server, timeout: series.timeout },
        ),
        series.phase is ResolvingTarget && series.proxy is None && series.remaining > 0
            ==> series.next(PingEvent::Resolved(addr)).1 == SeriesActionView::Measure(
            Dial::Direct { target: addr, timeout: series.timeout },
        ),
        series.phase is ResolvingTarget && series.proxy is Some ==> series.next(
            PingEvent::Resolved(addr),
        ) == (
            SeriesView { phase: SeriesPhase::ResolvingProxy(addr), ..series },
            SeriesActionView::ResolveProxy(series.proxy->0),
        ),
        series.remaining == 0 && (series.phase is ResolvingProxy || series.phase is ResolvingTarget
            && series.proxy is None) ==> series.next(PingEvent::Resolved(addr)).1
            == SeriesActionView::Finish(Ok(series.samples)),
{
}

/// A series that measures a way goes on measuring the same way until all is measured, and keeps
/// every sample as it came.
pub proof fn law_series_keeps_to_its_way(series: SeriesView, way: Dial, sample: Sample)
    requires
        series.phase == SeriesPhase::Measuring(way),
        series.remaining > 0,
    ensures
        series.remaining > 1 ==> series.next(timed(sample)) == (
            SeriesView {
                remaining: (series.remaining - 1) as nat,
                samples: series.samples.push(sample),
                ..series
            },
            SeriesActionView::Measure(way),
        ),
        series.remaining == 1 ==> series.next(timed(sample)).1 == SeriesActionView::Finish(
            Ok(series.samples.push(sample)),
        ),
{
}

/// Whatever a ping or a series waits for, it takes.
pub proof fn law_pings_take_every_answer(
    phase: PingPhase,
    series: SeriesView,
    addr: SocketAddr,
    d: Duration,
    e: Error,
)
    ensures
        phase !is Over ==> ping::ping_fits(phase, PingEvent::Failed(e)),
        phase is ResolvingTarget ==> ping::ping_fits(phase, PingEvent::Resolved(addr)),
        phase is ResolvingProxy ==> ping::ping_fits(phase, PingEvent::Resolved(addr)),
        phase is Measuring ==> ping::ping_fits(phase, PingEvent::Measured(d)),
        series.phase !is Over ==> series.fits(PingEvent::Failed(e)),
        series.phase is ResolvingTarget ==> series.fits(PingEvent::Resolved(addr)),
        series.phase is ResolvingProxy ==> series.fits(PingEvent::Resolved(addr)),
        series.phase is Measuring ==> series.fits(PingEvent::Measured(d)),
        series.phase !is Measuring ==> series.well_formed(),
        series.remaining > 0 ==> series.well_formed(),
{
}

} // verus!
