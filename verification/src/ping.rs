//! Pinging a DNS server: the time that a connection to it takes, once or several times.

use vstd::pervasive::unreached;
use vstd::prelude::*;

use crate::addr;
use crate::addr::Dial;
use crate::error::Error;
use crate::ip::SocketAddr;
use crate::stats;
use crate::stats::Sample;
use crate::text;
use crate::time::Duration;

verus! {

/// The address of the SOCKS5 proxy that is used if none is named: the usual port on this machine.
pub const DEFAULT_SOCKS5_PROXY: &'static str = "127.0.0.1:1080";

// ---------------------------------------------------------------------------------------------
// Statistics
// ---------------------------------------------------------------------------------------------

/// The results of several pings, each kept as it came in. Averages and extremes are those of the
/// samples that succeeded.
#[derive(Debug)]
pub struct PingStat {
    samples: Vec<Sample>,
}

impl View for PingStat {
    type V = Seq<Sample>;

    closed spec fn view(&self) -> Seq<Sample> {
        self.samples@
    }
}

impl PingStat {
    /// The statistics of `samples`.
    pub fn from_samples(samples: Vec<Sample>) -> (stat: PingStat)
        ensures
            stat@ == samples@,
    {
        PingStat { samples }
    }

    /// The samples, in the order in which they were taken.
    pub fn samples(&self) -> (samples: &[Sample])
        ensures
            samples@ == self@,
    {
        self.samples.as_slice()
    }

    /// How many samples there are.
    pub fn total_count(&self) -> (count: usize)
        ensures
            count == self@.len(),
    {
        self.samples.len()
    }

    /// How many samples succeeded.
    pub fn success_count(&self) -> (count: usize)
        ensures
            count == stats::successes(self@),
    {
        proof {
            stats::law_latencies_of_successes(self@);
        }
        stats::count_present(&stats::collect_latencies(&self.samples))
    }

    /// How many samples failed.
    pub fn fail_count(&self) -> (count: usize)
        ensures
            count == stats::failures(self@),
    {
        proof {
            stats::law_latencies_of_successes(self@);
            stats::law_counts_add_up(self@);
        }
        stats::count_absent(&stats::collect_latencies(&self.samples))
    }

    /// Tells whether the latencies can be summed up, as `avg_latency` needs.
    pub fn has_summable_latencies(&self) -> (yes: bool)
        ensures
            yes == stats::summable(stats::latencies(self@)),
    {
        stats::is_summable(&stats::collect_latencies(&self.samples))
    }

    /// The average latency of the samples that succeeded; `None` if none did.
    pub fn avg_latency(&self) -> (avg: Option<Duration>)
        requires
            stats::summable(stats::latencies(self@)),
        ensures
            avg == stats::average(stats::latencies(self@)),
    {
        stats::average_latency(&stats::collect_latencies(&self.samples))
    }

    /// The shortest latency of the samples that succeeded; `None` if none did.
    pub fn min_latency(&self) -> (min: Option<Duration>)
        ensures
            match min {
                None => stats::all_absent(stats::latencies(self@)),
                Some(d) => stats::is_shortest(stats::latencies(self@), d),
            },
    {
        stats::shortest_latency(&stats::collect_latencies(&self.samples))
    }

    /// The longest latency of the samples that succeeded; `None` if none did.
    pub fn max_latency(&self) -> (max: Option<Duration>)
        ensures
            match max {
                None => stats::all_absent(stats::latencies(self@)),
                Some(d) => stats::is_longest(stats::latencies(self@), d),
            },
    {
        stats::longest_latency(&stats::collect_latencies(&self.samples))
    }

    /// The share of the samples that failed, as a numerator and a denominator; zero if there are
    /// no samples.
    pub fn loss_rate(&self) -> (share: (usize, usize))
        ensures
            (share.0 as nat, share.1 as nat) == loss_of(self@),
    {
        if self.samples.len() == 0 {
            return (0, 1);
        }
        (self.fail_count(), self.total_count())
    }
}

/// The share of `samples` that failed, as a numerator and a denominator; zero if there are none.
pub open spec fn loss_of(samples: Seq<Sample>) -> (nat, nat) {
    if samples.len() == 0 {
        (0, 1)
    } else {
        (stats::failures(samples), samples.len())
    }
}

/// The loss lies between none and all, and it is all exactly if there are samples and every one of
/// them failed.
pub proof fn law_loss_between_none_and_all(samples: Seq<Sample>)
    ensures
        0 <= loss_of(samples).0 <= loss_of(samples).1,
        0 < loss_of(samples).1,
        loss_of(samples).0 == loss_of(samples).1 <==> samples.len() > 0 && stats::successes(samples)
            == 0,
{
    stats::law_counts_add_up(samples);
}

// ---------------------------------------------------------------------------------------------
// One ping
// ---------------------------------------------------------------------------------------------

/// What a ping is waiting for.
#[derive(Clone, Copy, Debug)]
pub enum PingPhase {
    /// The endpoint of the server.
    ResolvingTarget,
    /// The endpoint of the proxy; that of the server is known.
    ResolvingProxy(SocketAddr),
    /// The time that the connection takes.
    Measuring,
    /// Nothing: the ping is over.
    Over,
}

/// What happened to the last action.
pub enum PingEvent {
    /// The endpoint asked for.
    Resolved(SocketAddr),
    /// The connection was made and took so long.
    Measured(Duration),
    /// The action failed.
    Failed(Error),
}

/// What to do next.
pub enum PingAction {
    /// Find the endpoint of a server.
    ResolveTarget(String),
    /// Find the endpoint of a proxy.
    ResolveProxy(String),
    /// Measure how long it takes to make this connection, and drop it.
    Measure(Dial),
    /// Report the outcome.
    Finish(Sample),
}

/// What to do next, as a mathematical value.
pub enum PingActionView {
    ResolveTarget(Seq<char>),
    ResolveProxy(Seq<char>),
    Measure(Dial),
    Finish(Sample),
}

impl View for PingAction {
    type V = PingActionView;

    open spec fn view(&self) -> PingActionView {
        match self {
            PingAction::ResolveTarget(target) => PingActionView::ResolveTarget(target@),
            PingAction::ResolveProxy(proxy) => PingActionView::ResolveProxy(proxy@),
            PingAction::Measure(way) => PingActionView::Measure(*way),
            PingAction::Finish(outcome) => PingActionView::Finish(*outcome),
        }
    }
}

/// A ping, by way of `proxy` if there is one.
pub struct Ping {
    pub phase: PingPhase,
    pub proxy: Option<String>,
    pub timeout: Duration,
}

/// Whether `event` can happen in `phase`: a failure in any but the last, otherwise what the phase
/// waits for.
pub open spec fn ping_fits(phase: PingPhase, event: PingEvent) -> bool {
    match event {
        PingEvent::Failed(_) => phase !is Over,
        PingEvent::Resolved(_) => phase is ResolvingTarget || phase is ResolvingProxy,
        PingEvent::Measured(_) => phase is Measuring,
    }
}

/// Where `event` leads from `phase`, and what to do next: the proxy, if there is one, is resolved
/// after the server, and any failure ends the ping.
pub open spec fn ping_next(
    phase: PingPhase,
    proxy: Option<Seq<char>>,
    timeout: Duration,
    event: PingEvent,
) -> (PingPhase, PingActionView) {
    match event {
        PingEvent::Failed(e) => (PingPhase::Over, PingActionView::Finish(Err(e))),
        PingEvent::Measured(d) => (PingPhase::Over, PingActionView::Finish(Ok(d))),
        PingEvent::Resolved(addr) => match (phase, proxy) {
            (PingPhase::ResolvingProxy(server), _) => (
                PingPhase::Measuring,
                PingActionView::Measure(addr::way_to(server, Some(addr), timeout)),
            ),
            (_, None) => (
                PingPhase::Measuring,
                PingActionView::Measure(addr::way_to(addr, None, timeout)),
            ),
            (_, Some(proxy)) => (
                PingPhase::ResolvingProxy(addr),
                PingActionView::ResolveProxy(proxy),
            ),
        },
    }
}

/// Starts a ping of `target`, through the default proxy if `use_proxy` is set.
pub fn ping_dns(target: &str, use_proxy: bool, timeout: Duration) -> (start: (Ping, PingAction))
    ensures
        start.0.phase is ResolvingTarget,
        text::opt_chars(start.0.proxy) == (if use_proxy {
            Some(DEFAULT_SOCKS5_PROXY@)
        } else {
            None
        }),
        start.0.timeout == timeout,
        start.1@ == PingActionView::ResolveTarget(target@),
        use_proxy ==> start.0.proxy is Some && start.0.proxy->0@ == "127.0.0.1:1080"@,
        !use_proxy ==> start.0.proxy is None,
{
    let proxy: Option<&str> = if use_proxy {
        Some(DEFAULT_SOCKS5_PROXY)
    } else {
        None
    };
    ping_dns_with_proxy(target, proxy, timeout)
}

/// Starts a ping of `target`, through `proxy` if there is one.
pub fn ping_dns_with_proxy(target: &str, proxy: Option<&str>, timeout: Duration) -> (start: (
    Ping,
    PingAction,
))
    ensures
        start.0.phase is ResolvingTarget,
        text::opt_chars(start.0.proxy) == text::opt_str_chars(proxy),
        start.0.timeout == timeout,
        start.1@ == PingActionView::ResolveTarget(target@),
        start.0.proxy is Some <==> proxy is Some,
        proxy is Some ==> start.0.proxy->0@ == proxy->0@,
{
    (
        Ping { phase: PingPhase::ResolvingTarget, proxy: text::opt_owned(proxy), timeout },
        PingAction::ResolveTarget(target.to_owned()),
    )
}

impl Ping {
    /// Takes in what happened to the last action and names the next one.
    pub fn step(&mut self, event: PingEvent) -> (action: PingAction)
        requires
            ping_fits(old(self).phase, event),
        ensures
            (final(self).phase, action@) == ping_next(
                old(self).phase,
                text::opt_chars(old(self).proxy),
                old(self).timeout,
                event,
            ),
            final(self).proxy == old(self).proxy,
            final(self).timeout == old(self).timeout,
    {
        match event {
            PingEvent::Failed(e) => {
                self.phase = PingPhase::Over;
                PingAction::Finish(Err(e))
            },
            PingEvent::Measured(d) => {
                self.phase = PingPhase::Over;
                PingAction::Finish(Ok(d))
            },
            PingEvent::Resolved(addr) => {
                if let PingPhase::ResolvingProxy(server) = self.phase {
                    self.phase = PingPhase::Measuring;
                    return PingAction::Measure(addr::dial(server, Some(addr), self.timeout));
                }
                match &self.proxy {
                    None => {
                        self.phase = PingPhase::Measuring;
                        PingAction::Measure(addr::dial(addr, None, self.timeout))
                    },
                    Some(proxy) => {
                        let action = PingAction::ResolveProxy(proxy.clone());
                        self.phase = PingPhase::ResolvingProxy(addr);
                        action
                    },
                }
            },
        }
    }
}

/// What happens if `action` is performed where `target_at` and `proxy_at` are what the names of a
/// server and of a proxy resolve to, and `taken` is how connecting goes.
pub open spec fn ping_response(
    action: PingActionView,
    target_at: spec_fn(Seq<char>) -> Result<SocketAddr, Error>,
    proxy_at: spec_fn(Seq<char>) -> Result<SocketAddr, Error>,
    taken: spec_fn(Dial) -> Sample,
) -> PingEvent {
    match action {
        PingActionView::ResolveTarget(target) => resolved(target_at(target)),
        PingActionView::ResolveProxy(proxy) => resolved(proxy_at(proxy)),
        PingActionView::Measure(way) => match taken(way) {
            Ok(d) => PingEvent::Measured(d),
            Err(e) => PingEvent::Failed(e),
        },
        PingActionView::Finish(_) => arbitrary(),
    }
}

/// The outcome of a resolution as an event.
pub open spec fn resolved(found: Result<SocketAddr, Error>) -> PingEvent {
    match found {
        Ok(addr) => PingEvent::Resolved(addr),
        Err(e) => PingEvent::Failed(e),
    }
}

/// What a ping comes to from `phase` on, where `action` is to be done next; at most `fuel` actions
/// are performed.
pub open spec fn ping_run(
    phase: PingPhase,
    proxy: Option<Seq<char>>,
    timeout: Duration,
    action: PingActionView,
    target_at: spec_fn(Seq<char>) -> Result<SocketAddr, Error>,
    proxy_at: spec_fn(Seq<char>) -> Result<SocketAddr, Error>,
    taken: spec_fn(Dial) -> Sample,
    fuel: nat,
) -> Option<Sample>
    decreases fuel,
{
    match action {
        PingActionView::Finish(outcome) => Some(outcome),
        _ => if fuel == 0 {
            None
        } else {
            let (then, more) = ping_next(
                phase,
                proxy,
                timeout,
                ping_response(action, target_at, proxy_at, taken),
            );
            ping_run(then, proxy, timeout, more, target_at, proxy_at, taken, (fuel - 1) as nat)
        },
    }
}

/// A ping comes to what connecting to the server comes to, through the proxy if there is one,
/// unless one of the two cannot be resolved; it takes at most three actions.
pub proof fn law_ping_outcome(
    target: Seq<char>,
    proxy: Option<Seq<char>>,
    timeout: Duration,
    target_at: spec_fn(Seq<char>) -> Result<SocketAddr, Error>,
    proxy_at: spec_fn(Seq<char>) -> Result<SocketAddr, Error>,
    taken: spec_fn(Dial) -> Sample,
)
    ensures
        ping_run(
            PingPhase::ResolvingTarget,
            proxy,
            timeout,
            PingActionView::ResolveTarget(target),
            target_at,
            proxy_at,
            taken,
            3,
        ) == Some(
            match addr::approach(target, proxy, timeout, target_at, proxy_at) {
                Err(e) => Err(e),
                Ok(way) => taken(way),
            },
        ),
{
    reveal_with_fuel(ping_run, 4);
}

// ---------------------------------------------------------------------------------------------
// Several pings
// ---------------------------------------------------------------------------------------------

/// What a series of pings is waiting for.
#[derive(Clone, Copy, Debug)]
pub enum SeriesPhase {
    /// The endpoint of the server.
    ResolvingTarget,
    /// The endpoint of the proxy; that of the server is known.
    ResolvingProxy(SocketAddr),
    /// The time that this connection takes.
    Measuring(Dial),
    /// Nothing: the series is over.
    Over,
}

/// What to do next.
pub enum SeriesAction {
    /// Find the endpoint of a server.
    ResolveTarget(String),
    /// Find the endpoint of a proxy.
    ResolveProxy(String),
    /// Measure how long it takes to make this connection, and drop it.
    Measure(Dial),
    /// Report the outcome.
    Finish(Result<PingStat, Error>),
}

/// What to do next, as a mathematical value.
pub enum SeriesActionView {
    ResolveTarget(Seq<char>),
    ResolveProxy(Seq<char>),
    Measure(Dial),
    Finish(Result<Seq<Sample>, Error>),
}

impl View for SeriesAction {
    type V = SeriesActionView;

    open spec fn view(&self) -> SeriesActionView {
        match self {
            SeriesAction::ResolveTarget(target) => SeriesActionView::ResolveTarget(target@),
            SeriesAction::ResolveProxy(proxy) => SeriesActionView::ResolveProxy(proxy@),
            SeriesAction::Measure(way) => SeriesActionView::Measure(*way),
            SeriesAction::Finish(Ok(stat)) => SeriesActionView::Finish(Ok(stat@)),
            SeriesAction::Finish(Err(e)) => SeriesActionView::Finish(Err(*e)),
        }
    }
}

/// Several pings in a row, by way of `proxy` if there is one: `remaining` are still to be made,
/// `samples` are there.
pub struct PingSeries {
    pub phase: SeriesPhase,
    pub proxy: Option<String>,
    pub timeout: Duration,
    pub remaining: usize,
    pub samples: Vec<Sample>,
}

/// A series of pings as a mathematical value.
pub struct SeriesView {
    pub phase: SeriesPhase,
    pub proxy: Option<Seq<char>>,
    pub timeout: Duration,
    pub remaining: nat,
    pub samples: Seq<Sample>,
}

impl View for PingSeries {
    type V = SeriesView;

    open spec fn view(&self) -> SeriesView {
        SeriesView {
            phase: self.phase,
            proxy: text::opt_chars(self.proxy),
            timeout: self.timeout,
            remaining: self.remaining as nat,
            samples: self.samples@,
        }
    }
}

impl SeriesView {
    /// Whether `event` can happen: a failure in any phase but the last, otherwise what the phase
    /// waits for.
    pub open spec fn fits(self, event: PingEvent) -> bool {
        match event {
            PingEvent::Failed(_) => self.phase !is Over,
            PingEvent::Resolved(_) => self.phase is ResolvingTarget
                || self.phase is ResolvingProxy,
            PingEvent::Measured(_) => self.phase is Measuring,
        }
    }

    /// While a measurement is under way, there is at least one to be made.
    pub open spec fn well_formed(self) -> bool {
        self.phase is Measuring ==> self.remaining > 0
    }

    /// The way to the server is clear: measure, or report if nothing is left to be measured. The
    /// samples leave with the report.
    pub open spec fn go_on(self, way: Dial) -> (SeriesView, SeriesActionView) {
        if self.remaining == 0 {
            (
                SeriesView { phase: SeriesPhase::Over, samples: seq![], ..self },
                SeriesActionView::Finish(Ok(self.samples)),
            )
        } else {
            (
                SeriesView { phase: SeriesPhase::Measuring(way), ..self },
                SeriesActionView::Measure(way),
            )
        }
    }

    /// One more sample is there.
    pub open spec fn record(self, sample: Sample) -> SeriesView {
        SeriesView {
            remaining: (self.remaining - 1) as nat,
            samples: self.samples.push(sample),
            ..self
        }
    }

    /// Where `event` leads, and what to do next. A failure to resolve ends the series; a ping that
    /// fails is a sample like any other.
    pub open spec fn next(self, event: PingEvent) -> (SeriesView, SeriesActionView) {
        match (self.phase, event) {
            (SeriesPhase::Measuring(way), PingEvent::Measured(d)) => self.record(Ok(d)).go_on(way),
            (SeriesPhase::Measuring(way), PingEvent::Failed(e)) => self.record(Err(e)).go_on(way),
            (_, PingEvent::Failed(e)) => (
                SeriesView { phase: SeriesPhase::Over, ..self },
                SeriesActionView::Finish(Err(e)),
            ),
            (SeriesPhase::ResolvingProxy(server), PingEvent::Resolved(addr)) => self.go_on(
                addr::way_to(server, Some(addr), self.timeout),
            ),
            (_, PingEvent::Resolved(addr)) => match self.proxy {
                None => self.go_on(addr::way_to(addr, None, self.timeout)),
                Some(proxy) => (
                    SeriesView { phase: SeriesPhase::ResolvingProxy(addr), ..self },
                    SeriesActionView::ResolveProxy(proxy),
                ),
            },
            (_, PingEvent::Measured(_)) => arbitrary(),
        }
    }
}

/// Starts `count` pings of `target`, through `proxy` if there is one.
pub fn ping_dns_multi(
    target: &str,
    proxy: Option<&str>,
    timeout: Duration,
    count: usize,
) -> (start: (PingSeries, SeriesAction))
    ensures
        start.0@ == (SeriesView {
            phase: SeriesPhase::ResolvingTarget,
            proxy: text::opt_str_chars(proxy),
            timeout,
            remaining: count as nat,
            samples: seq![],
        }),
        start.1@ == SeriesActionView::ResolveTarget(target@),
{
    let series = PingSeries {
        phase: SeriesPhase::ResolvingTarget,
        proxy: text::opt_owned(proxy),
        timeout,
        remaining: count,
        samples: Vec::new(),
    };
    assert(series.samples@ =~= seq![]);
    (series, SeriesAction::ResolveTarget(target.to_owned()))
}

impl PingSeries {
    /// Measures, or reports if nothing is left to be measured.
    fn go_on(&mut self, way: Dial) -> (action: SeriesAction)
        ensures
            (final(self)@, action@) == old(self)@.go_on(way),
    {
        if self.remaining == 0 {
            self.phase = SeriesPhase::Over;
            let mut samples: Vec<Sample> = Vec::new();
            std::mem::swap(&mut samples, &mut self.samples);
            assert(self.samples@ =~= seq![]);
            SeriesAction::Finish(Ok(PingStat::from_samples(samples)))
        } else {
            self.phase = SeriesPhase::Measuring(way);
            SeriesAction::Measure(way)
        }
    }

    /// Takes in what happened to the last action and names the next one.
    pub fn step(&mut self, event: PingEvent) -> (action: SeriesAction)
        requires
            old(self)@.well_formed(),
            old(self)@.fits(event),
        ensures
            (final(self)@, action@) == old(self)@.next(event),
            final(self)@.well_formed(),
    {
        match self.phase {
            SeriesPhase::Measuring(way) => {
                let sample: Sample = match event {
                    PingEvent::Measured(d) => Ok(d),
                    PingEvent::Failed(e) => Err(e),
                    PingEvent::Resolved(_) => unreached(),
                };
                self.samples.push(sample);
                self.remaining -= 1;
                self.go_on(way)
            },
            phase => match event {
                PingEvent::Failed(e) => {
                    self.phase = SeriesPhase::Over;
                    SeriesAction::Finish(Err(e))
                },
                PingEvent::Resolved(addr) => {
                    if let SeriesPhase::ResolvingProxy(server) = phase {
                        return self.go_on(addr::dial(server, Some(addr), self.timeout));
                    }
                    match &self.proxy {
                        None => self.go_on(addr::dial(addr, None, self.timeout)),
                        Some(proxy) => {
                            let action = SeriesAction::ResolveProxy(proxy.clone());
                            self.phase = SeriesPhase::ResolvingProxy(addr);
                            action
                        },
                    }
                },
                PingEvent::Measured(_) => unreached(),
            },
        }
    }
}

/// A sample as the event that brings it about.
pub open spec fn measured(sample: Sample) -> PingEvent {
    match sample {
        Ok(d) => PingEvent::Measured(d),
        Err(e) => PingEvent::Failed(e),
    }
}

/// The series after the pings in `taken`, and what to do then.
pub open spec fn series_after(series: SeriesView, taken: Seq<Sample>) -> (
    SeriesView,
    SeriesActionView,
)
    decreases taken.len(),
{
    if taken.len() == 0 {
        match series.phase {
            SeriesPhase::Measuring(way) => (series, SeriesActionView::Measure(way)),
            _ => arbitrary(),
        }
    } else {
        series_after(series, taken.drop_last()).0.next(measured(taken.last()))
    }
}

/// A series makes as many pings as it was asked for, whatever comes of each, and then reports what
/// came of them, in order and unchanged.
pub proof fn law_series_reports_every_ping(series: SeriesView, taken: Seq<Sample>)
    requires
        series.phase is Measuring,
        series.samples == Seq::<Sample>::empty(),
        0 < series.remaining,
        taken.len() <= series.remaining,
    ensures
        taken.len() < series.remaining ==> {
            let now = series_after(series, taken).0;
            &&& now.phase == series.phase
            &&& now.samples == taken
            &&& now.remaining == series.remaining - taken.len()
            &&& series_after(series, taken).1 == SeriesActionView::Measure(
                series.phase->Measuring_0,
            )
        },
        taken.len() == series.remaining ==> series_after(series, taken).1
            == SeriesActionView::Finish(Ok(taken)),
    decreases taken.len(),
{
    if taken.len() > 0 {
        law_series_reports_every_ping(series, taken.drop_last());
        assert(taken.drop_last().push(taken.last()) =~= taken);
    }
}

/// The series once its server, and its proxy if it has one, have been looked up with these outcomes,
/// and what to do then.
pub open spec fn series_begun(
    series: SeriesView,
    server: Result<SocketAddr, Error>,
    via: Result<SocketAddr, Error>,
) -> (SeriesView, SeriesActionView) {
    let (then, action) = series.next(resolved(server));
    if action is ResolveProxy {
        then.next(resolved(via))
    } else {
        (then, action)
    }
}

/// A series comes to what its pings come to, as many as it was asked for, which may be none; without
/// its server, or without its proxy, it comes to the reason.
pub proof fn law_series_outcome(
    series: SeriesView,
    server: Result<SocketAddr, Error>,
    via: Result<SocketAddr, Error>,
    taken: Seq<Sample>,
)
    requires
        series.phase is ResolvingTarget,
        series.samples == Seq::<Sample>::empty(),
        taken.len() == series.remaining,
    ensures
        ({
            let (begun, action) = series_begun(series, server, via);
            match (server, series.proxy, via) {
                (Err(e), _, _) => action == SeriesActionView::Finish(Err(e)),
                (Ok(_), Some(_), Err(e)) => action == SeriesActionView::Finish(Err(e)),
                _ => if series.remaining == 0 {
                    action == SeriesActionView::Finish(Ok(taken))
                } else {
                    series_after(begun, taken).1 == SeriesActionView::Finish(Ok(taken))
                },
            }
        }),
{
    let (begun, action) = series_begun(series, server, via);
    if series.remaining == 0 {
        assert(taken =~= seq![]);
    } else if begun.phase is Measuring {
        law_series_reports_every_ping(begun, taken);
    }
}

/// A series fails as a whole exactly if the server or the proxy cannot be resolved; a ping that
/// fails never ends it.
pub proof fn law_series_fails_only_unresolved(series: SeriesView, event: PingEvent, e: Error)
    requires
        series.well_formed(),
        series.fits(event),
    ensures
        series.next(event).1 == SeriesActionView::Finish(Err(e)) <==> event == PingEvent::Failed(e)
            && (series.phase is ResolvingTarget || series.phase is ResolvingProxy),
{
}

} // verus!
