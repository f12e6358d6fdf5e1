//! The quality of what a DNS server answers: the domains of a list are resolved, and every address
//! that comes out is pinged.

use vstd::pervasive::unreached;
use vstd::prelude::*;

use crate::addr;
use crate::addr::{Dial, DNS_PORT};
use crate::error::Error;
use crate::ip::{IpAddr, SocketAddr};
use crate::lookup::Lookup;
use crate::stats;
use crate::stats::Sample;
use crate::text;
use crate::time::Duration;

verus! {

/// The domains that are resolved if no others are named.
pub const QUALITY_DOMAINS: [&'static str; 6] = [
    "qq.com",
    "alibaba.com",
    "dev.meali.top",
    "edgeone.ai",
    "microsoft.com",
    "apple.com",
];

// ---------------------------------------------------------------------------------------------
// Reports
// ---------------------------------------------------------------------------------------------

/// The ping of one address of one domain.
#[derive(Debug)]
pub struct QualitySample {
    pub domain: String,
    pub ip: IpAddr,
    pub latency: Sample,
}

/// A domain that could not be resolved.
#[derive(Debug)]
pub struct ResolveFailure {
    pub domain: String,
    pub error: Error,
}

/// What a check came to: every ping, whatever its outcome, and every domain that could not be
/// resolved.
#[derive(Debug)]
pub struct QualityReport {
    pub samples: Vec<QualitySample>,
    pub failures: Vec<ResolveFailure>,
}

/// The ping of one address of one domain, as a mathematical value.
pub struct SampleView {
    pub domain: Seq<char>,
    pub ip: IpAddr,
    pub latency: Sample,
}

/// A domain that could not be resolved, as a mathematical value.
pub struct FailureView {
    pub domain: Seq<char>,
    pub error: Error,
}

/// A report as a mathematical value.
#[verifier::ext_equal]
pub struct ReportView {
    pub samples: Seq<SampleView>,
    pub failures: Seq<FailureView>,
}

impl View for QualitySample {
    type V = SampleView;

    open spec fn view(&self) -> SampleView {
        SampleView { domain: self.domain@, ip: self.ip, latency: self.latency }
    }
}

impl View for ResolveFailure {
    type V = FailureView;

    open spec fn view(&self) -> FailureView {
        FailureView { domain: self.domain@, error: self.error }
    }
}

/// The mathematical values of samples.
pub open spec fn sample_views(samples: Seq<QualitySample>) -> Seq<SampleView> {
    samples.map_values(|s: QualitySample| s@)
}

/// The mathematical values of failures.
pub open spec fn failure_views(failures: Seq<ResolveFailure>) -> Seq<FailureView> {
    failures.map_values(|f: ResolveFailure| f@)
}

impl View for QualityReport {
    type V = ReportView;

    open spec fn view(&self) -> ReportView {
        ReportView {
            samples: sample_views(self.samples@),
            failures: failure_views(self.failures@),
        }
    }
}

impl ReportView {
    /// The outcomes of the pings, in order.
    pub open spec fn outcomes(self) -> Seq<Sample> {
        self.samples.map_values(|s: SampleView| s.latency)
    }
}

impl QualityReport {
    /// Takes the latencies out of the samples.
    fn latencies(&self) -> (durations: Vec<Option<Duration>>)
        ensures
            durations@ == stats::latencies(self@.outcomes()),
    {
        let mut durations: Vec<Option<Duration>> = Vec::new();
        let mut i: usize = 0;
        while i < self.samples.len()
            invariant
                i <= self.samples@.len(),
                durations@ =~= stats::latencies(self@.outcomes().take(i as int)),
            decreases self.samples@.len() - i,
        {
            let d: Option<Duration> = match &self.samples[i].latency {
                Ok(d) => Some(*d),
                Err(_) => None,
            };
            durations.push(d);
            i += 1;
        }
        assert(self@.outcomes().take(i as int) =~= self@.outcomes());
        durations
    }

    /// Tells whether the latencies can be summed up, as `avg_latency` needs.
    pub fn has_summable_latencies(&self) -> (yes: bool)
        ensures
            yes == stats::summable(stats::latencies(self@.outcomes())),
    {
        stats::is_summable(&self.latencies())
    }

    /// The average latency of the pings that succeeded; `None` if none did.
    pub fn avg_latency(&self) -> (avg: Option<Duration>)
        requires
            stats::summable(stats::latencies(self@.outcomes())),
        ensures
            avg == stats::average(stats::latencies(self@.outcomes())),
    {
        stats::average_latency(&self.latencies())
    }

    /// How many pings were made.
    pub fn total_count(&self) -> (count: usize)
        ensures
            count == self@.samples.len(),
    {
        self.samples.len()
    }

    /// How many pings succeeded.
    pub fn success_count(&self) -> (count: usize)
        ensures
            count == stats::successes(self@.outcomes()),
    {
        proof {
            stats::law_latencies_of_successes(self@.outcomes());
        }
        stats::count_present(&self.latencies())
    }

    /// How many pings failed.
    pub fn fail_count(&self) -> (count: usize)
        ensures
            count == stats::failures(self@.outcomes()),
    {
        proof {
            stats::law_latencies_of_successes(self@.outcomes());
            stats::law_counts_add_up(self@.outcomes());
        }
        stats::count_absent(&self.latencies())
    }

    /// How many domains could not be resolved. They are not counted among the pings that failed.
    pub fn resolve_failure_count(&self) -> (count: usize)
        ensures
            count == self@.failures.len(),
    {
        self.failures.len()
    }
}

// ---------------------------------------------------------------------------------------------
// The check
// ---------------------------------------------------------------------------------------------

/// The characters of several texts.
pub open spec fn str_texts(texts: Seq<&str>) -> Seq<Seq<char>> {
    texts.map_values(|t: &str| t@)
}

/// The characters of several owned texts.
pub open spec fn texts(texts: Seq<String>) -> Seq<Seq<char>> {
    texts.map_values(|t: String| t@)
}

/// What a check is waiting for.
pub enum CheckPhase {
    /// The endpoint of the proxy.
    ResolvingProxy,
    /// The addresses of the current domain.
    Resolving,
    /// How the ping of `ips[at]`, an address of the current domain, goes.
    Pinging { ips: Vec<IpAddr>, at: usize },
    /// Nothing: the check is over.
    Over,
}

/// What a check is waiting for, as a mathematical value.
pub enum CheckPhaseView {
    /// The endpoint of the proxy.
    ResolvingProxy,
    /// The addresses of the current domain.
    Resolving,
    /// How the ping of the first of these addresses goes; the others are still to be pinged.
    Pinging(Seq<IpAddr>),
    /// Nothing: the check is over.
    Over,
}

impl View for CheckPhase {
    type V = CheckPhaseView;

    open spec fn view(&self) -> CheckPhaseView {
        match self {
            CheckPhase::ResolvingProxy => CheckPhaseView::ResolvingProxy,
            CheckPhase::Resolving => CheckPhaseView::Resolving,
            CheckPhase::Pinging { ips, at } => CheckPhaseView::Pinging(ips@.skip(*at as int)),
            CheckPhase::Over => CheckPhaseView::Over,
        }
    }
}

/// What happened to the last action.
pub enum CheckEvent {
    /// The endpoint of the proxy, or why there is none.
    Proxy(Result<SocketAddr, Error>),
    /// The addresses of the domain, or why there are none.
    Resolved(Lookup),
    /// How the ping went.
    Pinged(Sample),
}

/// What to do next.
pub enum CheckAction {
    /// Find the endpoint of a proxy.
    ResolveProxy(String),
    /// Resolve a domain.
    Resolve {
        dns_server: String,
        domain: String,
        timeout: Duration,
        proxy: Option<String>,
        doh: Option<String>,
    },
    /// Measure how long it takes to make this connection, and drop it.
    Ping(Dial),
    /// Report the outcome.
    Finish(Result<QualityReport, Error>),
}

/// What to do next, as a mathematical value.
pub enum CheckActionView {
    ResolveProxy(Seq<char>),
    Resolve {
        dns_server: Seq<char>,
        domain: Seq<char>,
        timeout: Duration,
        proxy: Option<Seq<char>>,
        doh: Option<Seq<char>>,
    },
    Ping(Dial),
    Finish(Result<ReportView, Error>),
}

impl View for CheckAction {
    type V = CheckActionView;

    open spec fn view(&self) -> CheckActionView {
        match self {
            CheckAction::ResolveProxy(proxy) => CheckActionView::ResolveProxy(proxy@),
            CheckAction::Resolve { dns_server, domain, timeout, proxy, doh } => {
                CheckActionView::Resolve {
                    dns_server: dns_server@,
                    domain: domain@,
                    timeout: *timeout,
                    proxy: text::opt_chars(*proxy),
                    doh: text::opt_chars(*doh),
                }
            },
            CheckAction::Ping(way) => CheckActionView::Ping(*way),
            CheckAction::Finish(Ok(report)) => CheckActionView::Finish(Ok(report@)),
            CheckAction::Finish(Err(e)) => CheckActionView::Finish(Err(*e)),
        }
    }
}

/// A check of what a DNS server answers. Its domains from `current` on are still to be checked.
pub struct QualityCheck {
    pub phase: CheckPhase,
    pub dns_server: String,
    pub domains: Vec<String>,
    pub current: usize,
    pub proxy: Option<String>,
    pub proxy_addr: Option<SocketAddr>,
    pub query_timeout: Duration,
    pub ping_timeout: Duration,
    pub doh: Option<String>,
    pub report: QualityReport,
}

/// A check as a mathematical value. `domains` are those still to be checked, the current one first.
pub struct CheckView {
    pub phase: CheckPhaseView,
    pub dns_server: Seq<char>,
    pub domains: Seq<Seq<char>>,
    pub proxy: Option<Seq<char>>,
    pub proxy_addr: Option<SocketAddr>,
    pub query_timeout: Duration,
    pub ping_timeout: Duration,
    pub doh: Option<Seq<char>>,
    pub report: ReportView,
}

impl View for QualityCheck {
    type V = CheckView;

    open spec fn view(&self) -> CheckView {
        CheckView {
            phase: self.phase@,
            dns_server: self.dns_server@,
            domains: texts(self.domains@).skip(self.current as int),
            proxy: text::opt_chars(self.proxy),
            proxy_addr: self.proxy_addr,
            query_timeout: self.query_timeout,
            ping_timeout: self.ping_timeout,
            doh: text::opt_chars(self.doh),
            report: self.report@,
        }
    }
}

/// A report of nothing.
pub open spec fn empty_report() -> ReportView {
    ReportView { samples: seq![], failures: seq![] }
}

impl CheckView {
    /// While an answer about a domain is awaited, there is a current domain, and while a ping is
    /// under way, there is an address that it goes to.
    pub open spec fn well_formed(self) -> bool {
        match self.phase {
            CheckPhaseView::Resolving => self.domains.len() > 0,
            CheckPhaseView::Pinging(ips) => self.domains.len() > 0 && ips.len() > 0,
            _ => true,
        }
    }

    /// Whether `event` is what the check waits for.
    pub open spec fn fits(self, event: CheckEvent) -> bool {
        match event {
            CheckEvent::Proxy(_) => self.phase is ResolvingProxy,
            CheckEvent::Resolved(_) => self.phase is Resolving,
            CheckEvent::Pinged(_) => self.phase is Pinging,
        }
    }

    /// Takes up the first of the domains left, or reports if none is left. The report leaves with
    /// the action.
    pub open spec fn take_up_domain(self) -> (CheckView, CheckActionView) {
        if self.domains.len() == 0 {
            (
                CheckView { phase: CheckPhaseView::Over, report: empty_report(), ..self },
                CheckActionView::Finish(Ok(self.report)),
            )
        } else {
            (
                CheckView { phase: CheckPhaseView::Resolving, ..self },
                CheckActionView::Resolve {
                    dns_server: self.dns_server,
                    domain: self.domains[0],
                    timeout: self.query_timeout,
                    proxy: self.proxy,
                    doh: self.doh,
                },
            )
        }
    }

    /// The current domain is done with.
    pub open spec fn domain_done(self) -> CheckView {
        CheckView { domains: self.domains.drop_first(), ..self }
    }

    /// Pings the first of `ips`, or goes on to the next domain if there is none.
    pub open spec fn take_up_ip(self, ips: Seq<IpAddr>) -> (CheckView, CheckActionView) {
        if ips.len() == 0 {
            self.domain_done().take_up_domain()
        } else {
            (
                CheckView { phase: CheckPhaseView::Pinging(ips), ..self },
                CheckActionView::Ping(
                    addr::way_to(
                        SocketAddr { ip: ips[0], port: DNS_PORT, flowinfo: 0, scope_id: 0 },
                        self.proxy_addr,
                        self.ping_timeout,
                    ),
                ),
            )
        }
    }

    /// One more ping of the current domain is there.
    pub open spec fn record_ping(self, ip: IpAddr, latency: Sample) -> CheckView {
        CheckView {
            report: ReportView {
                samples: self.report.samples.push(
                    SampleView { domain: self.domains[0], ip, latency },
                ),
                ..self.report
            },
            ..self
        }
    }

    /// The current domain could not be resolved.
    pub open spec fn record_failure(self, error: Error) -> CheckView {
        CheckView {
            report: ReportView {
                failures: self.report.failures.push(
                    FailureView { domain: self.domains[0], error },
                ),
                ..self.report
            },
            ..self
        }
    }

    /// Where `event` leads, and what to do next. Only a proxy that cannot be resolved ends the
    /// check early; whatever else goes wrong is recorded.
    pub open spec fn next(self, event: CheckEvent) -> (CheckView, CheckActionView) {
        match (event, self.phase) {
            (CheckEvent::Proxy(Err(e)), _) => (
                CheckView { phase: CheckPhaseView::Over, ..self },
                CheckActionView::Finish(Err(e)),
            ),
            (CheckEvent::Proxy(Ok(addr)), _) => (CheckView {
                proxy_addr: Some(addr),
                ..self
            }).take_up_domain(),
            (CheckEvent::Resolved(Err(e)), _) => self.record_failure(
                e,
            ).domain_done().take_up_domain(),
            (CheckEvent::Resolved(Ok(ips)), _) => self.take_up_ip(ips@),
            (CheckEvent::Pinged(latency), CheckPhaseView::Pinging(ips)) => self.record_ping(
                ips[0],
                latency,
            ).take_up_ip(ips.drop_first()),
            (CheckEvent::Pinged(_), _) => arbitrary(),
        }
    }
}

/// The start of a check, and what to do first: the proxy, if there is one, is resolved once and
/// for all.
pub open spec fn check_start(
    dns_server: Seq<char>,
    domains: Seq<Seq<char>>,
    proxy: Option<Seq<char>>,
    query_timeout: Duration,
    ping_timeout: Duration,
    doh: Option<Seq<char>>,
) -> (CheckView, CheckActionView) {
    let check = CheckView {
        phase: CheckPhaseView::ResolvingProxy,
        dns_server,
        domains,
        proxy,
        proxy_addr: None,
        query_timeout,
        ping_timeout,
        doh,
        report: empty_report(),
    };
    match proxy {
        None => check.take_up_domain(),
        Some(name) => (check, CheckActionView::ResolveProxy(name)),
    }
}

/// Starts a check of what `dns_server` answers for the usual domains. `timeout` bounds each query
/// and each ping.
pub fn check_resolve_quality(
    dns_server: &str,
    proxy: Option<&str>,
    timeout: Duration,
    doh: Option<&str>,
) -> (start: (QualityCheck, CheckAction))
    ensures
        start.0.well_formed(),
        (start.0@, start.1@) == check_start(
            dns_server@,
            str_texts(QUALITY_DOMAINS@),
            text::opt_str_chars(proxy),
            timeout,
            timeout,
            text::opt_str_chars(doh),
        ),
{
    let domains: &[&str] = &QUALITY_DOMAINS;
    check_resolve_quality_for(dns_server, domains, proxy, timeout, timeout, doh)
}

/// Starts a check of what `dns_server` answers for `domains`, over HTTPS where `doh` is the URL to
/// ask. `query_timeout` bounds each query, `ping_timeout` each ping.
pub fn check_resolve_quality_for(
    dns_server: &str,
    domains: &[&str],
    proxy: Option<&str>,
    query_timeout: Duration,
    ping_timeout: Duration,
    doh: Option<&str>,
) -> (start: (QualityCheck, CheckAction))
    ensures
        start.0.well_formed(),
        (start.0@, start.1@) == check_start(
            dns_server@,
            str_texts(domains@),
            text::opt_str_chars(proxy),
            query_timeout,
            ping_timeout,
            text::opt_str_chars(doh),
        ),
{
    let mut owned: Vec<String> = Vec::new();
    let mut i: usize = 0;
    while i < domains.len()
        invariant
            i <= domains@.len(),
            texts(owned@) =~= str_texts(domains@.take(i as int)),
        decreases domains@.len() - i,
    {
        let ghost before = owned@;
        owned.push(domains[i].to_owned());
        assert(texts(owned@) =~= texts(before).push(domains@[i as int]@));
        assert(domains@.take(i + 1) =~= domains@.take(i as int).push(domains@[i as int]));
        i += 1;
    }
    assert(domains@.take(i as int) =~= domains@);
    assert(texts(owned@).skip(0) =~= str_texts(domains@));
    let report = QualityReport { samples: Vec::new(), failures: Vec::new() };
    assert(report@ =~= empty_report());
    let mut check = QualityCheck {
        phase: CheckPhase::ResolvingProxy,
        dns_server: dns_server.to_owned(),
        domains: owned,
        current: 0,
        proxy: text::opt_owned(proxy),
        proxy_addr: None,
        query_timeout,
        ping_timeout,
        doh: text::opt_owned(doh),
        report,
    };
    match proxy {
        None => {
            let action = check.take_up_domain();
            (check, action)
        },
        Some(name) => (check, CheckAction::ResolveProxy(name.to_owned())),
    }
}

/// A copy of a text that may be absent.
fn copied(text: &Option<String>) -> (copy: Option<String>)
    ensures
        copy == *text,
{
    match text {
        Some(t) => Some(t.clone()),
        None => None,
    }
}

impl QualityCheck {
    /// The positions in the lists of domains and addresses lie within them, and there is a current
    /// domain, and a current address, where the phase speaks of one.
    pub open spec fn well_formed(self) -> bool {
        &&& self.current <= self.domains@.len()
        &&& self.phase matches CheckPhase::Pinging { ips, at } ==> at <= ips@.len()
        &&& self@.well_formed()
    }

    /// Takes up the first of the domains left, or reports if none is left.
    fn take_up_domain(&mut self) -> (action: CheckAction)
        requires
            old(self).current <= old(self).domains@.len(),
        ensures
            (final(self)@, action@) == old(self)@.take_up_domain(),
            final(self).well_formed(),
    {
        if self.current == self.domains.len() {
            self.phase = CheckPhase::Over;
            let mut report = QualityReport { samples: Vec::new(), failures: Vec::new() };
            std::mem::swap(&mut report, &mut self.report);
            assert(self.report@ =~= empty_report());
            CheckAction::Finish(Ok(report))
        } else {
            self.phase = CheckPhase::Resolving;
            CheckAction::Resolve {
                dns_server: self.dns_server.clone(),
                domain: self.domains[self.current].clone(),
                timeout: self.query_timeout,
                proxy: copied(&self.proxy),
                doh: copied(&self.doh),
            }
        }
    }

    /// Leaves the current domain behind.
    fn leave_domain(&mut self)
        requires
            old(self).current < old(self).domains@.len(),
        ensures
            final(self)@ == old(self)@.domain_done(),
            final(self).current <= final(self).domains@.len(),
    {
        let count: usize = self.domains.len();
        assert(self.current < count);
        self.current += 1;
        assert(self@.domains =~= old(self)@.domains.drop_first());
    }

    /// Pings `ips[at]`, or goes on to the next domain if there is no such address.
    fn take_up_ip(&mut self, ips: Vec<IpAddr>, at: usize) -> (action: CheckAction)
        requires
            old(self).current < old(self).domains@.len(),
            at <= ips@.len(),
        ensures
            (final(self)@, action@) == old(self)@.take_up_ip(ips@.skip(at as int)),
            final(self).well_formed(),
    {
        if at == ips.len() {
            self.leave_domain();
            self.take_up_domain()
        } else {
            let way: Dial = addr::dial(
                SocketAddr::new(ips[at], DNS_PORT),
                self.proxy_addr,
                self.ping_timeout,
            );
            self.phase = CheckPhase::Pinging { ips, at };
            CheckAction::Ping(way)
        }
    }

    /// Takes in what happened to the last action and names the next one.
    pub fn step(&mut self, event: CheckEvent) -> (action: CheckAction)
        requires
            old(self).well_formed(),
            old(self)@.fits(event),
        ensures
            (final(self)@, action@) == old(self)@.next(event),
            final(self).well_formed(),
    {
        match event {
            CheckEvent::Proxy(Err(e)) => {
                self.phase = CheckPhase::Over;
                CheckAction::Finish(Err(e))
            },
            CheckEvent::Proxy(Ok(addr)) => {
                self.proxy_addr = Some(addr);
                self.take_up_domain()
            },
            CheckEvent::Resolved(Err(error)) => {
                let domain: String = self.domains[self.current].clone();
                self.report.failures.push(ResolveFailure { domain, error });
                assert(self@.report =~= old(self)@.record_failure(error).report);
                self.leave_domain();
                self.take_up_domain()
            },
            CheckEvent::Resolved(Ok(ips)) => {
                assert(ips@.skip(0) =~= ips@);
                self.take_up_ip(ips, 0)
            },
            CheckEvent::Pinged(latency) => {
                let mut phase = CheckPhase::Over;
                std::mem::swap(&mut phase, &mut self.phase);
                match phase {
                    CheckPhase::Pinging { ips, at } => {
                        let domain: String = self.domains[self.current].clone();
                        self.report.samples.push(QualitySample { domain, ip: ips[at], latency });
                        assert(self@.report =~= old(self)@.record_ping(ips[at as int], latency).report);
                        assert(ips@.skip(at + 1) =~= ips@.skip(at as int).drop_first());
                        let count: usize = ips.len();
                        assert(at < count);
                        self.take_up_ip(ips, at + 1)
                    },
                    _ => unreached(),
                }
            },
        }
    }
}

// ---------------------------------------------------------------------------------------------
// Laws
// ---------------------------------------------------------------------------------------------

/// What comes of one domain: its addresses, or why there are none, and how the pings of the
/// addresses go, in their order.
pub struct DomainOutcome {
    pub lookup: Lookup,
    pub pings: Seq<Sample>,
}

impl DomainOutcome {
    /// The addresses; none, if the domain cannot be resolved.
    pub open spec fn ips(self) -> Seq<IpAddr> {
        match self.lookup {
            Ok(ips) => ips@,
            Err(_) => seq![],
        }
    }

    /// Whether there is a ping for each address.
    pub open spec fn complete(self) -> bool {
        self.pings.len() == self.ips().len()
    }
}

/// The first `count` pings of `domain`, as a report lists them.
pub open spec fn domain_samples(domain: Seq<char>, outcome: DomainOutcome, count: nat) -> Seq<
    SampleView,
> {
    Seq::new(
        count,
        |j: int| SampleView { domain, ip: outcome.ips()[j], latency: outcome.pings[j] },
    )
}

/// The failure of `domain`, if it cannot be resolved, as a report lists it.
pub open spec fn domain_failures(domain: Seq<char>, outcome: DomainOutcome) -> Seq<FailureView> {
    match outcome.lookup {
        Ok(_) => seq![],
        Err(error) => seq![FailureView { domain, error }],
    }
}

/// What a report lists of `domains`, where `outcomes` are what comes of them.
pub open spec fn report_of(domains: Seq<Seq<char>>, outcomes: Seq<DomainOutcome>) -> ReportView
    decreases outcomes.len(),
{
    if outcomes.len() == 0 {
        empty_report()
    } else {
        let last = outcomes.len() - 1;
        let before = report_of(domains, outcomes.drop_last());
        ReportView {
            samples: before.samples + domain_samples(
                domains[last],
                outcomes[last],
                outcomes[last].ips().len(),
            ),
            failures: before.failures + domain_failures(domains[last], outcomes[last]),
        }
    }
}

/// The check after the pings in `taken`, and what to do then.
pub open spec fn after_pings(check: (CheckView, CheckActionView), taken: Seq<Sample>) -> (
    CheckView,
    CheckActionView,
)
    decreases taken.len(),
{
    if taken.len() == 0 {
        check
    } else {
        after_pings(check, taken.drop_last()).0.next(CheckEvent::Pinged(taken.last()))
    }
}

/// The check after a domain of which `outcome` comes, and what to do then.
pub open spec fn after_domain(check: CheckView, outcome: DomainOutcome) -> (
    CheckView,
    CheckActionView,
) {
    after_pings(check.next(CheckEvent::Resolved(outcome.lookup)), outcome.pings)
}

/// The check after domains of which `outcomes` come, and what to do then.
pub open spec fn after_domains(
    check: (CheckView, CheckActionView),
    outcomes: Seq<DomainOutcome>,
) -> (CheckView, CheckActionView)
    decreases outcomes.len(),
{
    if outcomes.len() == 0 {
        check
    } else {
        after_domain(after_domains(check, outcomes.drop_last()).0, outcomes.last())
    }
}

/// The pings of one domain end up in the report, in order.
proof fn lemma_after_pings(check: CheckView, outcome: DomainOutcome, taken: Seq<Sample>)
    requires
        check.domains.len() > 0,
        outcome.complete(),
        outcome.lookup is Ok,
        taken.len() <= outcome.pings.len(),
        taken == outcome.pings.take(taken.len() as int),
    ensures
        after_pings(check.take_up_ip(outcome.ips()), taken) == (CheckView {
            report: ReportView {
                samples: check.report.samples + domain_samples(
                    check.domains[0],
                    outcome,
                    taken.len(),
                ),
                ..check.report
            },
            ..check
        }).take_up_ip(outcome.ips().skip(taken.len() as int)),
    decreases taken.len(),
{
    let n = taken.len();
    if n == 0 {
        assert(outcome.ips().skip(0) =~= outcome.ips());
        assert(check.report.samples + domain_samples(check.domains[0], outcome, 0)
            =~= check.report.samples);
    } else {
        let front = taken.drop_last();
        assert(front =~= outcome.pings.take(front.len() as int));
        lemma_after_pings(check, outcome, front);
        let left = outcome.ips().skip(front.len() as int);
        assert(left[0] == outcome.ips()[n - 1]);
        assert(left.drop_first() =~= outcome.ips().skip(n as int));
        assert(taken.last() == outcome.pings[n - 1]);
        assert((check.report.samples + domain_samples(check.domains[0], outcome, front.len())).push(
            SampleView { domain: check.domains[0], ip: left[0], latency: taken.last() },
        ) =~= check.report.samples + domain_samples(check.domains[0], outcome, n));
    }
}

/// What comes of one domain ends up in the report.
proof fn lemma_after_domain(check: CheckView, outcome: DomainOutcome)
    requires
        check.phase is Resolving,
        check.domains.len() > 0,
        outcome.complete(),
    ensures
        after_domain(check, outcome) == (CheckView {
            report: ReportView {
                samples: check.report.samples + domain_samples(
                    check.domains[0],
                    outcome,
                    outcome.ips().len(),
                ),
                failures: check.report.failures + domain_failures(check.domains[0], outcome),
            },
            ..check
        }).domain_done().take_up_domain(),
{
    match outcome.lookup {
        Ok(ips) => {
            assert(outcome.pings =~= outcome.pings.take(outcome.pings.len() as int));
            lemma_after_pings(check, outcome, outcome.pings);
            assert(outcome.ips().skip(outcome.pings.len() as int) =~= seq![]);
            assert(check.report.failures + domain_failures(check.domains[0], outcome)
                =~= check.report.failures);
        },
        Err(e) => {
            assert(outcome.pings =~= seq![]);
            assert(check.report.samples + domain_samples(check.domains[0], outcome, 0)
                =~= check.report.samples);
            assert(check.report.failures + domain_failures(check.domains[0], outcome)
                =~= check.record_failure(e).report.failures);
        },
    }
}

/// The first domains are done with, and what came of them is in the report.
proof fn lemma_after_domains(check: CheckView, outcomes: Seq<DomainOutcome>)
    requires
        check.report == empty_report(),
        outcomes.len() <= check.domains.len(),
        forall|i: int| 0 <= i < outcomes.len() ==> (#[trigger] outcomes[i]).complete(),
    ensures
        after_domains(check.take_up_domain(), outcomes) == (CheckView {
            report: report_of(check.domains, outcomes),
            domains: check.domains.skip(outcomes.len() as int),
            ..check
        }).take_up_domain(),
    decreases outcomes.len(),
{
    let n = outcomes.len();
    if n == 0 {
        assert(check.domains.skip(0) =~= check.domains);
    } else {
        let front = outcomes.drop_last();
        assert forall|i: int| 0 <= i < front.len() implies (#[trigger] front[i]).complete() by {
            assert(front[i] == outcomes[i]);
        }
        lemma_after_domains(check, front);
        let left = check.domains.skip(front.len() as int);
        assert(left[0] == check.domains[n - 1]);
        assert(left.drop_first() =~= check.domains.skip(n as int));
        let now = (CheckView {
            report: report_of(check.domains, front),
            domains: left,
            ..check
        }).take_up_domain().0;
        lemma_after_domain(now, outcomes[n - 1]);
    }
}

/// The check once the proxy, if there is one, has been looked up with the outcome `via`, and what
/// to do then.
pub open spec fn check_begun(
    start: (CheckView, CheckActionView),
    via: Result<SocketAddr, Error>,
) -> (CheckView, CheckActionView) {
    match start.0.proxy {
        None => start,
        Some(_) => start.0.next(CheckEvent::Proxy(via)),
    }
}

/// A check reports every domain that cannot be resolved and the ping of every address of the
/// others, in order and unchanged, whatever goes wrong on the way. Without its proxy it reports
/// why there is none.
pub proof fn law_check_reports_everything(
    dns_server: Seq<char>,
    domains: Seq<Seq<char>>,
    proxy: Option<Seq<char>>,
    query_timeout: Duration,
    ping_timeout: Duration,
    doh: Option<Seq<char>>,
    via: Result<SocketAddr, Error>,
    outcomes: Seq<DomainOutcome>,
)
    requires
        outcomes.len() == domains.len(),
        forall|i: int| 0 <= i < outcomes.len() ==> (#[trigger] outcomes[i]).complete(),
    ensures
        ({
            let start = check_start(dns_server, domains, proxy, query_timeout, ping_timeout, doh);
            let begun = check_begun(start, via);
            match (proxy, via) {
                (Some(_), Err(e)) => begun.1 == CheckActionView::Finish(Err(e)),
                _ => after_domains(begun, outcomes).1 == CheckActionView::Finish(
                    Ok(report_of(domains, outcomes)),
                ),
            }
        }),
{
    let fresh = CheckView {
        phase: CheckPhaseView::ResolvingProxy,
        dns_server,
        domains,
        proxy,
        proxy_addr: None,
        query_timeout,
        ping_timeout,
        doh,
        report: empty_report(),
    };
    match (proxy, via) {
        (None, _) => lemma_after_domains(fresh, outcomes),
        (Some(_), Ok(addr)) => lemma_after_domains(
            CheckView { proxy_addr: Some(addr), ..fresh },
            outcomes,
        ),
        (Some(_), Err(_)) => {},
    }
}

/// A check fails as a whole exactly if the proxy cannot be resolved.
pub proof fn law_check_fails_only_without_proxy(check: CheckView, event: CheckEvent, e: Error)
    requires
        check.well_formed(),
        check.fits(event),
    ensures
        check.next(event).1 == CheckActionView::Finish(Err(e)) <==> event == CheckEvent::Proxy(
            Err(e),
        ),
{
}

/// A report lists one failure for each domain that cannot be resolved, and one sample for each
/// address of the others.
pub proof fn law_report_counts(domains: Seq<Seq<char>>, outcomes: Seq<DomainOutcome>)
    ensures
        report_of(domains, outcomes).failures.len() == outcomes.filter(
            |o: DomainOutcome| o.lookup is Err,
        ).len(),
        report_of(domains, outcomes).samples.len() == outcomes.fold_left(
            0nat,
            |sum: nat, o: DomainOutcome| sum + o.ips().len(),
        ),
    decreases outcomes.len(),
{
    reveal(Seq::filter);
    reveal(Seq::fold_left);
    if outcomes.len() > 0 {
        law_report_counts(domains, outcomes.drop_last());
    }
}

} // verus!
