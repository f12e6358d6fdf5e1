//! What holds of a check from its start to its end: what is asked of whom, which connections are
//! made, and what is reported.

use vstd::prelude::*;

use crate::addr::Dial;
use crate::error::Error;
use crate::ip::{IpAddr, SocketAddr};
use crate::lookup::Lookup;
use crate::quality;
use crate::quality::{
    CheckAction, CheckActionView, CheckEvent, CheckPhaseView, CheckView, FailureView,
    QualityReport, ReportView, SampleView, QUALITY_DOMAINS,
};
use crate::stats::Sample;
use crate::time::Duration;

verus! {

/// The world that a check meets: what the name of a proxy resolves to; what the resolution of a
/// domain comes to, by everything that it is asked with and by how many were made before; and what
/// the connection by each way comes to, by how many were made before.
pub struct CheckWorld {
    pub proxy_at: spec_fn(Seq<char>) -> Result<SocketAddr, Error>,
    pub resolved: spec_fn(
        Seq<char>,
        Seq<char>,
        Duration,
        Option<Seq<char>>,
        Option<Seq<char>>,
        nat,
    ) -> Lookup,
    pub taken: spec_fn(Dial, nat) -> Sample,
}

/// The actions of a check in `world`, in order, where `action` is the next one, `asked` domains were
/// resolved and `made` connections made before; at most `fuel` of them.
pub open spec fn check_course(
    world: CheckWorld,
    check: CheckView,
    action: CheckActionView,
    asked: nat,
    made: nat,
    fuel: nat,
) -> Seq<CheckActionView>
    decreases fuel,
{
    if action is Finish || fuel == 0 {
        seq![action]
    } else {
        let (event, asked_then, made_then) = match action {
            CheckActionView::ResolveProxy(name) => (
                CheckEvent::Proxy((world.proxy_at)(name)),
                asked,
                made,
            ),
            CheckActionView::Resolve { dns_server, domain, timeout, proxy, doh } => (
                CheckEvent::Resolved(
                    (world.resolved)(dns_server, domain, timeout, proxy, doh, asked),
                ),
                asked + 1,
                made,
            ),
            CheckActionView::Ping(way) => (
                CheckEvent::Pinged((world.taken)(way, made)),
                asked,
                made + 1,
            ),
            CheckActionView::Finish(_) => arbitrary(),
        };
        let (then, more) = check.next(event);
        seq![action] + check_course(world, then, more, asked_then, made_then, (fuel - 1) as nat)
    }
}

/// What a check is given: the server, the proxy with its endpoint, the timeouts, and the server for
/// HTTPS.
pub struct Setting {
    pub dns_server: Seq<char>,
    pub proxy: Option<Seq<char>>,
    pub via: Option<SocketAddr>,
    pub query_timeout: Duration,
    pub ping_timeout: Duration,
    pub doh: Option<Seq<char>>,
}

/// The connection to port 53 of `ip`: by way of the proxy if there is one, directly otherwise.
pub open spec fn way_to_ip(setting: Setting, ip: IpAddr) -> Dial {
    let target = SocketAddr { ip, port: 53, flowinfo: 0, scope_id: 0 };
    match setting.via {
        None => Dial::Direct { target, timeout: setting.ping_timeout },
        Some(proxy) => Dial::Proxied { proxy, target, timeout: setting.ping_timeout },
    }
}

/// The connections to each of `ips`, in order.
pub open spec fn pings_of(setting: Setting, ips: Seq<IpAddr>) -> Seq<CheckActionView> {
    Seq::new(ips.len(), |j: int| CheckActionView::Ping(way_to_ip(setting, ips[j])))
}

/// What is reported of the connections to `ips`, addresses of `domain`, where `made` were made
/// before.
pub open spec fn samples_of(
    world: CheckWorld,
    setting: Setting,
    domain: Seq<char>,
    ips: Seq<IpAddr>,
    made: nat,
) -> Seq<SampleView> {
    Seq::new(
        ips.len(),
        |j: int|
            SampleView {
                domain,
                ip: ips[j],
                latency: (world.taken)(way_to_ip(setting, ips[j]), (made + j) as nat),
            },
    )
}

/// What a check does about `domains`, one after the other, and then reports, where `asked` domains
/// were resolved and `made` connections made before, with `known` to be reported. Each domain is
/// resolved; a failure is noted; each address that comes out is connected to, and what that comes to
/// is noted.
pub open spec fn domains_course(
    world: CheckWorld,
    setting: Setting,
    domains: Seq<Seq<char>>,
    asked: nat,
    made: nat,
    known: ReportView,
) -> Seq<CheckActionView>
    decreases domains.len(),
{
    if domains.len() == 0 {
        seq![CheckActionView::Finish(Ok(known))]
    } else {
        let ask = CheckActionView::Resolve {
            dns_server: setting.dns_server,
            domain: domains[0],
            timeout: setting.query_timeout,
            proxy: setting.proxy,
            doh: setting.doh,
        };
        match (world.resolved)(
            setting.dns_server,
            domains[0],
            setting.query_timeout,
            setting.proxy,
            setting.doh,
            asked,
        ) {
            Err(error) => seq![ask] + domains_course(
                world,
                setting,
                domains.drop_first(),
                asked + 1,
                made,
                ReportView {
                    samples: known.samples,
                    failures: known.failures.push(FailureView { domain: domains[0], error }),
                },
            ),
            Ok(ips) => seq![ask] + pings_of(setting, ips@) + domains_course(
                world,
                setting,
                domains.drop_first(),
                asked + 1,
                made + ips@.len(),
                ReportView {
                    samples: known.samples + samples_of(world, setting, domains[0], ips@, made),
                    failures: known.failures,
                },
            ),
        }
    }
}

/// A check resolves its proxy, if one is named, and comes to the reason if that fails. Then it takes
/// up each domain in turn: it resolves it with the server, the query timeout, the proxy and the
/// server for HTTPS that it was started with, and connects to port 53 of each address that comes
/// out, with the ping timeout, by way of the resolved proxy if one is named and directly otherwise.
/// It reports what every connection came to, with domain and address, and every failure to resolve.
pub proof fn law_check_course(
    world: CheckWorld,
    dns_server: Seq<char>,
    domains: Seq<Seq<char>>,
    proxy: Option<Seq<char>>,
    query_timeout: Duration,
    ping_timeout: Duration,
    doh: Option<Seq<char>>,
    fuel: nat,
)
    ensures
        ({
            let (start, action) = quality::check_start(
                dns_server,
                domains,
                proxy,
                query_timeout,
                ping_timeout,
                doh,
            );
            let nothing = ReportView { samples: seq![], failures: seq![] };
            let expected = match proxy {
                None => domains_course(
                    world,
                    Setting { dns_server, proxy, via: None, query_timeout, ping_timeout, doh },
                    domains,
                    0,
                    0,
                    nothing,
                ),
                Some(name) => seq![CheckActionView::ResolveProxy(name)] + match (world.proxy_at)(
                    name,
                ) {
                    Err(e) => seq![CheckActionView::Finish(Err(e))],
                    Ok(via) => domains_course(
                        world,
                        Setting {
                            dns_server,
                            proxy,
                            via: Some(via),
                            query_timeout,
                            ping_timeout,
                            doh,
                        },
                        domains,
                        0,
                        0,
                        nothing,
                    ),
                },
            };
            fuel >= expected.len() ==> check_course(world, start, action, 0, 0, fuel) == expected
        }),
{
    let nothing = ReportView { samples: seq![], failures: seq![] };
    let fresh = CheckView {
        phase: CheckPhaseView::ResolvingProxy,
        dns_server,
        domains,
        proxy,
        proxy_addr: None,
        query_timeout,
        ping_timeout,
        doh,
        report: nothing,
    };
    match proxy {
        None => {
            let setting = Setting { dns_server, proxy, via: None, query_timeout, ping_timeout, doh };
            if fuel >= domains_course(world, setting, domains, 0, 0, nothing).len() {
                lemma_domains_course(world, setting, fresh, 0, 0, fuel);
            }
        },
        Some(name) => {
            let first = CheckActionView::ResolveProxy(name);
            let course = check_course(world, fresh, first, 0, 0, fuel);
            match (world.proxy_at)(name) {
                Err(e) => {
                    if fuel >= 2 {
                        reveal_with_fuel(check_course, 2);
                        assert(course =~= seq![first] + seq![CheckActionView::Finish(Err(e))]);
                    }
                },
                Ok(via) => {
                    let setting = Setting {
                        dns_server,
                        proxy,
                        via: Some(via),
                        query_timeout,
                        ping_timeout,
                        doh,
                    };
                    if fuel >= 1 + domains_course(world, setting, domains, 0, 0, nothing).len() {
                        let known = CheckView { proxy_addr: Some(via), ..fresh };
                        lemma_domains_course(world, setting, known, 0, 0, (fuel - 1) as nat);
                    }
                },
            }
        },
    }
}

/// Whether a check goes by `setting`.
spec fn goes_by(check: CheckView, setting: Setting) -> bool {
    &&& check.dns_server == setting.dns_server
    &&& check.proxy == setting.proxy
    &&& check.proxy_addr == setting.via
    &&& check.query_timeout == setting.query_timeout
    &&& check.ping_timeout == setting.ping_timeout
    &&& check.doh == setting.doh
}

/// The connections to the addresses of the current domain.
proof fn lemma_pings_course(
    world: CheckWorld,
    setting: Setting,
    check: CheckView,
    ips: Seq<IpAddr>,
    asked: nat,
    made: nat,
    fuel: nat,
)
    requires
        goes_by(check, setting),
        fuel >= ips.len(),
    ensures
        ({
            let noted = CheckView {
                report: ReportView {
                    samples: check.report.samples + samples_of(
                        world,
                        setting,
                        check.domains[0],
                        ips,
                        made,
                    ),
                    failures: check.report.failures,
                },
                ..check
            };
            let (now, action) = check.take_up_ip(ips);
            let (then, more) = noted.domain_done().take_up_domain();
            check_course(world, now, action, asked, made, fuel) == pings_of(setting, ips)
                + check_course(
                world,
                then,
                more,
                asked,
                made + ips.len(),
                (fuel - ips.len()) as nat,
            )
        }),
    decreases ips.len(),
{
    let domain = check.domains[0];
    let noted = CheckView {
        report: ReportView {
            samples: check.report.samples + samples_of(world, setting, domain, ips, made),
            failures: check.report.failures,
        },
        ..check
    };
    let (now, action) = check.take_up_ip(ips);
    let (then, more) = noted.domain_done().take_up_domain();
    let rest = check_course(world, then, more, asked, made + ips.len(), (fuel - ips.len()) as nat);
    let course = check_course(world, now, action, asked, made, fuel);
    if ips.len() == 0 {
        assert(noted.report.samples =~= check.report.samples);
        assert(course =~= pings_of(setting, ips) + rest);
    } else {
        let way = way_to_ip(setting, ips[0]);
        assert(action == CheckActionView::Ping(way));
        let latency = (world.taken)(way, made);
        let others = ips.drop_first();
        let after = now.record_ping(ips[0], latency);
        let less = (fuel - 1) as nat;
        assert(now.next(CheckEvent::Pinged(latency)) == after.take_up_ip(others));
        lemma_pings_course(world, setting, after, others, asked, made + 1, less);
        assert(after.report.samples + samples_of(world, setting, domain, others, made + 1)
            =~= noted.report.samples);
        let done = CheckView { report: noted.report, ..after };
        assert(done.domain_done().take_up_domain() == (then, more));
        assert(pings_of(setting, ips) =~= seq![action] + pings_of(setting, others));
        assert(course =~= pings_of(setting, ips) + rest);
    }
}

/// The domains that are left.
proof fn lemma_domains_course(
    world: CheckWorld,
    setting: Setting,
    check: CheckView,
    asked: nat,
    made: nat,
    fuel: nat,
)
    requires
        goes_by(check, setting),
        fuel >= domains_course(world, setting, check.domains, asked, made, check.report).len(),
    ensures
        check_course(
            world,
            check.take_up_domain().0,
            check.take_up_domain().1,
            asked,
            made,
            fuel,
        ) == domains_course(world, setting, check.domains, asked, made, check.report),
    decreases check.domains.len(),
{
    if check.domains.len() > 0 {
        let (now, action) = check.take_up_domain();
        let less = (fuel - 1) as nat;
        let lookup = (world.resolved)(
            setting.dns_server,
            check.domains[0],
            setting.query_timeout,
            setting.proxy,
            setting.doh,
            asked,
        );
        let (then, more) = now.next(CheckEvent::Resolved(lookup));
        let course = check_course(world, now, action, asked, made, fuel);
        assert(course == seq![action] + check_course(world, then, more, asked + 1, made, less));
        match lookup {
            Err(e) => {
                let after = now.record_failure(e).domain_done();
                lemma_domains_course(world, setting, after, asked + 1, made, less);
            },
            Ok(ips) => {
                let noted = CheckView {
                    report: ReportView {
                        samples: now.report.samples + samples_of(
                            world,
                            setting,
                            now.domains[0],
                            ips@,
                            made,
                        ),
                        failures: now.report.failures,
                    },
                    ..now
                };
                let after = noted.domain_done();
                let rest = (less - ips@.len()) as nat;
                lemma_pings_course(world, setting, now, ips@, asked + 1, made, less);
                lemma_domains_course(world, setting, after, asked + 1, made + ips@.len(), rest);
                assert(course =~= domains_course(
                    world,
                    setting,
                    check.domains,
                    asked,
                    made,
                    check.report,
                ));
            },
        }
    }
}

/// An action of a check is shown with everything that is in it, a report with every sample and every
/// failure.
pub proof fn law_check_action_shown_whole(action: CheckAction)
    ensures
        match action {
            CheckAction::ResolveProxy(name) => action@ == CheckActionView::ResolveProxy(name@),
            CheckAction::Resolve { dns_server, domain, timeout, proxy, doh } => {
                &&& action@ is Resolve
                &&& action@->dns_server == dns_server@
                &&& action@->domain == domain@
                &&& action@->timeout == timeout
                &&& action@->Resolve_proxy is Some <==> proxy is Some
                &&& proxy matches Some(name) ==> action@->Resolve_proxy == Some(name@)
                &&& action@->doh is Some <==> doh is Some
                &&& doh matches Some(url) ==> action@->doh == Some(url@)
            },
            CheckAction::Ping(way) => action@ == CheckActionView::Ping(way),
            CheckAction::Finish(Ok(report)) => action@ == CheckActionView::Finish(Ok(report@)),
            CheckAction::Finish(Err(e)) => action@ == CheckActionView::Finish(Err(e)),
        },
{
}

/// A report is shown with every sample and every failure, in order, and the outcomes that its
/// statistics go by are those of its samples, in order.
pub proof fn law_report_shown_whole(report: QualityReport, i: int)
    ensures
        report@.samples.len() == report.samples@.len(),
        report@.failures.len() == report.failures@.len(),
        report@.outcomes().len() == report.samples@.len(),
        0 <= i < report.samples@.len() ==> report@.samples[i] == (SampleView {
            domain: report.samples@[i].domain@,
            ip: report.samples@[i].ip,
            latency: report.samples@[i].latency,
        }) && report@.outcomes()[i] == report.samples@[i].latency,
        0 <= i < report.failures@.len() ==> report@.failures[i] == (FailureView {
            domain: report.failures@[i].domain@,
            error: report.failures@[i].error,
        }),
{
}

/// The domains of a check are the texts that it was given, in order.
pub proof fn law_domains_as_given(domains: Seq<&str>, i: int)
    ensures
        quality::str_texts(domains).len() == domains.len(),
        0 <= i < domains.len() ==> quality::str_texts(domains)[i] == domains[i]@,
{
}

/// The domains that are resolved if no others are named.
pub proof fn law_usual_domains()
    ensures
        quality::str_texts(QUALITY_DOMAINS@) == seq![
            "qq.com"@,
            "alibaba.com"@,
            "dev.meali.top"@,
            "edgeone.ai"@,
            "microsoft.com"@,
            "apple.com"@,
        ],
{
    assert(quality::str_texts(QUALITY_DOMAINS@) =~= seq![
        "qq.com"@,
        "alibaba.com"@,
        "dev.meali.top"@,
        "edgeone.ai"@,
        "microsoft.com"@,
        "apple.com"@,
    ]);
}

/// Whatever a check asks for, it takes the answer to it.
pub proof fn law_check_takes_every_answer(
    check: CheckView,
    via: Result<SocketAddr, Error>,
    lookup: Lookup,
    latency: Sample,
)
    ensures
        check.phase is ResolvingProxy ==> check.fits(CheckEvent::Proxy(via)),
        check.phase is Resolving ==> check.fits(CheckEvent::Resolved(lookup)),
        check.phase is Pinging ==> check.fits(CheckEvent::Pinged(latency)),
{
}

} // verus!
