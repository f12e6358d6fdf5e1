use dns_checker::addr::Dial;
use dns_checker::error::{Error, ErrorKind};
use dns_checker::ip::{IpAddr, SocketAddr};
use dns_checker::lookup::Lookup;
use dns_checker::quality::{CheckAction, CheckEvent, QualityCheck};
use dns_checker::stats::Sample;
use dns_checker::time::Duration;
use dns_checker::{
    check_resolve_quality, check_resolve_quality_for, QualityReport, QualitySample, ResolveFailure,
    QUALITY_DOMAINS,
};

#[test]
fn report_avg_of_successful_pings() {
    let report = QualityReport {
        samples: vec![
            QualitySample {
                domain: "a.com".into(),
                ip: IpAddr::V4([1, 1, 1, 1]),
                latency: Ok(Duration::from_millis(10)),
            },
            QualitySample {
                domain: "a.com".into(),
                ip: IpAddr::V4([1, 1, 1, 2]),
                latency: Ok(Duration::from_millis(20)),
            },
            QualitySample {
                domain: "b.com".into(),
                ip: IpAddr::V4([2, 2, 2, 2]),
                latency: Err(Error::new(ErrorKind::ConnectionRefused, "x")),
            },
        ],
        failures: vec![],
    };
    assert_eq!(report.total_count(), 3);
    assert_eq!(report.success_count(), 2);
    assert_eq!(report.fail_count(), 1);
    assert_eq!(report.resolve_failure_count(), 0);
    assert!(report.has_summable_latencies());
    assert_eq!(report.avg_latency(), Some(Duration::from_millis(15)));
}

#[test]
fn report_avg_none_when_all_pings_fail() {
    let report = QualityReport {
        samples: vec![QualitySample {
            domain: "a.com".into(),
            ip: IpAddr::V4([1, 1, 1, 1]),
            latency: Err(Error::new(ErrorKind::TimedOut, "t")),
        }],
        failures: vec![ResolveFailure {
            domain: "c.com".into(),
            error: Error::new(ErrorKind::AddrNotAvailable, "nx"),
        }],
    };
    assert_eq!(report.avg_latency(), None);
    assert_eq!(report.resolve_failure_count(), 1);
}

#[test]
fn quality_domains_are_these() {
    assert_eq!(
        QUALITY_DOMAINS,
        ["qq.com", "alibaba.com", "dev.meali.top", "edgeone.ai", "microsoft.com", "apple.com"]
    );
}

/// Performs a check where looking up a domain and pinging an address go as told: what is asked for,
/// and the outcome.
fn run(
    start: (QualityCheck, CheckAction),
    via: Result<SocketAddr, Error>,
    lookup: impl Fn(&str) -> Lookup,
    ping: impl Fn(Dial) -> Sample,
) -> (Vec<String>, Vec<Dial>, Result<QualityReport, Error>) {
    let (mut check, mut action) = start;
    let mut asked = Vec::new();
    let mut ways = Vec::new();
    loop {
        let event = match action {
            CheckAction::ResolveProxy(name) => {
                asked.push(format!("proxy {}", name));
                CheckEvent::Proxy(via.clone())
            }
            CheckAction::Resolve { dns_server, domain, timeout, proxy, doh } => {
                asked.push(format!(
                    "{} {} {} {:?} {:?}",
                    dns_server,
                    domain,
                    timeout.as_millis(),
                    proxy,
                    doh
                ));
                CheckEvent::Resolved(lookup(&domain))
            }
            CheckAction::Ping(way) => {
                ways.push(way);
                CheckEvent::Pinged(ping(way))
            }
            CheckAction::Finish(outcome) => return (asked, ways, outcome),
        };
        action = check.step(event);
    }
}

fn late() -> Error {
    Error::new(ErrorKind::TimedOut, "late")
}

#[test]
fn check_pings_every_address_of_every_domain() {
    let (a1, a2, c1) = (
        IpAddr::V4([1, 0, 0, 1]),
        IpAddr::V6([9; 16]),
        IpAddr::V4([3, 0, 0, 1]),
    );
    let start = check_resolve_quality_for(
        "8.8.8.8",
        &["a.com", "b.com", "c.com", "d.com"],
        None,
        Duration::from_secs(4),
        Duration::from_millis(700),
        Some("https://doh"),
    );
    let lookup = |domain: &str| match domain {
        "a.com" => Ok(vec![a1, a2]),
        "b.com" => Err(Error::new(ErrorKind::AddrNotAvailable, "nx")),
        "c.com" => Ok(vec![c1]),
        _ => Ok(vec![]),
    };
    let ping = |way: Dial| match way {
        Dial::Direct { target, .. } if target.ip == a2 => Err(late()),
        _ => Ok(Duration::from_millis(30)),
    };
    let (asked, ways, outcome) = run(start, Err(late()), lookup, ping);
    assert_eq!(asked.len(), 4);
    assert_eq!(asked[0], "8.8.8.8 a.com 4000 None Some(\"https://doh\")");
    let timeout = Duration::from_millis(700);
    let direct = |ip: IpAddr| Dial::Direct { target: SocketAddr::new(ip, 53), timeout };
    assert_eq!(ways, vec![direct(a1), direct(a2), direct(c1)]);

    let report = outcome.unwrap();
    let samples: Vec<(&str, IpAddr, bool)> =
        report.samples.iter().map(|s| (s.domain.as_str(), s.ip, s.latency.is_ok())).collect();
    assert_eq!(samples, vec![("a.com", a1, true), ("a.com", a2, false), ("c.com", c1, true)]);
    assert_eq!(report.samples[1].latency, Err(late()));
    assert_eq!(report.failures.len(), 1);
    assert_eq!(report.failures[0].domain, "b.com");
    assert_eq!(report.failures[0].error.message, "nx");
    assert_eq!((report.total_count(), report.success_count(), report.fail_count()), (3, 2, 1));
    assert_eq!(report.resolve_failure_count(), 1);
    assert_eq!(report.avg_latency(), Some(Duration::from_millis(30)));
}

#[test]
fn check_resolves_its_proxy_once() {
    let proxy = SocketAddr::new(IpAddr::V4([127, 0, 0, 1]), 1080);
    let ip = IpAddr::V4([5, 5, 5, 5]);
    let timeout = Duration::from_secs(3);
    let start = check_resolve_quality("9.9.9.9", Some("127.0.0.1:1080"), timeout, None);
    let lookup = |_: &str| Ok(vec![ip]);
    let (asked, ways, outcome) = run(start, Ok(proxy), lookup, |_| Ok(Duration { nanos: 1 }));
    assert_eq!(asked.len(), 7);
    assert_eq!(asked[0], "proxy 127.0.0.1:1080");
    assert_eq!(asked[1], "9.9.9.9 qq.com 3000 Some(\"127.0.0.1:1080\") None");
    assert_eq!(asked[6], "9.9.9.9 apple.com 3000 Some(\"127.0.0.1:1080\") None");
    let target = SocketAddr::new(ip, 53);
    assert_eq!(ways, vec![Dial::Proxied { proxy, target, timeout }; 6]);
    assert_eq!(outcome.unwrap().total_count(), 6);
}

#[test]
fn check_fails_without_its_proxy() {
    let start = check_resolve_quality("9.9.9.9", Some("nowhere:1"), Duration::from_secs(3), None);
    let (asked, ways, outcome) = run(start, Err(late()), |_| Ok(vec![]), |_| Err(late()));
    assert_eq!(asked, vec!["proxy nowhere:1"]);
    assert!(ways.is_empty());
    assert_eq!(outcome.unwrap_err(), late());
}

#[test]
fn check_of_no_domains_reports_nothing() {
    let second = Duration::from_secs(1);
    let start = check_resolve_quality_for("9.9.9.9", &[], None, second, second, None);
    let (_, _, outcome) = run(start, Err(late()), |_| Ok(vec![]), |_| Err(late()));
    let report = outcome.unwrap();
    assert_eq!((report.total_count(), report.resolve_failure_count()), (0, 0));
    assert_eq!(report.avg_latency(), None);
}

#[test]
fn check_survives_failing_domains() {
    let second = Duration::from_secs(1);
    let start = check_resolve_quality("9.9.9.9", None, second, None);
    let (_, _, outcome) = run(start, Err(late()), |_| Err(late()), |_| Err(late()));
    let report = outcome.unwrap();
    let failed: Vec<&str> = report.failures.iter().map(|f| f.domain.as_str()).collect();
    assert_eq!(failed, QUALITY_DOMAINS);
    assert_eq!(report.total_count(), 0);
}
