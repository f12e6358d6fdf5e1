use dns_checker::addr::Dial;
use dns_checker::error::{Error, ErrorKind};
use dns_checker::ip::{IpAddr, SocketAddr};
use dns_checker::ping::{Ping, PingAction, PingEvent, PingSeries, SeriesAction};
use dns_checker::stats::Sample;
use dns_checker::time::Duration;
use dns_checker::{ping_dns, ping_dns_multi, ping_dns_with_proxy, PingStat, DEFAULT_SOCKS5_PROXY};

fn fault(kind: ErrorKind, message: &str) -> Error {
    Error::new(kind, message)
}

fn endpoint(port: u16) -> SocketAddr {
    SocketAddr::new(IpAddr::V4([127, 0, 0, 1]), port)
}

/// The share of lost samples as a number.
fn loss_rate(stat: &PingStat) -> f64 {
    let (failed, total) = stat.loss_rate();
    failed as f64 / total as f64
}

/// Performs a ping where `target` and `proxy` are the endpoints, and `taken` is how connecting goes.
fn run(
    start: (Ping, PingAction),
    target: SocketAddr,
    proxy: Option<SocketAddr>,
    taken: Sample,
) -> (Vec<String>, Option<Dial>, Sample) {
    let (mut ping, mut action) = start;
    let mut resolved = Vec::new();
    let mut way = None;
    loop {
        let event = match action {
            PingAction::ResolveTarget(name) => {
                resolved.push(name);
                PingEvent::Resolved(target)
            }
            PingAction::ResolveProxy(name) => {
                resolved.push(name);
                PingEvent::Resolved(proxy.unwrap())
            }
            PingAction::Measure(dial) => {
                way = Some(dial);
                match &taken {
                    Ok(d) => PingEvent::Measured(*d),
                    Err(e) => PingEvent::Failed(e.clone()),
                }
            }
            PingAction::Finish(outcome) => return (resolved, way, outcome),
        };
        action = ping.step(event);
    }
}

#[test]
fn ping_open_local_port_succeeds() {
    let timeout = Duration::from_secs(2);
    let took = Ok(Duration { nanos: 85_000 });
    let target = endpoint(5300);
    let start = ping_dns("127.0.0.1:5300", false, timeout);
    let (resolved, way, outcome) = run(start, target, None, took);
    assert_eq!(resolved, vec!["127.0.0.1:5300"]);
    assert_eq!(way, Some(Dial::Direct { target, timeout }));
    let latency = outcome.unwrap();
    assert!(latency.nanos > 0, "latency should be positive");
    assert_eq!(latency, Duration { nanos: 85_000 });
}

#[test]
fn ping_closed_port_returns_error() {
    let timeout = Duration::from_millis(500);
    let refused = Err(fault(ErrorKind::ConnectionRefused, "connection refused"));
    let start = ping_dns("127.0.0.1:5300", false, timeout);
    let (_, _, result) = run(start, endpoint(5300), None, refused.clone());
    assert!(result.is_err(), "connecting to a closed port should fail");
    assert_eq!(result, refused);
}

#[test]
fn ping_ipv6_loopback_succeeds() {
    let timeout = Duration::from_secs(2);
    let target = SocketAddr::new(IpAddr::V6([0, 0, 0, 0, 0, 0, 0, 0, 0, 0, 0, 0, 0, 0, 0, 1]), 5300);
    let start = ping_dns("[::1]:5300", false, timeout);
    let (_, way, outcome) = run(start, target, None, Ok(Duration { nanos: 1 }));
    assert_eq!(way, Some(Dial::Direct { target, timeout }));
    assert!(outcome.unwrap().nanos > 0);
}

#[test]
fn ping_through_mock_proxy_succeeds() {
    let timeout = Duration::from_secs(2);
    let target = endpoint(5300);
    let proxy = endpoint(1081);
    let start = ping_dns_with_proxy("127.0.0.1:5300", Some("127.0.0.1:1081"), timeout);
    let (resolved, way, outcome) = run(start, target, Some(proxy), Ok(Duration { nanos: 9 }));
    assert_eq!(resolved, vec!["127.0.0.1:5300", "127.0.0.1:1081"]);
    assert_eq!(way, Some(Dial::Proxied { proxy, target, timeout }));
    assert!(outcome.unwrap().nanos > 0);
}

#[test]
fn ping_uses_the_default_proxy() {
    let start = ping_dns("dns.google", true, Duration::from_secs(1));
    let taken = Ok(Duration { nanos: 1 });
    let (resolved, _, _) = run(start, endpoint(53), Some(endpoint(1080)), taken);
    assert_eq!(resolved, vec!["dns.google", DEFAULT_SOCKS5_PROXY]);
    assert_eq!(DEFAULT_SOCKS5_PROXY, "127.0.0.1:1080");
}

#[test]
fn ping_stops_at_what_cannot_be_resolved() {
    let unknown = fault(ErrorKind::AddrNotAvailable, "no address resolved for target: x");
    let (mut ping, _) = ping_dns_with_proxy("x", Some("p:1"), Duration::from_secs(1));
    match ping.step(PingEvent::Failed(unknown.clone())) {
        PingAction::Finish(outcome) => assert_eq!(outcome, Err(unknown.clone())),
        _ => panic!("an unknown server ends the ping"),
    }
    let (mut ping, _) = ping_dns_with_proxy("x", Some("p:1"), Duration::from_secs(1));
    ping.step(PingEvent::Resolved(endpoint(53)));
    match ping.step(PingEvent::Failed(unknown.clone())) {
        PingAction::Finish(outcome) => assert_eq!(outcome, Err(unknown)),
        _ => panic!("an unknown proxy ends the ping"),
    }
}

/// Performs a series of pings where the connections go as in `taken`.
fn run_series(start: (PingSeries, SeriesAction), taken: Vec<Sample>) -> (usize, Result<PingStat, Error>) {
    let (mut series, mut action) = start;
    let mut measured = 0;
    loop {
        let event = match action {
            SeriesAction::ResolveTarget(_) => PingEvent::Resolved(endpoint(53)),
            SeriesAction::ResolveProxy(_) => PingEvent::Resolved(endpoint(1080)),
            SeriesAction::Measure(_) => {
                measured += 1;
                match &taken[measured - 1] {
                    Ok(d) => PingEvent::Measured(*d),
                    Err(e) => PingEvent::Failed(e.clone()),
                }
            }
            SeriesAction::Finish(outcome) => return (measured, outcome),
        };
        action = series.step(event);
    }
}

/// Pings that all succeed.
#[test]
fn multi_ping_local_all_succeed() {
    let taken: Vec<Sample> = [31, 45, 29, 60, 38].iter().map(|n| Ok(Duration { nanos: *n })).collect();
    let start = ping_dns_multi("127.0.0.1:53", None, Duration::from_secs(2), 5);
    let (measured, outcome) = run_series(start, taken);
    assert_eq!(measured, 5);
    let stat = outcome.unwrap();
    assert_eq!(stat.total_count(), 5);
    assert_eq!(stat.success_count(), 5);
    assert_eq!(stat.fail_count(), 0);
    assert_eq!(loss_rate(&stat), 0.0);
    assert!(stat.has_summable_latencies());
    assert!(stat.avg_latency().is_some());
    let (min, max, avg) = (
        stat.min_latency().unwrap(),
        stat.max_latency().unwrap(),
        stat.avg_latency().unwrap(),
    );
    assert!(min.nanos <= max.nanos);
    assert!(avg.nanos >= min.nanos && avg.nanos <= max.nanos);
    assert_eq!((min.nanos, max.nanos, avg.nanos), (29, 60, 40));
}

/// No pings at all.
#[test]
fn multi_ping_zero_count_is_empty() {
    for proxy in [None, Some("127.0.0.1:1080")] {
        let start = ping_dns_multi("127.0.0.1:53", proxy, Duration::from_secs(2), 0);
        let (measured, outcome) = run_series(start, vec![]);
        assert_eq!(measured, 0);
        let stat = outcome.unwrap();
        assert_eq!(stat.total_count(), 0);
        assert_eq!(stat.avg_latency(), None);
        assert_eq!(loss_rate(&stat), 0.0);
    }
}

#[test]
fn series_keeps_failed_pings_in_place() {
    let taken: Vec<Sample> = vec![
        Err(fault(ErrorKind::TimedOut, "a")),
        Ok(Duration::from_millis(7)),
        Err(fault(ErrorKind::ConnectionReset, "b")),
    ];
    let start = ping_dns_multi("8.8.8.8", Some("127.0.0.1:1080"), Duration::from_secs(2), 3);
    let (measured, outcome) = run_series(start, taken.clone());
    assert_eq!(measured, 3);
    assert_eq!(outcome.unwrap().samples(), &taken[..]);
}

#[test]
fn series_fails_without_its_server() {
    let unknown = fault(ErrorKind::AddrNotAvailable, "unknown");
    let (mut series, _) = ping_dns_multi("x", None, Duration::from_secs(1), 3);
    match series.step(PingEvent::Failed(unknown.clone())) {
        SeriesAction::Finish(Err(e)) => assert_eq!(e, unknown),
        _ => panic!("an unknown server ends the series"),
    }
}

/// Samples of either kind.
#[test]
fn stat_mixed_samples_compute_correctly() {
    let samples = vec![
        Ok(Duration::from_millis(10)),
        Err(fault(ErrorKind::ConnectionRefused, "x")),
        Ok(Duration::from_millis(20)),
    ];
    let stat = PingStat::from_samples(samples);

    assert_eq!(stat.total_count(), 3);
    assert_eq!(stat.success_count(), 2);
    assert_eq!(stat.fail_count(), 1);
    assert_eq!(stat.avg_latency(), Some(Duration::from_millis(15)));
    assert_eq!(stat.min_latency(), Some(Duration::from_millis(10)));
    assert_eq!(stat.max_latency(), Some(Duration::from_millis(20)));
    assert!((loss_rate(&stat) - 1.0 / 3.0).abs() < 1e-9);
}

/// Nothing but failures.
#[test]
fn stat_all_failed() {
    let samples = vec![
        Err(fault(ErrorKind::ConnectionRefused, "a")),
        Err(fault(ErrorKind::TimedOut, "b")),
    ];
    let stat = PingStat::from_samples(samples);

    assert_eq!(stat.success_count(), 0);
    assert_eq!(stat.avg_latency(), None);
    assert_eq!(stat.min_latency(), None);
    assert_eq!(stat.max_latency(), None);
    assert_eq!(loss_rate(&stat), 1.0);
}

#[test]
fn average_is_the_mean_rounded_down() {
    let of = |nanos: Vec<u128>| {
        let samples = nanos.into_iter().map(|n| Ok(Duration { nanos: n })).collect();
        PingStat::from_samples(samples)
    };
    assert_eq!(of(vec![1, 2]).avg_latency(), Some(Duration { nanos: 1 }));
    assert_eq!(of(vec![1, 1, 3]).avg_latency(), Some(Duration { nanos: 1 }));
    let long = Duration { nanos: (1 << 64) + 5 };
    assert_eq!(of(vec![long.nanos]).avg_latency(), Some(long));
    let longer = Duration::from_secs(18_446_744_074);
    assert_eq!(of(vec![longer.nanos]).avg_latency(), Some(longer));
    assert_eq!(of(vec![u128::MAX]).avg_latency(), Some(Duration { nanos: u128::MAX }));
    assert!(of(vec![u128::MAX]).has_summable_latencies());
    assert!(!of(vec![u128::MAX, 1]).has_summable_latencies());
}

#[test]
fn durations_count_in_nanoseconds() {
    assert_eq!(Duration::from_secs(3), Duration { nanos: 3_000_000_000 });
    assert_eq!(Duration::from_millis(15), Duration { nanos: 15_000_000 });
    assert_eq!(Duration { nanos: 1_999_999 }.as_millis(), 1);
}
