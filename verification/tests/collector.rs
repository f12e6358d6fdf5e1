use dns_checker::collector::{
    check_quality, is_timeout, ping_latency, Collector, SubResult, Task,
};
use dns_checker::error::{Error, ErrorKind};
use dns_checker::ip::IpAddr;
use dns_checker::time::Duration;
use dns_checker::{compute_score, Encryption, PingStat, QualityReport, QualitySample};

fn task(address: &str, encryption: Encryption, recommendation: u8) -> Task {
    Task { address: address.to_string(), encryption, recommendation, doh: None }
}

fn ping(address: &str, latency: Option<u128>) -> SubResult {
    SubResult::Ping { address: address.to_string(), latency }
}

fn resolve(address: &str, quality: Option<u128>) -> SubResult {
    SubResult::Resolve { address: address.to_string(), quality }
}

#[test]
fn parts_of_a_result_know_their_address() {
    assert_eq!(ping("a", None).address(), "a");
    assert_eq!(resolve("b", Some(1)).address(), "b");
}

#[test]
fn limit_itself_is_no_timeout() {
    assert!(!is_timeout(None));
    assert!(!is_timeout(Some(0)));
    assert!(!is_timeout(Some(1000)));
    assert!(is_timeout(Some(1001)));
}

#[test]
fn server_is_reported_when_both_parts_are_there() {
    for swapped in [false, true] {
        let mut collector = Collector::new(&vec![task("a", Encryption::Full, 95)]);
        let mut parts = vec![ping("a", Some(20)), resolve("a", Some(30))];
        if swapped {
            parts.reverse();
        }
        assert!(collector.take_in(&parts[0]).is_none());
        let result = collector.take_in(&parts[1]).unwrap();
        assert_eq!(result.address, "a");
        assert_eq!((result.dns_latency, result.resolve_quality), (Some(20), Some(30)));
        assert_eq!(result.score, Some(compute_score(20, 30, Encryption::Full, 95)));
    }
}

#[test]
fn timeout_of_either_part_costs_the_score() {
    for (latency, quality, scored) in [(1000, 1000, true), (1001, 30, false), (20, 1001, false)] {
        let mut collector = Collector::new(&vec![task("a", Encryption::Plain, 100)]);
        collector.take_in(&ping("a", Some(latency)));
        let result = collector.take_in(&resolve("a", Some(quality))).unwrap();
        assert_eq!(result.score.is_some(), scored);
    }
}

#[test]
fn server_is_reported_once() {
    let mut collector = Collector::new(&vec![task("a", Encryption::Full, 100)]);
    assert!(collector.take_in(&ping("a", Some(1))).is_none());
    assert!(collector.take_in(&resolve("a", Some(2))).is_some());
    assert!(collector.take_in(&ping("a", Some(3))).is_none());
    assert!(collector.take_in(&resolve("a", Some(4))).is_none());
}

#[test]
fn server_without_a_measurement_is_not_reported() {
    let mut collector = Collector::new(&vec![task("a", Encryption::Full, 100)]);
    assert!(collector.take_in(&ping("a", None)).is_none());
    assert!(collector.take_in(&resolve("a", Some(2))).is_none());
    // A measurement that is there after all is not too late.
    assert!(collector.take_in(&ping("a", Some(5))).is_some());
}

#[test]
fn later_measurement_replaces_an_earlier_one() {
    let mut collector = Collector::new(&vec![task("a", Encryption::Full, 100)]);
    collector.take_in(&ping("a", Some(1)));
    collector.take_in(&ping("a", Some(7)));
    assert_eq!(collector.take_in(&resolve("a", Some(2))).unwrap().dns_latency, Some(7));
}

#[test]
fn unknown_address_is_passed_over() {
    let mut collector = Collector::new(&vec![task("a", Encryption::Full, 100)]);
    assert!(collector.take_in(&ping("z", Some(1))).is_none());
    assert!(collector.take_in(&resolve("z", Some(1))).is_none());
}

#[test]
fn servers_are_kept_apart() {
    let tasks = vec![task("a", Encryption::Full, 100), task("b", Encryption::Partial, 80)];
    let mut collector = Collector::new(&tasks);
    assert!(collector.take_in(&ping("a", Some(1))).is_none());
    assert!(collector.take_in(&resolve("b", Some(2))).is_none());
    assert_eq!(collector.take_in(&ping("b", Some(3))).unwrap().address, "b");
    assert_eq!(collector.take_in(&resolve("a", Some(4))).unwrap().address, "a");
}

/// Of several tasks for one address the last counts.
#[test]
fn last_task_for_an_address_counts() {
    let tasks = vec![task("a", Encryption::Full, 100), task("a", Encryption::Plain, 50)];
    let mut collector = Collector::new(&tasks);
    collector.take_in(&ping("a", Some(20)));
    let result = collector.take_in(&resolve("a", Some(30))).unwrap();
    assert_eq!(result.score, Some(compute_score(20, 30, Encryption::Plain, 50)));
}

#[test]
fn measurements_are_averages_in_whole_milliseconds() {
    let late = || Error::new(ErrorKind::TimedOut, "late");
    let took = |nanos: u128| Ok(Duration { nanos });
    let stat = PingStat::from_samples(vec![took(1_000_000), Err(late()), took(2_999_999)]);
    assert_eq!(ping_latency(&Ok(stat)), Some(1));
    assert_eq!(ping_latency(&Ok(PingStat::from_samples(vec![Err(late())]))), None);
    assert_eq!(ping_latency(&Err(late())), None);
    let long = PingStat::from_samples(vec![took(1 << 100)]);
    assert_eq!(ping_latency(&Ok(long)), Some((1 << 100) / 1_000_000));

    let sample = |nanos: u128| QualitySample {
        domain: "a.com".to_string(),
        ip: IpAddr::V4([1, 1, 1, 1]),
        latency: Ok(Duration { nanos }),
    };
    let report = QualityReport { samples: vec![sample(40_000_000), sample(51_000_000)], failures: vec![] };
    assert_eq!(check_quality(&Ok(report)), Some(45));
    assert_eq!(check_quality(&Ok(QualityReport { samples: vec![], failures: vec![] })), None);
    assert_eq!(check_quality(&Err(late())), None);
}
