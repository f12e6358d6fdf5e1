use dns_checker::servers::{
    default_entries, fill_in, sort_entries_by_score, DnsEntry, TestResult, DOH_ALIDNS,
    DOH_CLOUDFLARE, DOH_DNSPOD, DOH_GOOGLE, DOH_QUAD9,
};
use dns_checker::score::Score;
use dns_checker::{compute_score, Encryption};

/// A score of `points` units.
fn points(points: u8) -> Score {
    Score {
        latency_halves: points,
        quality_thirds: 1,
        encryption_quarters: 1,
        recommendation_percent: 1,
    }
}

fn entry(address: &str, score: Option<u8>) -> DnsEntry {
    let mut entry = DnsEntry::new(address, Encryption::Full, 100, None);
    entry.score = score.map(points);
    entry
}

fn addresses(entries: &[DnsEntry]) -> Vec<&str> {
    entries.iter().map(|e| e.address.as_str()).collect()
}

#[test]
fn servers_at_the_start() {
    let entries = default_entries();
    let listed: Vec<(&str, Encryption, u8, Option<&str>)> = entries
        .iter()
        .map(|e| (e.address.as_str(), e.encryption, e.recommendation, e.doh.as_deref()))
        .collect();
    assert_eq!(
        listed,
        vec![
            ("223.5.5.5", Encryption::Full, 80, Some("https://dns.alidns.com/dns-query")),
            ("119.29.29.29", Encryption::Full, 95, Some("https://doh.pub/dns-query")),
            ("114.114.114.114", Encryption::Plain, 100, None),
            ("1.1.1.1", Encryption::Full, 100, Some("https://cloudflare-dns.com/dns-query")),
            ("8.8.8.8", Encryption::Full, 100, Some("https://dns.google/dns-query")),
            ("9.9.9.9", Encryption::Full, 100, Some("https://dns.quad9.net/dns-query")),
        ]
    );
    let urls: Vec<&str> = entries.iter().filter_map(|e| e.doh.as_deref()).collect();
    assert_eq!(urls, vec![DOH_ALIDNS, DOH_DNSPOD, DOH_CLOUDFLARE, DOH_GOOGLE, DOH_QUAD9]);
    assert!(entries
        .iter()
        .all(|e| e.dns_latency.is_none() && e.resolve_quality.is_none() && e.score.is_none()));
}

#[test]
fn servers_are_found_by_address() {
    let e = entry("8.8.8.8", None);
    assert!(e.matches("8.8.8.8"));
    assert!(!e.matches("8.8.8.8 "));
}

#[test]
fn ranking_puts_high_scores_first_and_unscored_last() {
    let mut entries = vec![
        entry("a", None),
        entry("b", Some(10)),
        entry("c", Some(30)),
        entry("d", None),
        entry("e", Some(20)),
        entry("f", Some(0)),
    ];
    sort_entries_by_score(&mut entries);
    assert_eq!(addresses(&entries), vec!["c", "e", "b", "f", "a", "d"]);
}

#[test]
fn ranking_keeps_the_order_of_equals() {
    let mut entries = vec![
        entry("a", Some(5)),
        entry("b", None),
        entry("c", Some(5)),
        entry("d", Some(9)),
        entry("e", None),
        entry("f", Some(5)),
    ];
    sort_entries_by_score(&mut entries);
    assert_eq!(addresses(&entries), vec!["d", "a", "c", "f", "b", "e"]);
    sort_entries_by_score(&mut entries);
    assert_eq!(addresses(&entries), vec!["d", "a", "c", "f", "b", "e"]);
}

#[test]
fn ranking_agrees_with_a_stable_sort() {
    let mut state: u64 = 7;
    for len in 0..40usize {
        let mut entries = Vec::new();
        let mut keys = Vec::new();
        for i in 0..len {
            state = state.wrapping_mul(6364136223846793005).wrapping_add(1442695040888963407);
            let key = ((state >> 60) % 5) as u8;
            let score = if key == 0 { None } else { Some(key) };
            entries.push(entry(&i.to_string(), score));
            keys.push((key, i.to_string()));
        }
        sort_entries_by_score(&mut entries);
        keys.sort_by_key(|k| 5 - k.0);
        let expected: Vec<&str> = keys.iter().map(|k| k.1.as_str()).collect();
        assert_eq!(addresses(&entries), expected);
    }
}

/// What counts is the product, not its factors.
#[test]
fn ranking_goes_by_the_score_as_a_whole() {
    let scored = |address: &str, latency: u128, quality: u128| {
        let mut e = entry(address, None);
        e.score = Some(compute_score(latency, quality, Encryption::Full, 100));
        e
    };
    let mut entries = vec![
        scored("a", 40, 70),
        scored("b", 50, 60),
        scored("c", 20, 30),
        scored("d", 60, 40),
        scored("e", 100, 120),
    ];
    sort_entries_by_score(&mut entries);
    assert_eq!(addresses(&entries), vec!["c", "a", "b", "d", "e"]);
}

#[test]
fn result_is_filled_in_for_the_first_server_at_its_address() {
    let mut entries = vec![entry("a", Some(1)), entry("b", Some(2)), entry("b", Some(3))];
    let result = TestResult {
        address: "b".to_string(),
        dns_latency: Some(12),
        resolve_quality: Some(34),
        score: None,
    };
    fill_in(&mut entries, &result);
    assert_eq!(entries[0].score, Some(points(1)));
    assert_eq!(entries[1].dns_latency, Some(12));
    assert_eq!(entries[1].resolve_quality, Some(34));
    assert_eq!(entries[1].score, None);
    assert_eq!(entries[2].score, Some(points(3)));
    assert_eq!(entries[2].dns_latency, None);
}

#[test]
fn result_for_an_unknown_address_changes_nothing() {
    let mut entries = vec![entry("a", Some(1))];
    let result = TestResult {
        address: "z".to_string(),
        dns_latency: Some(12),
        resolve_quality: Some(34),
        score: Some(points(5)),
    };
    fill_in(&mut entries, &result);
    assert_eq!(entries[0].score, Some(points(1)));
    assert_eq!(entries[0].dns_latency, None);
}
