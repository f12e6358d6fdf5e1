use dns_checker::score::Score;
use dns_checker::{compute_score, Encryption};

/// The score as a number.
fn number(s: Score) -> f64 {
    (s.latency_halves as f64 / 2.0)
        * (s.quality_thirds as f64 / 3.0)
        * (s.encryption_quarters as f64 / 4.0)
        * (s.recommendation_percent as f64 / 100.0)
}

#[test]
fn encryption_factors() {
    assert_eq!(Encryption::Plain.factor() as f64 / 4.0, 0.5);
    assert_eq!(Encryption::Partial.factor() as f64 / 4.0, 0.75);
    assert_eq!(Encryption::Full.factor() as f64 / 4.0, 1.0);
}

/// (80-20)/2 * (100-30)/1.5 * 1.0 * 1.0 = 30 * (70/1.5) = 1400
#[test]
fn score_basic_full_encryption() {
    let s = number(compute_score(20, 30, Encryption::Full, 100));
    assert!((s - 1400.0).abs() < 1e-6, "got {}", s);
}

/// Without encryption the score is halved: 1400 -> 700
#[test]
fn score_none_encryption_halves() {
    let full = number(compute_score(20, 30, Encryption::Full, 100));
    let none = number(compute_score(20, 30, Encryption::Plain, 100));
    assert!((none - full * 0.5).abs() < 1e-6);
    assert!((none - 700.0).abs() < 1e-6);
}

/// Partial encryption: 1400 * 0.75 = 1050
#[test]
fn score_partial_encryption() {
    let s = number(compute_score(20, 30, Encryption::Partial, 100));
    assert!((s - 1050.0).abs() < 1e-6);
}

/// The recommendation scales linearly: 1.0 -> 1400, 0.5 -> 700
#[test]
fn score_recommendation_scales_linearly() {
    let base = number(compute_score(20, 30, Encryption::Full, 100));
    let half = number(compute_score(20, 30, Encryption::Full, 50));
    assert!((half - base * 0.5).abs() < 1e-6);
    assert!((half - 700.0).abs() < 1e-6);
}

/// The full score: 80/2 * 100/1.5 = 40 * (100/1.5) = 8000/3
#[test]
fn score_zero_latency_and_quality() {
    let s = number(compute_score(0, 0, Encryption::Full, 100));
    assert!((s - 8000.0 / 3.0).abs() < 1e-6);
}

/// A latency beyond the baseline makes its term 5, and the score stays positive:
/// 5 * (100-30)/1.5 * 1 * 1 = 5 * (70/1.5) = 700/3
#[test]
fn score_latency_exceeds_baseline_clamped_to_5() {
    let s = number(compute_score(100, 30, Encryption::Full, 100));
    assert!((s - 700.0 / 3.0).abs() < 1e-6, "got {}", s);
    assert!(s > 0.0);
}

/// A resolve quality beyond the baseline makes its term 5: (80-20)/2 * 5 * 1 * 1 = 30 * 5 = 150
#[test]
fn score_quality_exceeds_baseline_clamped_to_5() {
    let s = number(compute_score(20, 120, Encryption::Full, 100));
    assert!((s - 150.0).abs() < 1e-6, "got {}", s);
}

/// Both terms are 5: 5 * 5 * 1 * 1 = 25
#[test]
fn score_both_terms_clamped_to_5() {
    let s = number(compute_score(100, 120, Encryption::Full, 100));
    assert!((s - 25.0).abs() < 1e-6, "got {}", s);
}

#[test]
fn score_at_the_baselines_is_zero() {
    assert_eq!(number(compute_score(80, 30, Encryption::Full, 100)), 0.0);
    assert_eq!(number(compute_score(20, 100, Encryption::Full, 100)), 0.0);
    assert_eq!(
        compute_score(81, 101, Encryption::Partial, 95),
        Score {
            latency_halves: 10,
            quality_thirds: 15,
            encryption_quarters: 3,
            recommendation_percent: 95,
        }
    );
}

/// The fractions multiply out to what the formula gives in floating point, to the last bit.
#[test]
fn fractions_multiply_out_to_the_formula() {
    let term = |value: f64| if value < 0.0 { 5.0 } else { value };
    for latency in 0..=150u128 {
        for quality in 0..=150u128 {
            for (encryption, factor) in [
                (Encryption::Plain, 0.5),
                (Encryption::Partial, 0.75),
                (Encryption::Full, 1.0),
            ] {
                for (percent, recommendation) in [(80, 0.8), (95, 0.95), (100, 1.0)] {
                    let formula = term((80.0 - latency as f64) / 2.0)
                        * term((100.0 - quality as f64) / 1.5)
                        * factor
                        * recommendation;
                    let s = number(compute_score(latency, quality, encryption, percent));
                    assert_eq!(s.to_bits(), formula.to_bits());
                }
            }
        }
    }
}

/// The rank is the score in units of 1 / 2400, and a higher rank is a higher number. Equal ranks may
/// come with numbers that differ by a rounding error.
#[test]
fn rank_is_the_exact_score() {
    assert_eq!(compute_score(20, 30, Encryption::Full, 100).rank(), 1400 * 2400);
    assert_eq!(compute_score(0, 0, Encryption::Full, 255).rank(), 80 * 200 * 4 * 255);
    let mut scores = Vec::new();
    for latency in (0..=90u128).step_by(3) {
        for quality in (0..=110u128).step_by(7) {
            scores.push(compute_score(latency, quality, Encryption::Full, 95));
            scores.push(compute_score(latency, quality, Encryption::Plain, 80));
        }
    }
    for a in &scores {
        assert!((a.rank() as f64 / 2400.0 - number(*a)).abs() < 1e-9);
        for b in &scores {
            if a.rank() > b.rank() {
                assert!(number(*a) > number(*b));
            }
        }
    }
}

#[test]
fn rank_tells_equal_scores_from_rounding_errors() {
    let a = compute_score(20, 50, Encryption::Full, 100);
    let b = compute_score(30, 40, Encryption::Full, 100);
    assert_eq!(a.rank(), 1000 * 2400);
    assert_eq!(a.rank(), b.rank());
    assert!((number(a) - number(b)).abs() < 1e-9);
}

#[test]
fn score_does_not_fall_beyond_the_baselines() {
    let rank = |latency: u128, quality: u128| {
        compute_score(latency, quality, Encryption::Full, 100).rank()
    };
    assert!(rank(10, 500) > rank(20, 500));
    assert!(rank(70, 500) >= rank(81, 500));
    assert!(rank(71, 500) < rank(81, 500));
    assert!(rank(500, 92) >= rank(500, 101));
    assert!(rank(500, 93) < rank(500, 101));
}

#[test]
fn lower_is_better_within_the_baselines() {
    let best = number(compute_score(10, 10, Encryption::Full, 100));
    let slower = number(compute_score(11, 10, Encryption::Full, 100));
    let poorer = number(compute_score(10, 11, Encryption::Full, 100));
    assert!(best > slower);
    assert!(best > poorer);
}
