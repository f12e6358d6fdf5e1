//! The score of a DNS server, out of its latency, the quality of its answers, its support for
//! encryption and a recommendation.
//!
//! A score is a product of four fractions, computed here exactly. Showing it with decimals is left
//! to the caller.

use vstd::prelude::*;

verus! {

/// How far a DNS server supports encryption.
#[derive(Debug, Clone, Copy, PartialEq, Eq, Structural)]
pub enum Encryption {
    /// Not at all: plain DNS.
    Plain,
    /// In part.
    Partial,
    /// Fully, as with DNS over TLS or over HTTPS.
    Full,
}

/// The factor of an encryption in a score, in quarters: a half, three quarters or one.
pub open spec fn encryption_quarters(encryption: Encryption) -> nat {
    match encryption {
        Encryption::Plain => 2,
        Encryption::Partial => 3,
        Encryption::Full => 4,
    }
}

impl Encryption {
    /// The factor of the encryption in a score, in quarters: a half, three quarters or one.
    pub fn factor(self) -> (quarters: u8)
        ensures
            quarters == encryption_quarters(self),
            self is Plain ==> quarters == 2,
            self is Partial ==> quarters == 3,
            self is Full ==> quarters == 4,
    {
        match self {
            Encryption::Plain => 2,
            Encryption::Partial => 3,
            Encryption::Full => 4,
        }
    }
}

/// The latency, in milliseconds, beyond which the latency term is at its floor.
pub const LATENCY_BASELINE: u128 = 80;

/// The resolve quality, in milliseconds, beyond which the quality term is at its floor.
pub const QUALITY_BASELINE: u128 = 100;

/// A score: the product of `latency_halves / 2`, `quality_thirds / 3`, `encryption_quarters / 4`
/// and `recommendation_percent / 100`. The larger, the better.
#[derive(Debug, Clone, Copy, PartialEq, Eq, Structural)]
pub struct Score {
    pub latency_halves: u8,
    pub quality_thirds: u8,
    pub encryption_quarters: u8,
    pub recommendation_percent: u8,
}

/// The latency term, in halves: `(80 - latency) / 2`, or 5 where that is negative.
pub open spec fn latency_term(latency: u128) -> nat {
    if latency <= LATENCY_BASELINE {
        (LATENCY_BASELINE - latency) as nat
    } else {
        10
    }
}

/// The quality term, in thirds: `(100 - quality) / 1.5`, or 5 where that is negative.
pub open spec fn quality_term(quality: u128) -> nat {
    if quality <= QUALITY_BASELINE {
        (2 * (QUALITY_BASELINE - quality)) as nat
    } else {
        15
    }
}

impl Score {
    /// The value of the score, as a multiple of `1 / 2400`.
    pub open spec fn value(self) -> nat {
        self.latency_halves as nat * self.quality_thirds as nat * self.encryption_quarters as nat
            * self.recommendation_percent as nat
    }

    /// The value of the score, as a multiple of `1 / 2400`. Scores that are equal rank equal, also
    /// where their fractions, multiplied out in floating point, would differ by a rounding error: 60
    /// halves and 100 thirds, say, against 50 halves and 120 thirds.
    pub fn rank(&self) -> (rank: u32)
        ensures
            rank == self.value(),
            rank == self.latency_halves * self.quality_thirds * self.encryption_quarters
                * self.recommendation_percent,
    {
        let l: u32 = self.latency_halves as u32;
        let q: u32 = self.quality_thirds as u32;
        let e: u32 = self.encryption_quarters as u32;
        let r: u32 = self.recommendation_percent as u32;
        assert(l * q <= 255 * 255) by (nonlinear_arith)
            requires
                l <= 255,
                q <= 255,
        ;
        assert(l * q * e <= 255 * 255 * 255) by (nonlinear_arith)
            requires
                l * q <= 255 * 255,
                e <= 255,
        ;
        assert(l * q * e * r <= 255 * 255 * 255 * 255) by (nonlinear_arith)
            requires
                l * q * e <= 255 * 255 * 255,
                r <= 255,
        ;
        l * q * e * r
    }
}

/// The score of a server with the latency `dns_latency` and the resolve quality `resolve_quality`,
/// both in milliseconds and the less the better, and the recommendation `recommendation`, in
/// percent.
pub fn compute_score(
    dns_latency: u128,
    resolve_quality: u128,
    encryption: Encryption,
    recommendation: u8,
) -> (score: Score)
    ensures
        score.latency_halves == latency_term(dns_latency),
        score.quality_thirds == quality_term(resolve_quality),
        score.encryption_quarters == encryption_quarters(encryption),
        score.recommendation_percent == recommendation,
        dns_latency <= 80 ==> score.latency_halves == 80 - dns_latency,
        dns_latency > 80 ==> score.latency_halves == 10,
        resolve_quality <= 100 ==> score.quality_thirds == 2 * (100 - resolve_quality),
        resolve_quality > 100 ==> score.quality_thirds == 15,
        encryption is Plain ==> score.encryption_quarters == 2,
        encryption is Partial ==> score.encryption_quarters == 3,
        encryption is Full ==> score.encryption_quarters == 4,
{
    let latency_halves: u8 = if dns_latency <= LATENCY_BASELINE {
        (LATENCY_BASELINE - dns_latency) as u8
    } else {
        10
    };
    let quality_thirds: u8 = if resolve_quality <= QUALITY_BASELINE {
        (2 * (QUALITY_BASELINE - resolve_quality)) as u8
    } else {
        15
    };
    Score {
        latency_halves,
        quality_thirds,
        encryption_quarters: encryption.factor(),
        recommendation_percent: recommendation,
    }
}

/// The score, as a multiple of `1 / 2400`, that a server with these properties gets.
pub open spec fn score_value(
    latency: u128,
    quality: u128,
    encryption: Encryption,
    recommendation: u8,
) -> nat {
    latency_term(latency) * quality_term(quality) * encryption_quarters(encryption)
        * recommendation as nat
}

/// The fractions multiply out to the value of the score.
pub proof fn law_score_has_value(
    score: Score,
    latency: u128,
    quality: u128,
    encryption: Encryption,
    recommendation: u8,
)
    requires
        score.latency_halves == latency_term(latency),
        score.quality_thirds == quality_term(quality),
        score.encryption_quarters == encryption_quarters(encryption),
        score.recommendation_percent == recommendation,
    ensures
        score.value() == score_value(latency, quality, encryption, recommendation),
{
}

/// Without encryption a server gets half the score of one with full encryption, and with partial
/// encryption three quarters of it.
pub proof fn law_encryption_scales(latency: u128, quality: u128, recommendation: u8)
    ensures
        2 * score_value(latency, quality, Encryption::Plain, recommendation) == score_value(
            latency,
            quality,
            Encryption::Full,
            recommendation,
        ),
        4 * score_value(latency, quality, Encryption::Partial, recommendation) == 3 * score_value(
            latency,
            quality,
            Encryption::Full,
            recommendation,
        ),
{
    let p = latency_term(latency) * quality_term(quality);
    let r = recommendation as nat;
    assert(2 * (p * 2 * r) == p * 4 * r) by (nonlinear_arith);
    assert(4 * (p * 3 * r) == 3 * (p * 4 * r)) by (nonlinear_arith);
}

/// The score is proportional to the recommendation.
pub proof fn law_recommendation_scales(
    latency: u128,
    quality: u128,
    encryption: Encryption,
    a: u8,
    b: u8,
)
    ensures
        score_value(latency, quality, encryption, a) * b as nat == score_value(
            latency,
            quality,
            encryption,
            b,
        ) * a as nat,
{
    let p = latency_term(latency) * quality_term(quality) * encryption_quarters(encryption);
    assert((p * a as nat) * b as nat == (p * b as nat) * a as nat) by (nonlinear_arith);
}

/// A lower latency or a lower resolve quality never lowers the score, but for one case: just within
/// its baseline a term falls below 5, which is what it is beyond the baseline.
pub proof fn law_lower_is_better(
    latency: u128,
    quality: u128,
    lower_latency: u128,
    lower_quality: u128,
    encryption: Encryption,
    recommendation: u8,
)
    requires
        lower_latency <= latency,
        lower_quality <= quality,
        !(70 < lower_latency <= LATENCY_BASELINE < latency),
        !(92 < lower_quality <= QUALITY_BASELINE < quality),
    ensures
        score_value(latency, quality, encryption, recommendation) <= score_value(
            lower_latency,
            lower_quality,
            encryption,
            recommendation,
        ),
{
    let l = latency_term(latency);
    let q = quality_term(quality);
    let ll = latency_term(lower_latency);
    let lq = quality_term(lower_quality);
    let e = encryption_quarters(encryption);
    let r = recommendation as nat;
    assert(l * q * e * r <= ll * lq * e * r) by (nonlinear_arith)
        requires
            l <= ll,
            q <= lq,
    ;
}

/// Beyond a baseline, it does not matter how far: the term is 5.
pub proof fn law_beyond_baseline_is_floor(latency: u128, quality: u128)
    ensures
        latency > LATENCY_BASELINE ==> latency_term(latency) == 2 * 5,
        quality > QUALITY_BASELINE ==> quality_term(quality) == 3 * 5,
{
}

/// The score, told over what is measured and set: 80 less the latency, halved, or 5 beyond 80; 100
/// less the quality, divided by one and a half, or 5 beyond 100; the share of the encryption; the
/// recommendation in percent. All four are multiplied, and 2400 is the product of the denominators.
pub proof fn law_score_by_formula(
    latency: u128,
    quality: u128,
    encryption: Encryption,
    recommendation: u8,
)
    ensures
        ({
            let l: int = if latency <= 80 {
                80 - latency
            } else {
                10
            };
            let q: int = if quality <= 100 {
                2 * (100 - quality)
            } else {
                15
            };
            let e: int = match encryption {
                Encryption::Plain => 2,
                Encryption::Partial => 3,
                Encryption::Full => 4,
            };
            score_value(latency, quality, encryption, recommendation) == l * q * e * recommendation
        }),
{
}

/// The value of a score is the product of its four parts.
pub proof fn law_value_is_product(score: Score)
    ensures
        score.value() == score.latency_halves * score.quality_thirds * score.encryption_quarters
            * score.recommendation_percent,
{
}

/// Of two scores that differ in the latency part only, the one with more of it is worth at least as
/// much, and more if the other parts are not zero.
pub proof fn law_better_latency_is_worth_more(score: Score, more: u8)
    requires
        score.latency_halves < more,
    ensures
        score.value() <= (Score { latency_halves: more, ..score }).value(),
        score.quality_thirds > 0 && score.encryption_quarters > 0 && score.recommendation_percent
            > 0 ==> score.value() < (Score { latency_halves: more, ..score }).value(),
{
    let a = score.latency_halves as int;
    let b = more as int;
    let q = score.quality_thirds as int;
    let e = score.encryption_quarters as int;
    let r = score.recommendation_percent as int;
    assert(a * q * e * r <= b * q * e * r) by (nonlinear_arith)
        requires
            0 <= a < b,
            q >= 0,
            e >= 0,
            r >= 0,
    ;
    if q > 0 && e > 0 && r > 0 {
        assert(a * q * e * r < b * q * e * r) by (nonlinear_arith)
            requires
                0 <= a < b,
                q > 0,
                e > 0,
                r > 0,
        ;
    }
}

} // verus!
