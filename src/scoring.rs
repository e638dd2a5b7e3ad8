use vstd::prelude::*;
use vstd::string::StringExecFns;
use crate::actor::Actor;
use crate::ratio::{half_sum_rounded, rounded_half_sum};
use crate::text::{decimal, push_decimal};
use vstd::arithmetic::div_mod::lemma_div_is_ordered;

verus! {

/// Thresholds of the scoring oracle, fixed when it is set up.
pub struct Config {
    /// Collateral at which the collateral threshold is met, in smallest units.
    pub min_collateral: u128,
    /// Trust level at which the trust threshold is met.
    pub min_trust: u64,
    /// Trust levels above this are treated as this.
    pub trust_cap: u64,
}

impl Default for Config {
    fn default() -> (r: Config)
        ensures
            r.min_collateral == 100_000,
            r.min_trust == 50,
            r.trust_cap == 100,
    {
        Config { min_collateral: 100_000, min_trust: 50, trust_cap: 100 }
    }
}

/// The outcome of scoring a borrower.
#[derive(Clone, Copy, Debug, PartialEq, Eq, Structural)]
pub enum Decision {
    Approve,
    Review,
    Reject,
}

pub open spec fn decision_label(d: Decision) -> Seq<char> {
    match d {
        Decision::Approve => "APPROVE"@,
        Decision::Review => "REVIEW"@,
        Decision::Reject => "REJECT"@,
    }
}

impl Decision {
    /// The decision's wire label: `APPROVE`, `REVIEW` or `REJECT`.
    pub fn label(&self) -> (r: String)
        ensures
            r@ == decision_label(*self),
    {
        match self {
            Decision::Approve => String::from_str("APPROVE"),
            Decision::Review => String::from_str("REVIEW"),
            Decision::Reject => String::from_str("REJECT"),
        }
    }
}

/// What the oracle answers: a decision, a score in `0..=100`, and the two
/// reasons behind it.
pub struct Recommendation {
    pub decision: Decision,
    pub score: u64,
    pub reasons: Vec<String>,
}

/// `trust` limited to `cap`.
pub open spec fn capped(trust: u64, cap: u64) -> u64 {
    if trust <= cap { trust } else { cap }
}

/// Numerator of `v / min` clamped to `[0, 1]`; a threshold of zero gives `1 / 1`.
pub open spec fn clamp_num(v: int, min: int) -> int {
    if min == 0 { 1 } else if v < min { v } else { min }
}

/// Denominator that goes with `clamp_num`.
pub open spec fn clamp_den(min: int) -> int {
    if min == 0 { 1 } else { min }
}

/// `round(50 * collateral_ratio + 50 * trust_ratio)`, rounding halves up.
pub open spec fn score_of(cfg: Config, collateral: u128, trust: u64) -> int {
    let t = capped(trust, cfg.trust_cap);
    half_sum_rounded(
        clamp_num(collateral as int, cfg.min_collateral as int),
        clamp_den(cfg.min_collateral as int),
        clamp_num(t as int, cfg.min_trust as int),
        clamp_den(cfg.min_trust as int),
    )
}

pub open spec fn decision_of(cfg: Config, collateral: u128, trust: u64) -> Decision {
    let t = capped(trust, cfg.trust_cap);
    if collateral >= cfg.min_collateral && t >= cfg.min_trust {
        Decision::Approve
    } else if collateral >= cfg.min_collateral / 2 || t >= cfg.min_trust {
        Decision::Review
    } else {
        Decision::Reject
    }
}

/// The reason line on the collateral threshold.
pub open spec fn collateral_reason(collateral: u128, min: u128) -> Seq<char> {
    "collateral "@ + decimal(collateral as nat) + (if collateral < min {
        " < min_collateral "@
    } else {
        " ≥ min_collateral "@
    }) + decimal(min as nat)
}

/// The reason line on the trust threshold, over the capped trust.
pub open spec fn trust_reason(trust: u64, min: u64) -> Seq<char> {
    "trust "@ + decimal(trust as nat) + (if trust < min {
        " < min_trust "@
    } else {
        " ≥ min_trust "@
    }) + decimal(min as nat)
}

/// Builds `head value op threshold`, with `op` chosen by comparing the two.
fn reason_line(head: &str, value: u128, below: &str, above: &str, min: u128) -> (r: String)
    ensures
        r@ == head@ + decimal(value as nat) + (if value < min { below@ } else { above@ }) + decimal(
            min as nat,
        ),
{
    let mut s = String::from_str(head);
    push_decimal(&mut s, value);
    if value < min {
        s.append(below);
    } else {
        s.append(above);
    }
    push_decimal(&mut s, min);
    s
}

impl Config {
    /// The default thresholds with each given value put in place of its default.
    pub fn with_overrides(
        min_collateral: Option<u128>,
        min_trust: Option<u64>,
        trust_cap: Option<u64>,
    ) -> (r: Config)
        ensures
            r.min_collateral == (match min_collateral {
                Some(v) => v,
                None => 100_000u128,
            }),
            r.min_trust == (match min_trust {
                Some(v) => v,
                None => 50u64,
            }),
            r.trust_cap == (match trust_cap {
                Some(v) => v,
                None => 100u64,
            }),
    {
        let mut cfg = Config::default();
        if let Some(v) = min_collateral {
            cfg.min_collateral = v;
        }
        if let Some(v) = min_trust {
            cfg.min_trust = v;
        }
        if let Some(v) = trust_cap {
            cfg.trust_cap = v;
        }
        cfg
    }

    /// Scores a borrower from their collateral and trust level. The borrower's
    /// identity takes no part in the result.
    pub fn recommend(&self, _actor: &Actor, collateral: u128, trust: u64) -> (r: Recommendation)
        ensures
            r.decision == decision_of(*self, collateral, trust),
            r.score == score_of(*self, collateral, trust),
            r.score <= 100,
            r.reasons@.len() == 2,
            r.reasons@[0]@ == collateral_reason(collateral, self.min_collateral),
            r.reasons@[1]@ == trust_reason(capped(trust, self.trust_cap), self.min_trust),
    {
        let min_collateral = self.min_collateral;
        let min_trust = self.min_trust;
        let t = if trust <= self.trust_cap { trust } else { self.trust_cap };

        let (ca, cb) = if min_collateral == 0 {
            (1u128, 1u128)
        } else if collateral < min_collateral {
            (collateral, min_collateral)
        } else {
            (min_collateral, min_collateral)
        };
        let (ta, tb) = if min_trust == 0 {
            (1u64, 1u64)
        } else if t < min_trust {
            (t, min_trust)
        } else {
            (min_trust, min_trust)
        };
        let score = rounded_half_sum(ca, cb, ta, tb);

        let mut reasons: Vec<String> = Vec::new();
        reasons.push(
            reason_line("collateral ", collateral, " < min_collateral ", " ≥ min_collateral ", min_collateral),
        );
        reasons.push(reason_line("trust ", t as u128, " < min_trust ", " ≥ min_trust ", min_trust as u128));

        let decision = if collateral >= min_collateral && t >= min_trust {
            Decision::Approve
        } else if collateral >= min_collateral / 2 || t >= min_trust {
            Decision::Review
        } else {
            Decision::Reject
        };
        Recommendation { decision, score, reasons }
    }
}

/// With a trust cap no lower than the trust threshold: meeting both
/// thresholds approves, falling short of half the collateral threshold and of
/// the trust threshold rejects, and everything in between is sent to review.
pub proof fn lemma_decision_bands(cfg: Config, collateral: u128, trust: u64)
    requires
        cfg.min_trust <= cfg.trust_cap,
    ensures
        collateral >= cfg.min_collateral && trust >= cfg.min_trust ==> decision_of(cfg, collateral, trust)
            == Decision::Approve,
        collateral < cfg.min_collateral / 2 && trust < cfg.min_trust ==> decision_of(cfg, collateral, trust)
            == Decision::Reject,
        !(collateral >= cfg.min_collateral && trust >= cfg.min_trust) && !(collateral
            < cfg.min_collateral / 2 && trust < cfg.min_trust) ==> decision_of(cfg, collateral, trust)
            == Decision::Review,
{
}

/// The score never drops when collateral or trust grows.
pub proof fn lemma_score_monotone(cfg: Config, c1: u128, c2: u128, t1: u64, t2: u64)
    requires
        c1 <= c2,
        t1 <= t2,
    ensures
        score_of(cfg, c1, t1) <= score_of(cfg, c2, t2),
{
    let b = clamp_den(cfg.min_collateral as int);
    let d = clamp_den(cfg.min_trust as int);
    let a1 = clamp_num(c1 as int, cfg.min_collateral as int);
    let a2 = clamp_num(c2 as int, cfg.min_collateral as int);
    let x1 = clamp_num(capped(t1, cfg.trust_cap) as int, cfg.min_trust as int);
    let x2 = clamp_num(capped(t2, cfg.trust_cap) as int, cfg.min_trust as int);
    assert(a1 <= a2 && x1 <= x2);
    let n1 = 100 * a1 * d + 100 * x1 * b + b * d;
    let n2 = 100 * a2 * d + 100 * x2 * b + b * d;
    assert(0 <= n1 <= n2) by (nonlinear_arith)
        requires n1 == 100 * a1 * d + 100 * x1 * b + b * d, n2 == 100 * a2 * d + 100 * x2 * b + b * d,
            0 <= a1 <= a2, 0 <= x1 <= x2, b > 0, d > 0;
    assert(2 * b * d > 0) by (nonlinear_arith)
        requires b > 0, d > 0;
    lemma_div_is_ordered(n1, n2, 2 * b * d);
}

/// A borrower with no collateral is never approved while a collateral
/// threshold is set; one whose capped trust meets the trust threshold is sent
/// to review.
pub proof fn lemma_no_collateral_never_approved(cfg: Config, trust: u64)
    requires
        cfg.min_collateral > 0,
    ensures
        decision_of(cfg, 0, trust) != Decision::Approve,
        capped(trust, cfg.trust_cap) >= cfg.min_trust ==> decision_of(cfg, 0, trust)
            == Decision::Review,
{
}

} // verus!
