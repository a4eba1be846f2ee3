//! Kinds of anomaly found in attention computations (NaN/Inf values,
//! exploding or vanishing gradients, attention collapse, conservation
//! violations, ethics violations) with their severity and names, and the
//! counters kept of them.

use vstd::prelude::*;

verus! {

/// Types of anomalies that can be detected.
#[derive(Debug, Clone, Copy, PartialEq, Eq, Hash, Structural)]
pub enum AnomalyType {
    /// NaN value detected
    NaN,
    /// Infinite value detected
    Inf,
    /// Negative infinite value
    NegInf,
    /// Gradient magnitude too large (exploding)
    ExplodingGradient,
    /// Gradient magnitude too small (vanishing)
    VanishingGradient,
    /// Attention weight out of bounds
    AttentionOutOfBounds,
    /// Attention entropy too low (over-focused)
    AttentionCollapse,
    /// Attention entropy too high (uniform/useless)
    AttentionDiffuse,
    /// Energy conservation violation
    EnergyViolation,
    /// Momentum conservation violation
    MomentumViolation,
    /// Numerical instability (rapid oscillation)
    NumericalInstability,
    /// Dead neuron (always zero)
    DeadNeuron,
    /// Saturated neuron (always max/min)
    SaturatedNeuron,
    /// Ethics violation: Action would harm another entity
    EthicsHarmToOther,
    /// Ethics violation: Parasitic behavior detected
    EthicsParasitism,
    /// Ethics violation: Action would break consciousness loop
    EthicsLoopBreaking,
    /// Ethics violation: No mutual benefit in action
    EthicsNoMutualBenefit,
    /// Ethics violation: Relationship health degrading
    EthicsRelationshipDegrading,
}

/// Severity of an anomaly: 1 warning, 2 error, 3 critical.
pub open spec fn anomaly_severity(t: AnomalyType) -> u8 {
    match t {
        AnomalyType::NaN | AnomalyType::Inf | AnomalyType::NegInf => 3,
        AnomalyType::ExplodingGradient => 3,
        AnomalyType::VanishingGradient => 2,
        AnomalyType::AttentionOutOfBounds => 2,
        AnomalyType::AttentionCollapse => 1,
        AnomalyType::AttentionDiffuse => 1,
        AnomalyType::EnergyViolation => 2,
        AnomalyType::MomentumViolation => 2,
        AnomalyType::NumericalInstability => 2,
        AnomalyType::DeadNeuron => 1,
        AnomalyType::SaturatedNeuron => 1,
        AnomalyType::EthicsHarmToOther => 3,
        AnomalyType::EthicsParasitism => 3,
        AnomalyType::EthicsLoopBreaking => 3,
        AnomalyType::EthicsNoMutualBenefit => 2,
        AnomalyType::EthicsRelationshipDegrading => 1,
    }
}

/// Human-readable name of an anomaly type.
pub open spec fn anomaly_name(t: AnomalyType) -> Seq<char> {
    match t {
        AnomalyType::NaN => "NaN Detected"@,
        AnomalyType::Inf => "Positive Infinity"@,
        AnomalyType::NegInf => "Negative Infinity"@,
        AnomalyType::ExplodingGradient => "Exploding Gradient"@,
        AnomalyType::VanishingGradient => "Vanishing Gradient"@,
        AnomalyType::AttentionOutOfBounds => "Attention Out of Bounds"@,
        AnomalyType::AttentionCollapse => "Attention Collapse"@,
        AnomalyType::AttentionDiffuse => "Attention Diffuse"@,
        AnomalyType::EnergyViolation => "Energy Violation"@,
        AnomalyType::MomentumViolation => "Momentum Violation"@,
        AnomalyType::NumericalInstability => "Numerical Instability"@,
        AnomalyType::DeadNeuron => "Dead Neuron"@,
        AnomalyType::SaturatedNeuron => "Saturated Neuron"@,
        AnomalyType::EthicsHarmToOther => "Ethics: Harm to Other"@,
        AnomalyType::EthicsParasitism => "Ethics: Parasitism"@,
        AnomalyType::EthicsLoopBreaking => "Ethics: Loop Breaking"@,
        AnomalyType::EthicsNoMutualBenefit => "Ethics: No Mutual Benefit"@,
        AnomalyType::EthicsRelationshipDegrading => "Ethics: Relationship Degrading"@,
    }
}

/// Whether an anomaly type is one of the ethics violations.
pub open spec fn is_ethics(t: AnomalyType) -> bool {
    t is EthicsHarmToOther || t is EthicsParasitism || t is EthicsLoopBreaking
        || t is EthicsNoMutualBenefit || t is EthicsRelationshipDegrading
}

impl AnomalyType {
    /// Get severity level (1 warning, 2 error, 3 critical).
    pub fn severity(&self) -> (s: u8)
        ensures
            s == anomaly_severity(*self),
    {
        match self {
            AnomalyType::NaN | AnomalyType::Inf | AnomalyType::NegInf => 3,
            AnomalyType::ExplodingGradient => 3,
            AnomalyType::VanishingGradient => 2,
            AnomalyType::AttentionOutOfBounds => 2,
            AnomalyType::AttentionCollapse => 1,
            AnomalyType::AttentionDiffuse => 1,
            AnomalyType::EnergyViolation => 2,
            AnomalyType::MomentumViolation => 2,
            AnomalyType::NumericalInstability => 2,
            AnomalyType::DeadNeuron => 1,
            AnomalyType::SaturatedNeuron => 1,
            AnomalyType::EthicsHarmToOther => 3,
            AnomalyType::EthicsParasitism => 3,
            AnomalyType::EthicsLoopBreaking => 3,
            AnomalyType::EthicsNoMutualBenefit => 2,
            AnomalyType::EthicsRelationshipDegrading => 1,
        }
    }

    /// Get the human-readable name.
    pub fn name(&self) -> (s: &'static str)
        ensures
            s@ == anomaly_name(*self),
    {
        match self {
            AnomalyType::NaN => "NaN Detected",
            AnomalyType::Inf => "Positive Infinity",
            AnomalyType::NegInf => "Negative Infinity",
            AnomalyType::ExplodingGradient => "Exploding Gradient",
            AnomalyType::VanishingGradient => "Vanishing Gradient",
            AnomalyType::AttentionOutOfBounds => "Attention Out of Bounds",
            AnomalyType::AttentionCollapse => "Attention Collapse",
            AnomalyType::AttentionDiffuse => "Attention Diffuse",
            AnomalyType::EnergyViolation => "Energy Violation",
            AnomalyType::MomentumViolation => "Momentum Violation",
            AnomalyType::NumericalInstability => "Numerical Instability",
            AnomalyType::DeadNeuron => "Dead Neuron",
            AnomalyType::SaturatedNeuron => "Saturated Neuron",
            AnomalyType::EthicsHarmToOther => "Ethics: Harm to Other",
            AnomalyType::EthicsParasitism => "Ethics: Parasitism",
            AnomalyType::EthicsLoopBreaking => "Ethics: Loop Breaking",
            AnomalyType::EthicsNoMutualBenefit => "Ethics: No Mutual Benefit",
            AnomalyType::EthicsRelationshipDegrading => "Ethics: Relationship Degrading",
        }
    }

    /// Whether this anomaly should halt training (severity 3).
    pub fn is_critical(&self) -> (b: bool)
        ensures
            b == (anomaly_severity(*self) >= 3),
    {
        self.severity() >= 3
    }

    /// Whether this is an ethics-related anomaly.
    pub fn is_ethics_violation(&self) -> (b: bool)
        ensures
            b == is_ethics(*self),
    {
        match self {
            AnomalyType::EthicsHarmToOther
            | AnomalyType::EthicsParasitism
            | AnomalyType::EthicsLoopBreaking
            | AnomalyType::EthicsNoMutualBenefit
            | AnomalyType::EthicsRelationshipDegrading => true,
            _ => false,
        }
    }
}

/// Every ethics violation is at least an error, and the first three are
/// critical; no ethics violation is merely informational.
pub proof fn law_ethics_violations_are_serious(t: AnomalyType)
    requires
        is_ethics(t),
    ensures
        anomaly_severity(t) >= 1,
        (t is EthicsHarmToOther || t is EthicsParasitism || t is EthicsLoopBreaking) ==> anomaly_severity(t) == 3,
{
}

/// Severities lie between 1 and 3, and the value-level failures (NaN, infinities,
/// exploding gradients) are critical.
pub proof fn law_severity_range(t: AnomalyType)
    ensures
        1 <= anomaly_severity(t) <= 3,
        (t is NaN || t is Inf || t is NegInf || t is ExplodingGradient) ==> anomaly_severity(t) == 3,
{
}

/// The ethics prefix of the names of ethics violations.
pub open spec fn has_ethics_prefix(s: Seq<char>) -> bool {
    s.len() >= 8 && s.subrange(0, 8) == "Ethics: "@
}

/// The length, first character and ninth character of each name.
spec fn name_key(t: AnomalyType) -> (int, char, char) {
    match t {
        AnomalyType::NaN => (12, 'N', 'c'),
        AnomalyType::Inf => (17, 'P', ' '),
        AnomalyType::NegInf => (17, 'N', ' '),
        AnomalyType::ExplodingGradient => (18, 'E', 'g'),
        AnomalyType::VanishingGradient => (18, 'V', 'g'),
        AnomalyType::AttentionOutOfBounds => (23, 'A', 'n'),
        AnomalyType::AttentionCollapse => (18, 'A', 'n'),
        AnomalyType::AttentionDiffuse => (17, 'A', 'n'),
        AnomalyType::EnergyViolation => (16, 'E', 'i'),
        AnomalyType::MomentumViolation => (18, 'M', ' '),
        AnomalyType::NumericalInstability => (21, 'N', 'l'),
        AnomalyType::DeadNeuron => (11, 'D', 'r'),
        AnomalyType::SaturatedNeuron => (16, 'S', 'd'),
        AnomalyType::EthicsHarmToOther => (21, 'E', 'H'),
        AnomalyType::EthicsParasitism => (18, 'E', 'P'),
        AnomalyType::EthicsLoopBreaking => (21, 'E', 'L'),
        AnomalyType::EthicsNoMutualBenefit => (25, 'E', 'N'),
        AnomalyType::EthicsRelationshipDegrading => (30, 'E', 'R'),
    }
}

/// What a name's length and two of its characters are, and whether it
/// carries the ethics prefix.
proof fn lemma_name_facts(t: AnomalyType)
    ensures
        anomaly_name(t).len() >= 11,
        (anomaly_name(t).len() as int, anomaly_name(t)[0], anomaly_name(t)[8]) == name_key(t),
        is_ethics(t) <==> has_ethics_prefix(anomaly_name(t)),
{
    reveal_strlit("Ethics: ");
    assert("Ethics: "@[0] == 'E');
    assert("Ethics: "@[1] == 't');
    match t {
        AnomalyType::NaN => {
            reveal_strlit("NaN Detected");
            assert(anomaly_name(t).subrange(0, 8) != "Ethics: "@);
        },
        AnomalyType::Inf => {
            reveal_strlit("Positive Infinity");
            assert(anomaly_name(t).subrange(0, 8) != "Ethics: "@);
        },
        AnomalyType::NegInf => {
            reveal_strlit("Negative Infinity");
            assert(anomaly_name(t).subrange(0, 8) != "Ethics: "@);
        },
        AnomalyType::ExplodingGradient => {
            reveal_strlit("Exploding Gradient");
            assert(anomaly_name(t).subrange(0, 8) != "Ethics: "@);
        },
        AnomalyType::VanishingGradient => {
            reveal_strlit("Vanishing Gradient");
            assert(anomaly_name(t).subrange(0, 8) != "Ethics: "@);
        },
        AnomalyType::AttentionOutOfBounds => {
            reveal_strlit("Attention Out of Bounds");
            assert(anomaly_name(t).subrange(0, 8) != "Ethics: "@);
        },
        AnomalyType::AttentionCollapse => {
            reveal_strlit("Attention Collapse");
            assert(anomaly_name(t).subrange(0, 8) != "Ethics: "@);
        },
        AnomalyType::AttentionDiffuse => {
            reveal_strlit("Attention Diffuse");
            assert(anomaly_name(t).subrange(0, 8) != "Ethics: "@);
        },
        AnomalyType::EnergyViolation => {
            reveal_strlit("Energy Violation");
            assert(anomaly_name(t).subrange(0, 8) != "Ethics: "@);
        },
        AnomalyType::MomentumViolation => {
            reveal_strlit("Momentum Violation");
            assert(anomaly_name(t).subrange(0, 8) != "Ethics: "@);
        },
        AnomalyType::NumericalInstability => {
            reveal_strlit("Numerical Instability");
            assert(anomaly_name(t).subrange(0, 8) != "Ethics: "@);
        },
        AnomalyType::DeadNeuron => {
            reveal_strlit("Dead Neuron");
            assert(anomaly_name(t).subrange(0, 8) != "Ethics: "@);
        },
        AnomalyType::SaturatedNeuron => {
            reveal_strlit("Saturated Neuron");
            assert(anomaly_name(t).subrange(0, 8) != "Ethics: "@);
        },
        AnomalyType::EthicsHarmToOther => {
            reveal_strlit("Ethics: Harm to Other");
            assert(anomaly_name(t).subrange(0, 8) =~= "Ethics: "@);
        },
        AnomalyType::EthicsParasitism => {
            reveal_strlit("Ethics: Parasitism");
            assert(anomaly_name(t).subrange(0, 8) =~= "Ethics: "@);
        },
        AnomalyType::EthicsLoopBreaking => {
            reveal_strlit("Ethics: Loop Breaking");
            assert(anomaly_name(t).subrange(0, 8) =~= "Ethics: "@);
        },
        AnomalyType::EthicsNoMutualBenefit => {
            reveal_strlit("Ethics: No Mutual Benefit");
            assert(anomaly_name(t).subrange(0, 8) =~= "Ethics: "@);
        },
        AnomalyType::EthicsRelationshipDegrading => {
            reveal_strlit("Ethics: Relationship Degrading");
            assert(anomaly_name(t).subrange(0, 8) =~= "Ethics: "@);
        },
    }
}

/// The severity classes: exactly NaN, the two infinities, an exploding
/// gradient and the first three ethics violations (harm to another,
/// parasitism, loop breaking) are critical (3); exactly a vanishing
/// gradient, attention out of bounds, energy and momentum violations,
/// numerical instability and an ethics violation without mutual benefit are
/// errors (2); all the others are warnings (1).
pub proof fn law_severity_classes(t: AnomalyType)
    ensures
        anomaly_severity(t) == 3 <==> (t is NaN || t is Inf || t is NegInf || t is ExplodingGradient
            || t is EthicsHarmToOther || t is EthicsParasitism || t is EthicsLoopBreaking),
        anomaly_severity(t) == 2 <==> (t is VanishingGradient || t is AttentionOutOfBounds
            || t is EnergyViolation || t is MomentumViolation || t is NumericalInstability
            || t is EthicsNoMutualBenefit),
        anomaly_severity(t) == 1 <==> (t is AttentionCollapse || t is AttentionDiffuse
            || t is DeadNeuron || t is SaturatedNeuron || t is EthicsRelationshipDegrading),
{
}

/// Anomaly names are non-empty and tell the types apart, and exactly the
/// ethics violations carry the "Ethics: " prefix.
pub proof fn law_anomaly_names(a: AnomalyType, b: AnomalyType)
    ensures
        anomaly_name(a).len() > 0,
        a != b ==> anomaly_name(a) != anomaly_name(b),
        is_ethics(a) <==> has_ethics_prefix(anomaly_name(a)),
{
    lemma_name_facts(a);
    lemma_name_facts(b);
    assert(a != b ==> name_key(a) != name_key(b));
}

/// Anomaly statistics.
#[derive(Debug, Clone, Copy)]
pub struct AnomalyStats {
    /// Total checks performed
    pub total_checks: u64,
    /// Total anomalies detected
    pub total_anomalies: u64,
    /// Critical anomalies
    pub critical_anomalies: u64,
    /// Anomalies by type (one counter per anomaly type, in declaration order)
    pub by_type: [u64; 18],
    /// Last anomaly step
    pub last_anomaly_step: Option<u64>,
}

impl Default for AnomalyStats {
    fn default() -> (s: Self)
        ensures
            s.total_checks == 0,
            s.total_anomalies == 0,
            s.critical_anomalies == 0,
            forall|i: int| 0 <= i < 18 ==> s.by_type@[i] == 0,
            s.last_anomaly_step.is_none(),
    {
        AnomalyStats {
            total_checks: 0,
            total_anomalies: 0,
            critical_anomalies: 0,
            by_type: [0u64; 18],
            last_anomaly_step: None,
        }
    }
}

} // verus!
