//! AC metrics, their minimum targets, and the selection of metrics an
//! adaptive analysis computes. Real values are binary64 bit patterns.
use vstd::prelude::*;

use crate::value::{finite_value, is_finite_value, order_key, value_le, value_lt};

verus! {

/// One AC metric.
#[derive(Debug, Clone, Copy, PartialEq, Eq, Structural)]
pub enum AcMetric {
    DcGainDb,
    Bandwidth3DbHz,
    UnityGainHz,
    PhaseMarginDeg,
}

/// The bit that stands for a metric in an [`AcMetricSet`].
pub open spec fn metric_bit(metric: AcMetric) -> u8 {
    match metric {
        AcMetric::DcGainDb => 1,
        AcMetric::Bandwidth3DbHz => 2,
        AcMetric::UnityGainHz => 4,
        AcMetric::PhaseMarginDeg => 8,
    }
}

impl AcMetric {
    /// Returns the short label of the metric.
    pub fn label(self) -> (label: &'static str)
        ensures
            label@ == match self {
                AcMetric::DcGainDb => "GainDC"@,
                AcMetric::Bandwidth3DbHz => "f3dB"@,
                AcMetric::UnityGainHz => "UGF"@,
                AcMetric::PhaseMarginDeg => "PM"@,
            },
    {
        match self {
            AcMetric::DcGainDb => "GainDC",
            AcMetric::Bandwidth3DbHz => "f3dB",
            AcMetric::UnityGainHz => "UGF",
            AcMetric::PhaseMarginDeg => "PM",
        }
    }

    /// Returns the bit of the metric.
    pub fn bit(self) -> (bit: u8)
        ensures
            bit == metric_bit(self),
    {
        match self {
            AcMetric::DcGainDb => 1,
            AcMetric::Bandwidth3DbHz => 2,
            AcMetric::UnityGainHz => 4,
            AcMetric::PhaseMarginDeg => 8,
        }
    }
}

/// A set of AC metrics, one bit per metric.
#[derive(Debug, Clone, Copy, PartialEq, Eq, Structural)]
pub struct AcMetricSet(u8);

/// The metrics of a set.
pub open spec fn metric_set_view(set: AcMetricSet) -> Set<AcMetric> {
    set.view()
}

impl AcMetricSet {
    /// The metrics whose bit is set.
    pub closed spec fn view(self) -> Set<AcMetric> {
        Set::new(|metric: AcMetric| self.0 & metric_bit(metric) != 0)
    }

    /// Only the four metric bits are ever set.
    #[verifier::type_invariant]
    spec fn only_metric_bits(self) -> bool {
        self.0 & 0xf0 == 0
    }
}

/// The bits of the four metrics are distinct single bits.
proof fn lemma_bits(x: u8)
    ensures
        (x | 1) & 1 != 0,
        (x | 2) & 2 != 0,
        (x | 4) & 4 != 0,
        (x | 8) & 8 != 0,
        (x | 1) & 2 == x & 2,
        (x | 1) & 4 == x & 4,
        (x | 1) & 8 == x & 8,
        (x | 2) & 1 == x & 1,
        (x | 2) & 4 == x & 4,
        (x | 2) & 8 == x & 8,
        (x | 4) & 1 == x & 1,
        (x | 4) & 2 == x & 2,
        (x | 4) & 8 == x & 8,
        (x | 8) & 1 == x & 1,
        (x | 8) & 2 == x & 2,
        (x | 8) & 4 == x & 4,
        0u8 & 1 == 0,
        0u8 & 2 == 0,
        0u8 & 4 == 0,
        0u8 & 8 == 0,
        x & 15 == 0 ==> x & 1 == 0 && x & 2 == 0 && x & 4 == 0 && x & 8 == 0,
        15u8 & 1 != 0 && 15u8 & 2 != 0 && 15u8 & 4 != 0 && 15u8 & 8 != 0,
{
    assert((x | 1) & 1 != 0) by (bit_vector);
    assert((x | 2) & 2 != 0) by (bit_vector);
    assert((x | 4) & 4 != 0) by (bit_vector);
    assert((x | 8) & 8 != 0) by (bit_vector);
    assert((x | 1) & 2 == x & 2) by (bit_vector);
    assert((x | 1) & 4 == x & 4) by (bit_vector);
    assert((x | 1) & 8 == x & 8) by (bit_vector);
    assert((x | 2) & 1 == x & 1) by (bit_vector);
    assert((x | 2) & 4 == x & 4) by (bit_vector);
    assert((x | 2) & 8 == x & 8) by (bit_vector);
    assert((x | 4) & 1 == x & 1) by (bit_vector);
    assert((x | 4) & 2 == x & 2) by (bit_vector);
    assert((x | 4) & 8 == x & 8) by (bit_vector);
    assert((x | 8) & 1 == x & 1) by (bit_vector);
    assert((x | 8) & 2 == x & 2) by (bit_vector);
    assert((x | 8) & 4 == x & 4) by (bit_vector);
    assert(0u8 & 1 == 0 && 0u8 & 2 == 0 && 0u8 & 4 == 0 && 0u8 & 8 == 0) by (bit_vector);
    assert(x & 15 == 0 ==> x & 1 == 0 && x & 2 == 0 && x & 4 == 0 && x & 8 == 0) by (bit_vector);
    assert(15u8 & 1 != 0 && 15u8 & 2 != 0 && 15u8 & 4 != 0 && 15u8 & 8 != 0) by (bit_vector);
}

impl Default for AcMetricSet {
    /// The empty selection.
    fn default() -> (set: Self)
        ensures
            metric_set_view(set) == Set::<AcMetric>::empty(),
    {
        AcMetricSet::empty()
    }
}

impl AcMetricSet {
    /// The empty selection.
    pub fn empty() -> (set: Self)
        ensures
            metric_set_view(set) == Set::<AcMetric>::empty(),
    {
        proof {
            lemma_bits(0);
        }
        assert(0u8 & 0xf0 == 0) by (bit_vector);
        let set = AcMetricSet(0);
        assert(metric_set_view(set) =~= Set::<AcMetric>::empty());
        set
    }

    /// Every metric.
    pub fn all() -> (set: Self)
        ensures
            metric_set_view(set) == Set::<AcMetric>::full(),
    {
        proof {
            lemma_bits(0);
        }
        assert(15u8 & 0xf0 == 0) by (bit_vector);
        let set = AcMetricSet(15);
        assert(metric_set_view(set) =~= Set::<AcMetric>::full());
        set
    }

    /// The selection of one metric.
    pub fn from_metric(metric: AcMetric) -> (set: Self)
        ensures
            metric_set_view(set) == set![metric],
    {
        proof {
            lemma_bits(0);
        }
        let b = metric.bit();
        assert(b == 1 || b == 2 || b == 4 || b == 8);
        assert((b == 1 || b == 2 || b == 4 || b == 8) ==> b & 0xf0 == 0) by (bit_vector);
        let set = AcMetricSet(b);
        assert(0u8 | b == b) by (bit_vector);
        assert(metric_set_view(set) =~= set![metric]);
        set
    }

    /// The selection with one more metric.
    pub fn with(self, metric: AcMetric) -> (set: Self)
        ensures
            metric_set_view(set) == metric_set_view(self).insert(metric),
    {
        proof {
            use_type_invariant(&self);
            lemma_bits(self.0);
        }
        let x = self.0;
        let b = metric.bit();
        assert(b == 1 || b == 2 || b == 4 || b == 8);
        assert(x & 0xf0 == 0 && (b == 1 || b == 2 || b == 4 || b == 8) ==> (x | b) & 0xf0 == 0) by (bit_vector);
        let set = AcMetricSet(x | b);
        assert(metric_set_view(set) =~= metric_set_view(self).insert(metric));
        set
    }

    /// Returns whether the metric is selected.
    pub fn contains(self, metric: AcMetric) -> (found: bool)
        ensures
            found == metric_set_view(self).contains(metric),
    {
        self.0 & metric.bit() != 0
    }

    /// Returns whether no metric is selected.
    pub fn is_empty(self) -> (empty: bool)
        ensures
            empty == (metric_set_view(self) == Set::<AcMetric>::empty()),
    {
        proof {
            use_type_invariant(&self);
        }
        let x = self.0;
        proof {
            lemma_bits(x);
            if x != 0 {
                assert(x & 0xf0 == 0 && x != 0 ==> x & 1 != 0 || x & 2 != 0 || x & 4 != 0 || x & 8 != 0) by (bit_vector);
                if x & 1 != 0 {
                    assert(metric_set_view(self).contains(AcMetric::DcGainDb));
                } else if x & 2 != 0 {
                    assert(metric_set_view(self).contains(AcMetric::Bandwidth3DbHz));
                } else if x & 4 != 0 {
                    assert(metric_set_view(self).contains(AcMetric::UnityGainHz));
                } else {
                    assert(metric_set_view(self).contains(AcMetric::PhaseMarginDeg));
                }
            } else {
                assert(metric_set_view(self) =~= Set::<AcMetric>::empty());
            }
        }
        x == 0
    }
}


/// Evaluated AC metrics; `None` where a metric is unavailable.
#[derive(Debug, Clone, Copy, PartialEq, Eq, Structural)]
pub struct AcMetrics {
    pub dc_gain_db: Option<u64>,
    pub bandwidth_3db_hz: Option<u64>,
    pub unity_gain_hz: Option<u64>,
    pub phase_margin_deg: Option<u64>,
}

/// Minimum targets; `None` disables a target.
#[derive(Debug, Clone, Copy, PartialEq, Eq, Structural)]
pub struct AnalysisTargets {
    pub min_dc_gain_db: Option<u64>,
    pub min_bandwidth_3db_hz: Option<u64>,
    pub min_unity_gain_hz: Option<u64>,
    pub min_phase_margin_deg: Option<u64>,
}

/// Whether an analysis stops at the first failed target.
#[derive(Debug, Clone, Copy, PartialEq, Eq, Structural)]
pub enum AnalysisMode {
    Prune,
    FullInsight,
}

/// A metric that missed its minimum, with the finite value it had, if any.
#[derive(Debug, Clone, Copy, PartialEq, Eq, Structural)]
pub struct TargetFailure {
    pub metric: AcMetric,
    pub minimum: u64,
    pub actual: Option<u64>,
}

/// The failed targets of an assessment, in check order.
#[derive(Debug, Clone, PartialEq)]
pub struct TargetAssessment {
    failures: Vec<TargetFailure>,
}

/// A minimum target that is not finite, or not positive for a frequency.
#[derive(Debug, Clone, Copy, PartialEq, Eq, Structural)]
pub struct InvalidTarget {
    pub metric: AcMetric,
    pub value: u64,
}

/// The target of a metric.
pub open spec fn target_of(targets: AnalysisTargets, metric: AcMetric) -> Option<u64> {
    match metric {
        AcMetric::DcGainDb => targets.min_dc_gain_db,
        AcMetric::Bandwidth3DbHz => targets.min_bandwidth_3db_hz,
        AcMetric::UnityGainHz => targets.min_unity_gain_hz,
        AcMetric::PhaseMarginDeg => targets.min_phase_margin_deg,
    }
}

/// The finite value, if any.
pub open spec fn finite_only(actual: Option<u64>) -> Option<u64> {
    match actual {
        Some(v) => if finite_value(v) {
            Some(v)
        } else {
            None
        },
        None => None,
    }
}

/// The failures of one target check: none when the target is disabled; one
/// when the value is unavailable, not finite, or below the minimum.
pub open spec fn check_failures(metric: AcMetric, minimum: Option<u64>, actual: Option<u64>) -> Seq<TargetFailure> {
    match minimum {
        None => Seq::empty(),
        Some(min) => {
            let value = finite_only(actual);
            match value {
                Some(v) => if order_key(v) < order_key(min) {
                    seq![TargetFailure { metric, minimum: min, actual: value }]
                } else {
                    Seq::empty()
                },
                None => seq![TargetFailure { metric, minimum: min, actual: None }],
            }
        },
    }
}

/// The failures of the frequency targets, in metric order.
pub open spec fn frequency_failures(targets: AnalysisTargets, metrics: AcMetrics) -> Seq<TargetFailure> {
    check_failures(AcMetric::Bandwidth3DbHz, targets.min_bandwidth_3db_hz, metrics.bandwidth_3db_hz)
        + check_failures(AcMetric::UnityGainHz, targets.min_unity_gain_hz, metrics.unity_gain_hz)
        + check_failures(AcMetric::PhaseMarginDeg, targets.min_phase_margin_deg, metrics.phase_margin_deg)
}

/// A target is invalid when it is not finite, or, for a frequency, when it
/// is not positive.
pub open spec fn target_invalid(value: u64, positive: bool) -> bool {
    !finite_value(value) || (positive && order_key(value) <= 0)
}

/// The first invalid target, in metric order.
pub open spec fn first_invalid_target(targets: AnalysisTargets) -> Option<InvalidTarget> {
    if targets.min_dc_gain_db is Some && target_invalid(targets.min_dc_gain_db->0, false) {
        Some(InvalidTarget { metric: AcMetric::DcGainDb, value: targets.min_dc_gain_db->0 })
    } else if targets.min_bandwidth_3db_hz is Some && target_invalid(targets.min_bandwidth_3db_hz->0, true) {
        Some(InvalidTarget { metric: AcMetric::Bandwidth3DbHz, value: targets.min_bandwidth_3db_hz->0 })
    } else if targets.min_unity_gain_hz is Some && target_invalid(targets.min_unity_gain_hz->0, true) {
        Some(InvalidTarget { metric: AcMetric::UnityGainHz, value: targets.min_unity_gain_hz->0 })
    } else if targets.min_phase_margin_deg is Some && target_invalid(targets.min_phase_margin_deg->0, false) {
        Some(InvalidTarget { metric: AcMetric::PhaseMarginDeg, value: targets.min_phase_margin_deg->0 })
    } else {
        None
    }
}

/// Checks one target.
fn validate_target(metric: AcMetric, minimum: Option<u64>, positive: bool) -> (result: Result<(), InvalidTarget>)
    ensures
        match minimum {
            Some(v) => if target_invalid(v, positive) {
                result == Err::<(), InvalidTarget>(InvalidTarget { metric, value: v })
            } else {
                result is Ok
            },
            None => result is Ok,
        },
{
    match minimum {
        None => Ok(()),
        Some(value) => {
            if !is_finite_value(value) || (positive && value_le(value, 0)) {
                Err(InvalidTarget { metric, value })
            } else {
                Ok(())
            }
        },
    }
}

impl TargetAssessment {
    /// The failures, in check order.
    pub closed spec fn view(&self) -> Seq<TargetFailure> {
        self.failures@
    }

    /// An assessment without failures.
    pub fn new() -> (assessment: Self)
        ensures
            assessment.view() == Seq::<TargetFailure>::empty(),
    {
        TargetAssessment { failures: Vec::new() }
    }

    /// Returns whether every target passed.
    pub fn passed(&self) -> (passed: bool)
        ensures
            passed == (self.view().len() == 0),
    {
        self.failures.len() == 0
    }

    /// Returns the failures.
    pub fn failures(&self) -> (failures: &[TargetFailure])
        ensures
            failures@ == self.view(),
    {
        self.failures.as_slice()
    }

    /// Appends the failures of another assessment.
    pub fn extend(&mut self, other: Self)
        ensures
            final(self).view() == old(self).view() + other.view(),
    {
        let mut other = other;
        let mut tail: Vec<TargetFailure> = Vec::new();
        std::mem::swap(&mut tail, &mut other.failures);
        self.failures.append(&mut tail);
    }

    /// Records a failure when a target misses.
    fn check(&mut self, metric: AcMetric, minimum: Option<u64>, actual: Option<u64>)
        ensures
            final(self).view() == old(self).view() + check_failures(metric, minimum, actual),
    {
        let min = match minimum {
            None => {
                assert(check_failures(metric, minimum, actual) =~= Seq::<TargetFailure>::empty());
                return;
            },
            Some(min) => min,
        };
        let value = match actual {
            Some(v) => if is_finite_value(v) {
                Some(v)
            } else {
                None
            },
            None => None,
        };
        let fails = match value {
            None => true,
            Some(v) => value_lt(v, min),
        };
        if fails {
            self.failures.push(TargetFailure { metric, minimum: min, actual: value });
            assert(self.view() =~= old(self).view() + check_failures(metric, minimum, actual));
        } else {
            assert(check_failures(metric, minimum, actual) =~= Seq::<TargetFailure>::empty());
            assert(self.view() =~= old(self).view() + check_failures(metric, minimum, actual));
        }
    }
}

impl Default for TargetAssessment {
    fn default() -> (assessment: Self)
        ensures
            assessment.view() == Seq::<TargetFailure>::empty(),
    {
        TargetAssessment::new()
    }
}

impl AnalysisTargets {
    /// Targets that are all disabled.
    pub fn none() -> (targets: Self)
        ensures
            targets.min_dc_gain_db is None,
            targets.min_bandwidth_3db_hz is None,
            targets.min_unity_gain_hz is None,
            targets.min_phase_margin_deg is None,
    {
        AnalysisTargets {
            min_dc_gain_db: None,
            min_bandwidth_3db_hz: None,
            min_unity_gain_hz: None,
            min_phase_margin_deg: None,
        }
    }

    /// Checks that every target is finite and every frequency target
    /// positive, reporting the first invalid one in metric order.
    pub fn validate(self) -> (result: Result<(), InvalidTarget>)
        ensures
            match first_invalid_target(self) {
                None => result is Ok,
                Some(invalid) => result == Err::<(), InvalidTarget>(invalid),
            },
    {
        validate_target(AcMetric::DcGainDb, self.min_dc_gain_db, false)?;
        validate_target(AcMetric::Bandwidth3DbHz, self.min_bandwidth_3db_hz, true)?;
        validate_target(AcMetric::UnityGainHz, self.min_unity_gain_hz, true)?;
        validate_target(AcMetric::PhaseMarginDeg, self.min_phase_margin_deg, false)
    }

    /// Returns the target of a metric.
    pub fn target(self, metric: AcMetric) -> (target: Option<u64>)
        ensures
            target == target_of(self, metric),
    {
        match metric {
            AcMetric::DcGainDb => self.min_dc_gain_db,
            AcMetric::Bandwidth3DbHz => self.min_bandwidth_3db_hz,
            AcMetric::UnityGainHz => self.min_unity_gain_hz,
            AcMetric::PhaseMarginDeg => self.min_phase_margin_deg,
        }
    }

    /// Assesses one metric against its target.
    pub fn assess_metric(self, metric: AcMetric, actual: Option<u64>) -> (assessment: TargetAssessment)
        ensures
            assessment.view() == check_failures(metric, target_of(self, metric), actual),
    {
        let minimum = self.target(metric);
        let mut assessment = TargetAssessment::new();
        assessment.check(metric, minimum, actual);
        assert(assessment.view() =~= check_failures(metric, target_of(self, metric), actual));
        assessment
    }

    /// Assesses the DC gain.
    pub fn assess_dc_gain(self, dc_gain_db: Option<u64>) -> (assessment: TargetAssessment)
        ensures
            assessment.view() == check_failures(AcMetric::DcGainDb, self.min_dc_gain_db, dc_gain_db),
    {
        self.assess_metric(AcMetric::DcGainDb, dc_gain_db)
    }

    /// Assesses bandwidth, unity-gain frequency and phase margin, in order.
    pub fn assess_frequency_metrics(self, metrics: &AcMetrics) -> (assessment: TargetAssessment)
        ensures
            assessment.view() == frequency_failures(self, *metrics),
    {
        let mut assessment = TargetAssessment::new();
        assessment.check(AcMetric::Bandwidth3DbHz, self.min_bandwidth_3db_hz, metrics.bandwidth_3db_hz);
        assessment.check(AcMetric::UnityGainHz, self.min_unity_gain_hz, metrics.unity_gain_hz);
        assessment.check(AcMetric::PhaseMarginDeg, self.min_phase_margin_deg, metrics.phase_margin_deg);
        assert(assessment.view() =~= frequency_failures(self, *metrics));
        assessment
    }

    /// Assesses every metric: the DC gain, then the frequency metrics.
    pub fn assess_all(self, metrics: &AcMetrics) -> (assessment: TargetAssessment)
        ensures
            assessment.view() == check_failures(AcMetric::DcGainDb, self.min_dc_gain_db, metrics.dc_gain_db)
                + frequency_failures(self, *metrics),
    {
        let mut assessment = self.assess_dc_gain(metrics.dc_gain_db);
        assessment.extend(self.assess_frequency_metrics(metrics));
        assessment
    }
}

impl Default for AnalysisTargets {
    fn default() -> (targets: Self)
        ensures
            targets.min_dc_gain_db is None,
            targets.min_bandwidth_3db_hz is None,
            targets.min_unity_gain_hz is None,
            targets.min_phase_margin_deg is None,
    {
        AnalysisTargets::none()
    }
}

impl AnalysisMode {
    /// Returns whether an analysis goes on after an assessment: always in
    /// full-insight mode, only after a pass when pruning.
    pub fn should_continue(self, assessment: &TargetAssessment) -> (go_on: bool)
        ensures
            go_on == (self == AnalysisMode::FullInsight || assessment.view().len() == 0),
    {
        self == AnalysisMode::FullInsight || assessment.passed()
    }
}

/// Returns whether a pruning analysis stops after an assessment.
pub fn should_prune(mode: AnalysisMode, assessment: &TargetAssessment) -> (prune: bool)
    ensures
        prune == (mode == AnalysisMode::Prune && assessment.view().len() > 0),
{
    mode == AnalysisMode::Prune && !assessment.passed()
}

/// How an adaptive analysis ended.
#[derive(Debug, Clone, Copy, PartialEq, Eq, Structural)]
pub enum AcCompletion {
    Complete,
    PrunedAfter(AcMetric),
}

impl AcCompletion {
    /// Returns the metric after which the analysis stopped, if it did.
    pub fn stopped_after(self) -> (metric: Option<AcMetric>)
        ensures
            metric == match self {
                AcCompletion::Complete => None,
                AcCompletion::PrunedAfter(m) => Some(m),
            },
    {
        match self {
            AcCompletion::Complete => None,
            AcCompletion::PrunedAfter(metric) => Some(metric),
        }
    }
}

/// Sweep settings of an adaptive AC analysis.
#[derive(Debug, Clone, Copy, PartialEq, Eq, Structural)]
pub struct AdaptiveAcConfig {
    pub min_frequency_hz: u64,
    pub max_frequency_hz: u64,
    pub coarse_points_per_decade: usize,
    pub crossing_relative_tolerance: u64,
    pub max_refinement_steps: usize,
    pub retain_samples: bool,
}

/// The settings of an adaptive analysis are invalid.
#[derive(Debug, Clone, Copy, PartialEq, Eq, Structural)]
pub struct InvalidAdaptiveAcConfig;
impl InvalidAdaptiveAcConfig {
    /// The message of the error.
    pub open spec fn message(&self) -> Seq<char> {
        "invalid adaptive AC configuration"@
    }

    /// Returns the message of the error.
    pub fn to_string(&self) -> (text: String)
        ensures
            text@ == self.message(),
    {
        let mut text = String::from_str("invalid adaptive AC configuration");
        text
    }
}


/// Valid settings: finite positive bounds in increasing order, a positive
/// point density, a finite positive tolerance and at least one refinement.
pub open spec fn config_valid(config: AdaptiveAcConfig) -> bool {
    &&& finite_value(config.min_frequency_hz)
    &&& order_key(config.min_frequency_hz) > 0
    &&& finite_value(config.max_frequency_hz)
    &&& order_key(config.max_frequency_hz) > order_key(config.min_frequency_hz)
    &&& config.coarse_points_per_decade > 0
    &&& finite_value(config.crossing_relative_tolerance)
    &&& order_key(config.crossing_relative_tolerance) > 0
    &&& config.max_refinement_steps > 0
}

impl AdaptiveAcConfig {
    /// Checks the sweep settings.
    pub fn validate(self) -> (result: Result<(), InvalidAdaptiveAcConfig>)
        ensures
            result is Ok <==> config_valid(self),
    {
        let valid = is_finite_value(self.min_frequency_hz) && value_lt(0, self.min_frequency_hz)
            && is_finite_value(self.max_frequency_hz) && value_lt(self.min_frequency_hz, self.max_frequency_hz)
            && self.coarse_points_per_decade > 0 && is_finite_value(self.crossing_relative_tolerance)
            && value_lt(0, self.crossing_relative_tolerance) && self.max_refinement_steps > 0;
        if valid {
            Ok(())
        } else {
            Err(InvalidAdaptiveAcConfig)
        }
    }
}

/// What an adaptive analysis computes and how it treats targets.
#[derive(Debug, Clone, Copy, PartialEq, Eq, Structural)]
pub struct AdaptiveAcPolicy {
    pub mode: AnalysisMode,
    pub targets: AnalysisTargets,
    pub metrics: AcMetricSet,
}

/// A policy that cannot be run.
#[derive(Debug, Clone, Copy, PartialEq, Eq, Structural)]
pub enum InvalidAdaptiveAcPolicy {
    EmptyMetricSelection,
    InvalidTarget(InvalidTarget),
    TargetNotSelected { metric: AcMetric },
}

/// The label of a metric, as messages show it.
pub open spec fn metric_label(metric: AcMetric) -> Seq<char> {
    match metric {
        AcMetric::DcGainDb => "GainDC"@,
        AcMetric::Bandwidth3DbHz => "f3dB"@,
        AcMetric::UnityGainHz => "UGF"@,
        AcMetric::PhaseMarginDeg => "PM"@,
    }
}

impl InvalidTarget {
    /// The message of the invalid target, given the text of its value.
    pub open spec fn message(&self, value_text: Seq<char>) -> Seq<char> {
        "invalid minimum target "@ + metric_label(self.metric) + "="@ + value_text + ": expected "@ + match self.metric {
            AcMetric::Bandwidth3DbHz | AcMetric::UnityGainHz => "a finite positive frequency"@,
            _ => "a finite value"@,
        }
    }

    /// Returns the message of the invalid target. Its value is a binary64
    /// number, written by the caller as `value_text`.
    pub fn to_string(&self, value_text: &str) -> (text: String)
        ensures
            text@ == self.message(value_text@),
    {
        let mut text = String::from_str("invalid minimum target ");
        text.append(self.metric.label());
        text.append("=");
        text.append(value_text);
        text.append(": expected ");
        match self.metric {
            AcMetric::Bandwidth3DbHz | AcMetric::UnityGainHz => text.append("a finite positive frequency"),
            _ => text.append("a finite value"),
        }
        text
    }
}

impl InvalidAdaptiveAcPolicy {
    /// The message of the policy error, given the text of an invalid
    /// target's value.
    pub open spec fn message(&self, value_text: Seq<char>) -> Seq<char> {
        match self {
            InvalidAdaptiveAcPolicy::EmptyMetricSelection => "adaptive AC policy must select at least one metric"@,
            InvalidAdaptiveAcPolicy::InvalidTarget(target) => target.message(value_text),
            InvalidAdaptiveAcPolicy::TargetNotSelected { metric } => "adaptive AC target "@ + metric_label(*metric)
                + " requires selecting the same metric"@,
        }
    }

    /// Returns the message of the policy error. An invalid target's value
    /// is a binary64 number, written by the caller as `value_text`; the
    /// other errors do not use it.
    pub fn to_string(&self, value_text: &str) -> (text: String)
        ensures
            text@ == self.message(value_text@),
    {
        match self {
            InvalidAdaptiveAcPolicy::EmptyMetricSelection => String::from_str(
                "adaptive AC policy must select at least one metric",
            ),
            InvalidAdaptiveAcPolicy::InvalidTarget(target) => target.to_string(value_text),
            InvalidAdaptiveAcPolicy::TargetNotSelected { metric } => {
                let mut text = String::from_str("adaptive AC target ");
                text.append(metric.label());
                text.append(" requires selecting the same metric");
                text
            },
        }
    }
}

/// The metric has a target but is not selected.
pub open spec fn unselected_target(policy: AdaptiveAcPolicy, metric: AcMetric) -> bool {
    target_of(policy.targets, metric) is Some && !metric_set_view(policy.metrics).contains(metric)
}

/// The first problem of a policy: no metric selected, then an invalid
/// target, then (in metric order) a target on an unselected metric.
pub open spec fn policy_problem(policy: AdaptiveAcPolicy) -> Option<InvalidAdaptiveAcPolicy> {
    if metric_set_view(policy.metrics) == Set::<AcMetric>::empty() {
        Some(InvalidAdaptiveAcPolicy::EmptyMetricSelection)
    } else if first_invalid_target(policy.targets) is Some {
        Some(InvalidAdaptiveAcPolicy::InvalidTarget(first_invalid_target(policy.targets)->0))
    } else if unselected_target(policy, AcMetric::DcGainDb) {
        Some(InvalidAdaptiveAcPolicy::TargetNotSelected { metric: AcMetric::DcGainDb })
    } else if unselected_target(policy, AcMetric::Bandwidth3DbHz) {
        Some(InvalidAdaptiveAcPolicy::TargetNotSelected { metric: AcMetric::Bandwidth3DbHz })
    } else if unselected_target(policy, AcMetric::UnityGainHz) {
        Some(InvalidAdaptiveAcPolicy::TargetNotSelected { metric: AcMetric::UnityGainHz })
    } else if unselected_target(policy, AcMetric::PhaseMarginDeg) {
        Some(InvalidAdaptiveAcPolicy::TargetNotSelected { metric: AcMetric::PhaseMarginDeg })
    } else {
        None
    }
}

impl AdaptiveAcPolicy {
    /// Every metric, no targets, full insight.
    pub fn complete() -> (policy: Self)
        ensures
            policy.mode == AnalysisMode::FullInsight,
            metric_set_view(policy.metrics) == Set::<AcMetric>::full(),
            target_of(policy.targets, AcMetric::DcGainDb) is None,
            target_of(policy.targets, AcMetric::Bandwidth3DbHz) is None,
            target_of(policy.targets, AcMetric::UnityGainHz) is None,
            target_of(policy.targets, AcMetric::PhaseMarginDeg) is None,
    {
        AdaptiveAcPolicy {
            mode: AnalysisMode::FullInsight,
            targets: AnalysisTargets::none(),
            metrics: AcMetricSet::all(),
        }
    }

    /// Checks that a policy selects a metric, has valid targets and selects
    /// every metric it has a target for.
    pub fn validate(self) -> (result: Result<(), InvalidAdaptiveAcPolicy>)
        ensures
            match policy_problem(self) {
                None => result is Ok,
                Some(problem) => result == Err::<(), InvalidAdaptiveAcPolicy>(problem),
            },
    {
        if self.metrics.is_empty() {
            return Err(InvalidAdaptiveAcPolicy::EmptyMetricSelection);
        }
        match self.targets.validate() {
            Ok(()) => {},
            Err(error) => {
                return Err(InvalidAdaptiveAcPolicy::InvalidTarget(error));
            },
        }
        let metrics = [AcMetric::DcGainDb, AcMetric::Bandwidth3DbHz, AcMetric::UnityGainHz, AcMetric::PhaseMarginDeg];
        let mut i: usize = 0;
        while i < 4
            invariant
                i <= 4,
                metrics@ == seq![AcMetric::DcGainDb, AcMetric::Bandwidth3DbHz, AcMetric::UnityGainHz, AcMetric::PhaseMarginDeg],
                metric_set_view(self.metrics) != Set::<AcMetric>::empty(),
                first_invalid_target(self.targets) is None,
                forall|j: int| 0 <= j < i ==> !unselected_target(self, #[trigger] metrics@[j]),
            decreases 4 - i,
        {
            let metric = metrics[i];
            if self.targets.target(metric).is_some() && !self.metrics.contains(metric) {
                return Err(InvalidAdaptiveAcPolicy::TargetNotSelected { metric });
            }
            i = i + 1;
        }
        assert(!unselected_target(self, metrics@[0]));
        assert(!unselected_target(self, metrics@[1]));
        assert(!unselected_target(self, metrics@[2]));
        assert(!unselected_target(self, metrics@[3]));
        Ok(())
    }
}


// ---------------------------------------------------------------------------
// The decisions of an adaptive analysis
// ---------------------------------------------------------------------------

/// The metric at position `k` of the evaluation order: DC gain, -3 dB
/// bandwidth, unity-gain frequency, phase margin.
pub open spec fn metric_at(k: int) -> AcMetric {
    if k <= 0 {
        AcMetric::DcGainDb
    } else if k == 1 {
        AcMetric::Bandwidth3DbHz
    } else if k == 2 {
        AcMetric::UnityGainHz
    } else {
        AcMetric::PhaseMarginDeg
    }
}

/// The position of a metric in the evaluation order.
pub open spec fn metric_position(metric: AcMetric) -> int {
    match metric {
        AcMetric::DcGainDb => 0,
        AcMetric::Bandwidth3DbHz => 1,
        AcMetric::UnityGainHz => 2,
        AcMetric::PhaseMarginDeg => 3,
    }
}

/// The first position from `k` on whose metric is selected.
pub open spec fn next_selected(selected: Set<AcMetric>, k: int) -> Option<int>
    decreases 4 - k,
{
    if k >= 4 || k < 0 {
        None
    } else if selected.contains(metric_at(k)) {
        Some(k)
    } else {
        next_selected(selected, k + 1)
    }
}

/// A found position is the first selected one from `k` on.
proof fn lemma_next_selected(selected: Set<AcMetric>, k: int)
    requires
        0 <= k,
    ensures
        next_selected(selected, k) matches Some(j) ==> k <= j < 4 && selected.contains(metric_at(j)) && forall|i: int|
            k <= i < j ==> !selected.contains(#[trigger] metric_at(i)),
        next_selected(selected, k) is None ==> forall|i: int| k <= i < 4 ==> !selected.contains(#[trigger] metric_at(i)),
    decreases 4 - k,
{
    if k < 4 && !selected.contains(metric_at(k)) {
        lemma_next_selected(selected, k + 1);
    }
}

/// The metrics with the value of `metric` replaced.
pub open spec fn with_metric(metrics: AcMetrics, metric: AcMetric, value: Option<u64>) -> AcMetrics {
    match metric {
        AcMetric::DcGainDb => AcMetrics { dc_gain_db: value, ..metrics },
        AcMetric::Bandwidth3DbHz => AcMetrics { bandwidth_3db_hz: value, ..metrics },
        AcMetric::UnityGainHz => AcMetrics { unity_gain_hz: value, ..metrics },
        AcMetric::PhaseMarginDeg => AcMetrics { phase_margin_deg: value, ..metrics },
    }
}

/// Whether the DC response is needed: for the DC gain or as the reference
/// of the -3 dB bandwidth.
pub fn needs_dc_reference(metrics: AcMetricSet) -> (needed: bool)
    ensures
        needed == (metric_set_view(metrics).contains(AcMetric::DcGainDb) || metric_set_view(metrics).contains(
            AcMetric::Bandwidth3DbHz,
        )),
{
    metrics.contains(AcMetric::DcGainDb) || metrics.contains(AcMetric::Bandwidth3DbHz)
}

/// Whether the unity-gain crossing is needed: for the unity-gain frequency
/// or the phase margin taken there.
pub fn needs_unity_crossing(metrics: AcMetricSet) -> (needed: bool)
    ensures
        needed == (metric_set_view(metrics).contains(AcMetric::UnityGainHz) || metric_set_view(metrics).contains(
            AcMetric::PhaseMarginDeg,
        )),
{
    metrics.contains(AcMetric::UnityGainHz) || metrics.contains(AcMetric::PhaseMarginDeg)
}

/// The decisions of one adaptive AC analysis: which selected metric to
/// measure next, in the order DC gain, -3 dB bandwidth, unity-gain
/// frequency, phase margin; what each measured value adds to the metrics
/// and the target failures; and, in prune mode, the stop after the first
/// failed target. The measurements themselves are floating-point work done
/// by the caller.
pub struct AdaptiveAcDecisions {
    policy: AdaptiveAcPolicy,
    metrics: AcMetrics,
    evaluated: AcMetricSet,
    targets: TargetAssessment,
    position: usize,
    stopped: Option<AcMetric>,
}

impl AdaptiveAcDecisions {
    /// The policy being run.
    pub closed spec fn policy_view(&self) -> AdaptiveAcPolicy {
        self.policy
    }

    /// The metric values measured so far.
    pub closed spec fn metrics_view(&self) -> AcMetrics {
        self.metrics
    }

    /// The metrics measured so far.
    pub closed spec fn evaluated_view(&self) -> Set<AcMetric> {
        metric_set_view(self.evaluated)
    }

    /// The target failures found so far, in check order.
    pub closed spec fn failures_view(&self) -> Seq<TargetFailure> {
        self.targets.view()
    }

    /// The position in the evaluation order from which the next metric is
    /// looked for.
    pub closed spec fn position_view(&self) -> int {
        self.position as int
    }

    /// The metric whose failed target stopped the analysis, if one did.
    pub closed spec fn stopped_view(&self) -> Option<AcMetric> {
        self.stopped
    }

    /// The metric to measure next, if the analysis goes on.
    pub open spec fn awaited(&self) -> Option<AcMetric> {
        if self.stopped_view() is Some {
            None
        } else {
            match next_selected(metric_set_view(self.policy_view().metrics), self.position_view()) {
                Some(j) => Some(metric_at(j)),
                None => None,
            }
        }
    }

    #[verifier::type_invariant]
    spec fn consistent(self) -> bool {
        &&& self.position <= 4
        &&& forall|m: AcMetric| #[trigger]
            metric_set_view(self.evaluated).contains(m) ==> metric_set_view(self.policy.metrics).contains(m)
                && metric_position(m) < self.position
    }

    /// Starts an analysis: nothing measured, no failure.
    pub fn new(policy: AdaptiveAcPolicy) -> (decisions: Self)
        ensures
            decisions.policy_view() == policy,
            decisions.metrics_view() == (AcMetrics {
                dc_gain_db: None,
                bandwidth_3db_hz: None,
                unity_gain_hz: None,
                phase_margin_deg: None,
            }),
            decisions.evaluated_view() == Set::<AcMetric>::empty(),
            decisions.failures_view() == Seq::<TargetFailure>::empty(),
            decisions.position_view() == 0,
            decisions.stopped_view() is None,
    {
        AdaptiveAcDecisions {
            policy,
            metrics: AcMetrics { dc_gain_db: None, bandwidth_3db_hz: None, unity_gain_hz: None, phase_margin_deg: None },
            evaluated: AcMetricSet::empty(),
            targets: TargetAssessment::new(),
            position: 0,
            stopped: None,
        }
    }

    /// Returns the metric to measure next, or `None` when the analysis is
    /// over.
    pub fn next_metric(&self) -> (metric: Option<AcMetric>)
        ensures
            metric == self.awaited(),
    {
        proof {
            use_type_invariant(self);
        }
        if self.stopped.is_some() {
            return None;
        }
        let mut k = self.position;
        while k < 4
            invariant
                self.stopped is None,
                self.position <= k <= 4,
                next_selected(metric_set_view(self.policy.metrics), self.position as int) == next_selected(
                    metric_set_view(self.policy.metrics),
                    k as int,
                ),
            decreases 4 - k,
        {
            let metric = if k == 0 {
                AcMetric::DcGainDb
            } else if k == 1 {
                AcMetric::Bandwidth3DbHz
            } else if k == 2 {
                AcMetric::UnityGainHz
            } else {
                AcMetric::PhaseMarginDeg
            };
            assert(metric == metric_at(k as int));
            if self.policy.metrics.contains(metric) {
                assert(next_selected(metric_set_view(self.policy.metrics), k as int) == Some(k as int));
                return Some(metric);
            }
            k = k + 1;
        }
        None
    }

    /// Records the value measured for the awaited metric: it becomes the
    /// metric's value, the metric counts as evaluated, its target is
    /// checked, and in prune mode a failed target stops the analysis.
    pub fn record(&mut self, metric: AcMetric, value: Option<u64>)
        requires
            old(self).awaited() == Some(metric),
        ensures
            final(self).policy_view() == old(self).policy_view(),
            final(self).metrics_view() == with_metric(old(self).metrics_view(), metric, value),
            final(self).evaluated_view() == old(self).evaluated_view().insert(metric),
            final(self).failures_view() == old(self).failures_view() + check_failures(
                metric,
                target_of(old(self).policy_view().targets, metric),
                value,
            ),
            final(self).position_view() == metric_position(metric) + 1,
            final(self).stopped_view() == if old(self).policy_view().mode == AnalysisMode::Prune && check_failures(
                metric,
                target_of(old(self).policy_view().targets, metric),
                value,
            ).len() > 0 {
                Some(metric)
            } else {
                None::<AcMetric>
            },
    {
        proof {
            use_type_invariant(&*self);
            lemma_next_selected(metric_set_view(self.policy.metrics), self.position as int);
        }
        let assessment = self.policy.targets.assess_metric(metric, value);
        let prune = should_prune(self.policy.mode, &assessment);
        let mut targets = TargetAssessment::new();
        std::mem::swap(&mut targets, &mut self.targets);
        targets.extend(assessment);
        self.targets = targets;
        match metric {
            AcMetric::DcGainDb => self.metrics.dc_gain_db = value,
            AcMetric::Bandwidth3DbHz => self.metrics.bandwidth_3db_hz = value,
            AcMetric::UnityGainHz => self.metrics.unity_gain_hz = value,
            AcMetric::PhaseMarginDeg => self.metrics.phase_margin_deg = value,
        }
        let position: usize = match metric {
            AcMetric::DcGainDb => 1,
            AcMetric::Bandwidth3DbHz => 2,
            AcMetric::UnityGainHz => 3,
            AcMetric::PhaseMarginDeg => 4,
        };
        let evaluated = self.evaluated.with(metric);
        proof {
            assert(metric_set_view(self.policy.metrics).contains(metric));
        }
        self.position = position;
        self.evaluated = evaluated;
        if prune {
            self.stopped = Some(metric);
        }
    }

    /// Ends the analysis and returns the metric values, the metrics
    /// evaluated, the target failures and how the analysis ended: stopped
    /// after a failed target, or complete. Only selected metrics were
    /// evaluated.
    pub fn finish(self) -> (outcome: (AcMetrics, AcMetricSet, TargetAssessment, AcCompletion))
        requires
            self.awaited() is None,
        ensures
            outcome.0 == self.metrics_view(),
            metric_set_view(outcome.1) == self.evaluated_view(),
            outcome.2.view() == self.failures_view(),
            outcome.3 == match self.stopped_view() {
                Some(metric) => AcCompletion::PrunedAfter(metric),
                None => AcCompletion::Complete,
            },
            self.evaluated_view().subset_of(metric_set_view(self.policy_view().metrics)),
    {
        proof {
            use_type_invariant(&self);
        }
        let completion = match self.stopped {
            Some(metric) => AcCompletion::PrunedAfter(metric),
            None => AcCompletion::Complete,
        };
        (self.metrics, self.evaluated, self.targets, completion)
    }
}

} // verus!
