use shapeic_core::analysis::{
    AcCompletion, AcMetric, AcMetricSet, AcMetrics, AdaptiveAcConfig, AdaptiveAcPolicy,
    AnalysisMode, AnalysisTargets, InvalidAdaptiveAcConfig, InvalidAdaptiveAcPolicy,
    AdaptiveAcDecisions, InvalidTarget, TargetAssessment,
};

fn bits(value: f64) -> u64 {
    value.to_bits()
}

fn targets() -> AnalysisTargets {
    AnalysisTargets {
        min_dc_gain_db: Some(bits(20.0)),
        min_bandwidth_3db_hz: Some(bits(100.0e6)),
        min_unity_gain_hz: Some(bits(1.0e9)),
        min_phase_margin_deg: Some(bits(45.0)),
    }
}

fn passing_metrics() -> AcMetrics {
    AcMetrics {
        dc_gain_db: Some(bits(20.0)),
        bandwidth_3db_hz: Some(bits(100.0e6)),
        unity_gain_hz: Some(bits(1.0e9)),
        phase_margin_deg: Some(bits(45.0)),
    }
}

fn selected_policy(metrics: AcMetricSet) -> AdaptiveAcPolicy {
    AdaptiveAcPolicy {
        mode: AnalysisMode::FullInsight,
        targets: AnalysisTargets::none(),
        metrics,
    }
}

#[test]
fn disabled_targets_always_pass() {
    let missing = AcMetrics {
        dc_gain_db: None,
        bandwidth_3db_hz: None,
        unity_gain_hz: None,
        phase_margin_deg: None,
    };

    assert!(AnalysisTargets::none().assess_all(&missing).passed());
}

#[test]
fn values_equal_to_the_minimum_pass() {
    assert!(targets().assess_all(&passing_metrics()).passed());
}

#[test]
fn reports_below_minimum_and_unavailable_metrics() {
    let metrics = AcMetrics {
        dc_gain_db: Some(bits(19.0)),
        bandwidth_3db_hz: Some(bits(90.0e6)),
        unity_gain_hz: None,
        phase_margin_deg: Some(bits(f64::NAN)),
    };
    let assessment = targets().assess_all(&metrics);

    assert_eq!(assessment.failures().len(), 4);
    assert_eq!(assessment.failures()[0].metric, AcMetric::DcGainDb);
    assert_eq!(assessment.failures()[0].actual, Some(bits(19.0)));
    assert_eq!(assessment.failures()[1].metric, AcMetric::Bandwidth3DbHz);
    assert_eq!(assessment.failures()[2].metric, AcMetric::UnityGainHz);
    assert_eq!(assessment.failures()[2].actual, None);
    assert_eq!(assessment.failures()[3].metric, AcMetric::PhaseMarginDeg);
    assert_eq!(assessment.failures()[3].actual, None);
}

#[test]
fn validates_finite_targets_and_positive_frequencies() {
    assert!(targets().validate().is_ok());

    let invalid_frequency = AnalysisTargets {
        min_unity_gain_hz: Some(bits(0.0)),
        ..AnalysisTargets::none()
    };
    assert_eq!(
        invalid_frequency.validate().unwrap_err().metric,
        AcMetric::UnityGainHz
    );

    let invalid_gain = AnalysisTargets {
        min_dc_gain_db: Some(bits(f64::INFINITY)),
        ..AnalysisTargets::none()
    };
    assert_eq!(
        invalid_gain.validate().unwrap_err().metric,
        AcMetric::DcGainDb
    );
}

#[test]
fn prune_stops_on_failure_while_full_insight_continues() {
    let assessment = targets().assess_metric(AcMetric::DcGainDb, Some(bits(19.0)));
    assert_eq!(assessment.failures().len(), 1);
    assert_eq!(assessment.failures()[0].minimum, bits(20.0));

    assert!(!AnalysisMode::Prune.should_continue(&assessment));
    assert!(AnalysisMode::FullInsight.should_continue(&assessment));
    assert!(AnalysisMode::Prune.should_continue(&TargetAssessment::new()));
}

#[test]
fn rejects_empty_selection_and_targets_for_unselected_metrics() {
    assert_eq!(
        selected_policy(AcMetricSet::empty()).validate(),
        Err(InvalidAdaptiveAcPolicy::EmptyMetricSelection)
    );

    let policy = AdaptiveAcPolicy {
        mode: AnalysisMode::Prune,
        targets: AnalysisTargets {
            min_unity_gain_hz: Some(bits(1.0e6)),
            ..AnalysisTargets::none()
        },
        metrics: AcMetricSet::from_metric(AcMetric::DcGainDb),
    };
    assert_eq!(
        policy.validate(),
        Err(InvalidAdaptiveAcPolicy::TargetNotSelected {
            metric: AcMetric::UnityGainHz
        })
    );
    assert_eq!(AdaptiveAcPolicy::complete().validate(), Ok(()));
}

#[test]
fn metric_sets_collect_metrics_and_labels_name_them() {
    let set = AcMetricSet::empty()
        .with(AcMetric::DcGainDb)
        .with(AcMetric::PhaseMarginDeg);
    assert!(set.contains(AcMetric::DcGainDb));
    assert!(set.contains(AcMetric::PhaseMarginDeg));
    assert!(!set.contains(AcMetric::UnityGainHz));
    assert!(!set.is_empty());
    assert!(AcMetricSet::empty().is_empty());
    assert!(AcMetricSet::all().contains(AcMetric::Bandwidth3DbHz));
    assert_eq!(AcMetric::DcGainDb.label(), "GainDC");
    assert_eq!(AcMetric::Bandwidth3DbHz.label(), "f3dB");
    assert_eq!(AcMetric::UnityGainHz.label(), "UGF");
    assert_eq!(AcMetric::PhaseMarginDeg.label(), "PM");
}

#[test]
fn completion_names_the_metric_it_stopped_after() {
    assert_eq!(AcCompletion::Complete.stopped_after(), None);
    assert_eq!(
        AcCompletion::PrunedAfter(AcMetric::UnityGainHz).stopped_after(),
        Some(AcMetric::UnityGainHz)
    );
}

#[test]
fn adaptive_config_needs_an_increasing_positive_range() {
    let config = AdaptiveAcConfig {
        min_frequency_hz: bits(1.0),
        max_frequency_hz: bits(1.0e9),
        coarse_points_per_decade: 4,
        crossing_relative_tolerance: bits(0.005),
        max_refinement_steps: 32,
        retain_samples: true,
    };
    assert_eq!(config.validate(), Ok(()));
    let inverted = AdaptiveAcConfig {
        min_frequency_hz: bits(1.0e9),
        max_frequency_hz: bits(1.0),
        ..config
    };
    assert_eq!(inverted.validate(), Err(InvalidAdaptiveAcConfig));
    let no_points = AdaptiveAcConfig {
        coarse_points_per_decade: 0,
        ..config
    };
    assert_eq!(no_points.validate(), Err(InvalidAdaptiveAcConfig));
}

#[test]
fn the_default_metric_set_is_empty() {
    let set = AcMetricSet::default();
    assert_eq!(set, AcMetricSet::empty());
    for metric in [
        AcMetric::DcGainDb,
        AcMetric::Bandwidth3DbHz,
        AcMetric::UnityGainHz,
        AcMetric::PhaseMarginDeg,
    ] {
        assert!(!set.contains(metric));
        assert!(AcMetricSet::all().contains(metric));
    }
}

#[test]
fn policy_errors_read_as_sentences() {
    let target = InvalidTarget {
        metric: AcMetric::Bandwidth3DbHz,
        value: (-1.0f64).to_bits(),
    };
    assert_eq!(
        target.to_string("-1"),
        "invalid minimum target f3dB=-1: expected a finite positive frequency"
    );
    assert_eq!(
        InvalidAdaptiveAcPolicy::InvalidTarget(InvalidTarget {
            metric: AcMetric::DcGainDb,
            value: f64::NAN.to_bits(),
        })
        .to_string("NaN"),
        "invalid minimum target GainDC=NaN: expected a finite value"
    );
    assert_eq!(
        InvalidAdaptiveAcPolicy::EmptyMetricSelection.to_string(""),
        "adaptive AC policy must select at least one metric"
    );
    assert_eq!(
        InvalidAdaptiveAcPolicy::TargetNotSelected {
            metric: AcMetric::PhaseMarginDeg,
        }
        .to_string(""),
        "adaptive AC target PM requires selecting the same metric"
    );
}

fn policy(mode: AnalysisMode, metrics: AcMetricSet) -> AdaptiveAcPolicy {
    AdaptiveAcPolicy {
        mode,
        targets: AnalysisTargets {
            min_dc_gain_db: Some(40.0f64.to_bits()),
            min_bandwidth_3db_hz: None,
            min_unity_gain_hz: Some(1.0e6f64.to_bits()),
            min_phase_margin_deg: None,
        },
        metrics,
    }
}

#[test]
fn prune_mode_stops_after_the_first_failed_target() {
    let mut decisions = AdaptiveAcDecisions::new(policy(AnalysisMode::Prune, AcMetricSet::all()));
    assert_eq!(decisions.next_metric(), Some(AcMetric::DcGainDb));
    decisions.record(AcMetric::DcGainDb, Some(50.0f64.to_bits()));
    assert_eq!(decisions.next_metric(), Some(AcMetric::Bandwidth3DbHz));
    decisions.record(AcMetric::Bandwidth3DbHz, Some(1.0e3f64.to_bits()));
    assert_eq!(decisions.next_metric(), Some(AcMetric::UnityGainHz));
    decisions.record(AcMetric::UnityGainHz, Some(1.0e5f64.to_bits()));
    assert_eq!(decisions.next_metric(), None);

    let (metrics, evaluated, targets, completion) = decisions.finish();
    assert_eq!(completion, AcCompletion::PrunedAfter(AcMetric::UnityGainHz));
    assert_eq!(metrics.unity_gain_hz, Some(1.0e5f64.to_bits()));
    assert_eq!(metrics.phase_margin_deg, None);
    assert!(evaluated.contains(AcMetric::UnityGainHz));
    assert!(!evaluated.contains(AcMetric::PhaseMarginDeg));
    assert!(!targets.passed());
}

#[test]
fn full_insight_measures_only_the_selected_metrics_in_order() {
    let selected = AcMetricSet::empty()
        .with(AcMetric::PhaseMarginDeg)
        .with(AcMetric::DcGainDb);
    let mut decisions = AdaptiveAcDecisions::new(policy(AnalysisMode::FullInsight, selected));
    assert_eq!(decisions.next_metric(), Some(AcMetric::DcGainDb));
    decisions.record(AcMetric::DcGainDb, Some(10.0f64.to_bits()));
    assert_eq!(decisions.next_metric(), Some(AcMetric::PhaseMarginDeg));
    decisions.record(AcMetric::PhaseMarginDeg, Some(60.0f64.to_bits()));
    assert_eq!(decisions.next_metric(), None);

    let (metrics, evaluated, targets, completion) = decisions.finish();
    assert_eq!(completion, AcCompletion::Complete);
    assert_eq!(metrics.dc_gain_db, Some(10.0f64.to_bits()));
    assert_eq!(metrics.bandwidth_3db_hz, None);
    assert_eq!(evaluated, selected);
    assert!(!targets.passed());
}
