use shapeic_core::analysis::{AcCompletion, AcMetric, AcMetrics, AnalysisTargets, TargetAssessment};
use shapeic_core::macro_model::explore::{
    rejection_metric, CandidateEvaluationLoop, EvaluationStep, MacroAcRejectionCounts,
    MacroExplorationStatistics,
};

fn bits(value: f64) -> u64 {
    value.to_bits()
}

#[test]
fn classifies_complete_full_insight_failures_by_first_metric() {
    let metrics = AcMetrics {
        dc_gain_db: Some(bits(0.0)),
        bandwidth_3db_hz: None,
        unity_gain_hz: None,
        phase_margin_deg: None,
    };
    let targets = AnalysisTargets {
        min_dc_gain_db: Some(bits(10.0)),
        min_bandwidth_3db_hz: Some(bits(1.0)),
        min_unity_gain_hz: None,
        min_phase_margin_deg: None,
    }
    .assess_all(&metrics);

    assert_eq!(
        rejection_metric(AcCompletion::Complete, &targets),
        Ok(Some(AcMetric::DcGainDb))
    );
}

#[test]
fn rejects_inconsistent_pruned_outcomes() {
    assert!(rejection_metric(
        AcCompletion::PrunedAfter(AcMetric::DcGainDb),
        &TargetAssessment::default()
    )
    .is_err());
}

#[test]
fn pruned_outcomes_are_rejected_by_their_pruning_metric() {
    let failed = AnalysisTargets {
        min_dc_gain_db: Some(bits(10.0)),
        min_bandwidth_3db_hz: Some(bits(1.0)),
        min_unity_gain_hz: None,
        min_phase_margin_deg: None,
    }
    .assess_all(&AcMetrics {
        dc_gain_db: Some(bits(0.0)),
        bandwidth_3db_hz: Some(bits(0.5)),
        unity_gain_hz: None,
        phase_margin_deg: None,
    });
    assert_eq!(
        rejection_metric(AcCompletion::PrunedAfter(AcMetric::Bandwidth3DbHz), &failed),
        Ok(Some(AcMetric::Bandwidth3DbHz))
    );
    assert!(rejection_metric(AcCompletion::PrunedAfter(AcMetric::UnityGainHz), &failed).is_err());
    assert_eq!(
        rejection_metric(AcCompletion::Complete, &TargetAssessment::new()),
        Ok(None)
    );
}

#[test]
fn statistics_start_at_zero_for_every_testbench() {
    let statistics = MacroExplorationStatistics::new(&["gain".to_owned(), "noise".to_owned()]);
    assert_eq!(statistics.compatible_candidates(), 0);
    assert_eq!(statistics.accepted_candidates(), 0);
    assert_eq!(statistics.rejected_candidates(), 0);
    assert_eq!(statistics.frequency_evaluations(), 0);
    assert_eq!(statistics.testbenches().len(), 2);
    assert_eq!(statistics.testbench("noise").map(|t| t.testbench()), Some("noise"));
    assert!(statistics.testbench("missing").is_none());
    assert_eq!(MacroAcRejectionCounts::zero().total(), 0);
}

#[test]
fn evaluation_loop_counts_accepted_and_rejected_candidates_per_testbench() {
    let names = ["gain".to_owned(), "phase".to_owned()];
    let mut evaluation = CandidateEvaluationLoop::new(&names);
    let passed = TargetAssessment::new();
    let failed = AnalysisTargets {
        min_dc_gain_db: Some(bits(10.0)),
        min_bandwidth_3db_hz: None,
        min_unity_gain_hz: None,
        min_phase_margin_deg: None,
    }
    .assess_all(&AcMetrics {
        dc_gain_db: Some(bits(1.0)),
        bandwidth_3db_hz: None,
        unity_gain_hz: None,
        phase_margin_deg: None,
    });

    assert_eq!(evaluation.start_candidate(), EvaluationStep::AnalyzeTestbench(0));
    assert_eq!(
        evaluation.record_outcome(5, AcCompletion::Complete, &passed),
        Ok(EvaluationStep::AnalyzeTestbench(1))
    );
    assert_eq!(
        evaluation.record_outcome(7, AcCompletion::Complete, &passed),
        Ok(EvaluationStep::Accepted)
    );

    assert_eq!(evaluation.start_candidate(), EvaluationStep::AnalyzeTestbench(0));
    assert_eq!(
        evaluation.record_outcome(3, AcCompletion::PrunedAfter(AcMetric::DcGainDb), &failed),
        Ok(EvaluationStep::Rejected)
    );

    let statistics = evaluation.finish();
    assert_eq!(statistics.compatible_candidates(), 2);
    assert_eq!(statistics.accepted_candidates(), 1);
    assert_eq!(statistics.rejected_candidates(), 1);
    assert_eq!(statistics.frequency_evaluations(), 15);
    let gain = statistics.testbench("gain").unwrap();
    assert_eq!(gain.evaluated_candidates(), 2);
    assert_eq!(gain.frequency_evaluations(), 8);
    assert_eq!(gain.rejections().count(AcMetric::DcGainDb), 1);
    assert_eq!(gain.rejections().total(), 1);
    let phase = statistics.testbench("phase").unwrap();
    assert_eq!(phase.evaluated_candidates(), 1);
    assert_eq!(phase.rejections().total(), 0);
}

#[test]
fn evaluation_loop_refuses_an_inconsistent_outcome_without_counting_it() {
    let mut evaluation = CandidateEvaluationLoop::new(&["gain".to_owned()]);
    assert_eq!(evaluation.start_candidate(), EvaluationStep::AnalyzeTestbench(0));
    assert!(evaluation
        .record_outcome(4, AcCompletion::PrunedAfter(AcMetric::DcGainDb), &TargetAssessment::new())
        .is_err());
    assert_eq!(evaluation.statistics().testbenches()[0].evaluated_candidates(), 0);
    assert_eq!(evaluation.statistics().frequency_evaluations(), 0);
}

#[test]
fn without_testbenches_every_candidate_is_accepted() {
    let mut evaluation = CandidateEvaluationLoop::new(&[]);
    assert_eq!(evaluation.start_candidate(), EvaluationStep::Accepted);
    assert_eq!(evaluation.start_candidate(), EvaluationStep::Accepted);
    let statistics = evaluation.finish();
    assert_eq!(statistics.compatible_candidates(), 2);
    assert_eq!(statistics.accepted_candidates(), 2);
}
