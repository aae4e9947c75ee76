use shapeic_core::macro_model::execution::{
    ElectricalAnalysisExecution, MacroExecutionConfig, MacroExecutionConfigError,
};

#[test]
fn defaults_to_sequential_execution() {
    assert_eq!(
        MacroExecutionConfig::default().electrical_analysis(),
        ElectricalAnalysisExecution::Sequential
    );
}

#[test]
fn configures_parallel_electrical_workers_and_batches() {
    let execution = MacroExecutionConfig::sequential()
        .with_parallel_electrical_analysis(4)
        .unwrap();
    assert_eq!(
        execution.electrical_analysis(),
        ElectricalAnalysisExecution::Parallel {
            workers: 4,
            batch_size: 32,
        }
    );

    let execution = execution.with_electrical_batch_size(7).unwrap();
    assert_eq!(
        execution.electrical_analysis(),
        ElectricalAnalysisExecution::Parallel {
            workers: 4,
            batch_size: 7,
        }
    );
}

#[test]
fn one_worker_selects_the_sequential_baseline() {
    let execution = MacroExecutionConfig::sequential()
        .with_parallel_electrical_analysis(1)
        .unwrap();
    assert_eq!(
        execution.electrical_analysis(),
        ElectricalAnalysisExecution::Sequential
    );
}

#[test]
fn rejects_invalid_parallel_settings() {
    assert_eq!(
        MacroExecutionConfig::sequential().with_parallel_electrical_analysis(0),
        Err(MacroExecutionConfigError::ZeroElectricalWorkers)
    );
    assert_eq!(
        MacroExecutionConfig::sequential().with_electrical_batch_size(4),
        Err(MacroExecutionConfigError::ParallelElectricalAnalysisNotEnabled)
    );
    assert_eq!(
        MacroExecutionConfig::sequential()
            .with_parallel_electrical_analysis(2)
            .unwrap()
            .with_electrical_batch_size(0),
        Err(MacroExecutionConfigError::ZeroElectricalBatchSize)
    );
}

#[test]
fn reports_batch_size_overflow_for_huge_worker_counts() {
    assert_eq!(
        MacroExecutionConfig::sequential().with_parallel_electrical_analysis(usize::MAX / 4),
        Err(MacroExecutionConfigError::ElectricalBatchSizeOverflow {
            workers: usize::MAX / 4,
        })
    );
    assert_eq!(
        MacroExecutionConfig::sequential()
            .with_parallel_electrical_analysis(usize::MAX / 8)
            .unwrap()
            .electrical_analysis(),
        ElectricalAnalysisExecution::Parallel {
            workers: usize::MAX / 8,
            batch_size: (usize::MAX / 8) * 8,
        }
    );
}
