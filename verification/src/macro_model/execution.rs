//! Runtime policy of one macro exploration.
use vstd::prelude::*;

use crate::text::{append_decimal, decimal};

verus! {

/// Default number of electrical-analysis batches per worker.
pub const DEFAULT_BATCHES_PER_WORKER: usize = 8;

/// Execution mode for the electrical part of a macro's testbenches.
#[derive(Debug, Clone, Copy, PartialEq, Eq, Structural)]
pub enum ElectricalAnalysisExecution {
    Sequential,
    Parallel { workers: usize, batch_size: usize },
}

impl Default for ElectricalAnalysisExecution {
    fn default() -> (execution: Self)
        ensures
            execution == ElectricalAnalysisExecution::Sequential,
    {
        ElectricalAnalysisExecution::Sequential
    }
}

/// Invalid execution settings.
#[derive(Debug, Clone, Copy, PartialEq, Eq, Structural)]
pub enum MacroExecutionConfigError {
    ZeroElectricalWorkers,
    ZeroElectricalBatchSize,
    ElectricalBatchSizeOverflow { workers: usize },
    ParallelElectricalAnalysisNotEnabled,
}

impl MacroExecutionConfigError {
    /// The message of the error.
    pub open spec fn message(&self) -> Seq<char> {
        match self {
            MacroExecutionConfigError::ZeroElectricalWorkers => "electrical analysis worker count must be greater than zero"@,
            MacroExecutionConfigError::ZeroElectricalBatchSize => "electrical analysis batch size must be greater than zero"@,
            MacroExecutionConfigError::ElectricalBatchSizeOverflow { workers } => "default electrical analysis batch size overflows for "@ + decimal(workers as nat) + " workers"@,
            MacroExecutionConfigError::ParallelElectricalAnalysisNotEnabled => "electrical batch size requires parallel electrical analysis to be enabled"@,
        }
    }

    /// Returns the message of the error.
    pub fn to_string(&self) -> (text: String)
        ensures
            text@ == self.message(),
    {
        match self {
            MacroExecutionConfigError::ZeroElectricalWorkers => {
                let mut text = String::from_str("electrical analysis worker count must be greater than zero");
                text
            },
            MacroExecutionConfigError::ZeroElectricalBatchSize => {
                let mut text = String::from_str("electrical analysis batch size must be greater than zero");
                text
            },
            MacroExecutionConfigError::ElectricalBatchSizeOverflow { workers } => {
                let mut text = String::from_str("default electrical analysis batch size overflows for ");
                append_decimal(&mut text, *workers);
                text.append(" workers");
                text
            },
            MacroExecutionConfigError::ParallelElectricalAnalysisNotEnabled => {
                let mut text = String::from_str("electrical batch size requires parallel electrical analysis to be enabled");
                text
            },
        }
    }
}

/// Runtime policy of one macro exploration; sequential unless parallel
/// electrical analysis is enabled.
#[derive(Debug, Clone, Copy, PartialEq, Eq, Structural)]
pub struct MacroExecutionConfig {
    electrical_analysis: ElectricalAnalysisExecution,
}

impl MacroExecutionConfig {
    /// The configured electrical execution mode.
    pub closed spec fn mode(self) -> ElectricalAnalysisExecution {
        self.electrical_analysis
    }

    /// The sequential policy.
    pub fn sequential() -> (config: Self)
        ensures
            config.mode() == ElectricalAnalysisExecution::Sequential,
    {
        MacroExecutionConfig { electrical_analysis: ElectricalAnalysisExecution::Sequential }
    }

    /// Enables batched electrical analysis with `workers` workers and eight
    /// batches per worker; one worker selects the sequential mode.
    pub fn with_parallel_electrical_analysis(self, workers: usize) -> (result: Result<Self, MacroExecutionConfigError>)
        ensures
            workers == 0 ==> result == Err::<Self, _>(MacroExecutionConfigError::ZeroElectricalWorkers),
            workers == 1 ==> (result matches Ok(config) && config.mode() == ElectricalAnalysisExecution::Sequential),
            workers > 1 && workers * DEFAULT_BATCHES_PER_WORKER > usize::MAX ==> result == Err::<Self, _>(
                MacroExecutionConfigError::ElectricalBatchSizeOverflow { workers },
            ),
            workers > 1 && workers * DEFAULT_BATCHES_PER_WORKER <= usize::MAX ==> (result matches Ok(config)
                && config.mode() == (ElectricalAnalysisExecution::Parallel {
                workers,
                batch_size: (workers * DEFAULT_BATCHES_PER_WORKER) as usize,
            })),
    {
        if workers == 0 {
            return Err(MacroExecutionConfigError::ZeroElectricalWorkers);
        }
        if workers == 1 {
            return Ok(MacroExecutionConfig { electrical_analysis: ElectricalAnalysisExecution::Sequential });
        }
        match workers.checked_mul(DEFAULT_BATCHES_PER_WORKER) {
            None => Err(MacroExecutionConfigError::ElectricalBatchSizeOverflow { workers }),
            Some(batch_size) => Ok(
                MacroExecutionConfig {
                    electrical_analysis: ElectricalAnalysisExecution::Parallel { workers, batch_size },
                },
            ),
        }
    }

    /// Replaces the batch size of enabled parallel electrical analysis.
    pub fn with_electrical_batch_size(self, batch_size: usize) -> (result: Result<Self, MacroExecutionConfigError>)
        ensures
            batch_size == 0 ==> result == Err::<Self, _>(MacroExecutionConfigError::ZeroElectricalBatchSize),
            batch_size > 0 && self.mode() == ElectricalAnalysisExecution::Sequential ==> result == Err::<
                Self,
                _,
            >(MacroExecutionConfigError::ParallelElectricalAnalysisNotEnabled),
            batch_size > 0 && self.mode() is Parallel ==> (result matches Ok(config) && config.mode() == (
            ElectricalAnalysisExecution::Parallel { workers: self.mode()->workers, batch_size })),
    {
        if batch_size == 0 {
            return Err(MacroExecutionConfigError::ZeroElectricalBatchSize);
        }
        match self.electrical_analysis {
            ElectricalAnalysisExecution::Sequential => Err(
                MacroExecutionConfigError::ParallelElectricalAnalysisNotEnabled,
            ),
            ElectricalAnalysisExecution::Parallel { workers, .. } => Ok(
                MacroExecutionConfig {
                    electrical_analysis: ElectricalAnalysisExecution::Parallel { workers, batch_size },
                },
            ),
        }
    }

    /// Returns the configured electrical execution mode.
    pub fn electrical_analysis(&self) -> (execution: ElectricalAnalysisExecution)
        ensures
            execution == self.mode(),
    {
        self.electrical_analysis
    }
}

impl Default for MacroExecutionConfig {
    fn default() -> (config: Self)
        ensures
            config.mode() == ElectricalAnalysisExecution::Sequential,
    {
        MacroExecutionConfig::sequential()
    }
}

} // verus!
