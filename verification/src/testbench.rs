//! AC analysis definitions attached to testbenches.
use vstd::prelude::*;

use crate::analysis::{AdaptiveAcConfig, AdaptiveAcPolicy};

verus! {

/// The transfer function measured by an AC analysis, between two nodes.
#[derive(Debug, Clone, PartialEq)]
pub struct TransferFunction {
    pub input_node: String,
    pub output_node: String,
}

impl TransferFunction {
    /// A transfer function from `input_node` to `output_node`.
    pub fn new(input_node: String, output_node: String) -> (transfer: Self)
        ensures
            transfer.input_node@ == input_node@,
            transfer.output_node@ == output_node@,
    {
        TransferFunction { input_node, output_node }
    }
}

/// An AC analysis: what is measured, how the sweep runs, and what it
/// computes.
#[derive(Debug, Clone, PartialEq)]
pub struct AcAnalysis {
    pub transfer_function: TransferFunction,
    pub config: AdaptiveAcConfig,
    pub policy: AdaptiveAcPolicy,
}

impl AcAnalysis {
    /// Groups a transfer function with its sweep settings and policy.
    pub fn new(transfer_function: TransferFunction, config: AdaptiveAcConfig, policy: AdaptiveAcPolicy) -> (analysis: Self)
        ensures
            analysis.transfer_function == transfer_function,
            analysis.config == config,
            analysis.policy == policy,
    {
        AcAnalysis { transfer_function, config, policy }
    }
}

} // verus!
