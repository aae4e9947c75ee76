//! Macro models: their definitions, hierarchy, configuration and the
//! bookkeeping of their exploration.

pub mod execution;
pub mod model;
pub mod derivation;
pub mod hierarchy;
pub mod local_input;
pub mod hierarchy_selection;
pub mod prepare;
pub mod explore;
pub mod hierarchy_result;
pub mod traversal;
pub mod configuration;
pub mod definition;
pub mod catalog;
pub mod input;
pub mod input_validation;
pub mod prebuild;
pub mod candidates;
pub mod candidate_build;
pub mod combination;
pub mod resolution;
