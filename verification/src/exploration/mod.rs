//! Candidate sets, their validation, joins, filters and parameter bindings.

pub mod candidate;
pub mod combination;
pub mod filter;
pub mod binding;
pub mod table;
