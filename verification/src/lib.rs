//! Verified core of the analog macro exploration engine: candidate sets and
//! their joins, filters and parameter bindings, macro definitions, hierarchy
//! paths, derivation of child conditions, and exploration statistics.
//!
//! Numerical candidate values are carried as IEEE-754 binary64 bit patterns
//! (`f64::to_bits`), so that every comparison and equality the exploration
//! logic performs is integer logic with an exact specification; see
//! [`value`].

pub mod analysis;
pub mod circuit;
pub mod entries;
pub mod exploration;
pub mod macro_model;
pub mod primitive;
pub mod search;
pub mod testbench;
pub mod text;
pub mod value;
