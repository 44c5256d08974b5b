//! Errors raised while configuring a constraint system or synthesizing a
//! witness. Constraint violations found by the verifier are not errors of
//! this kind: they are collected and reported together (see the verifier).

use vstd::prelude::*;

verus! {

/// A constraint group or query was registered incorrectly during configuration.
#[derive(Clone, Copy, Debug, PartialEq, Eq, Structural, Hash)]
pub enum ConfigurationError {
    /// A constraint group was registered under a name already in use.
    DuplicateGateName,
    /// A constraint group queries a column or selector the system never allocated.
    UnallocatedQuery,
}

/// The table's shape cannot accommodate a request.
#[derive(Clone, Copy, Debug, PartialEq, Eq, Structural, Hash)]
pub enum ShapeError {
    /// Synthesis tried to place an assignment beyond the last row.
    TooSmall,
}

/// Any fatal error of configuration or synthesis.
#[derive(Clone, Copy, Debug, PartialEq, Eq, Structural, Hash)]
pub enum Error {
    /// Raised during `configure`.
    Configuration(ConfigurationError),
    /// Raised during `synthesize`.
    Shape(ShapeError),
}

} // verus!
