//! A minimal arithmetization engine: algebraic constraints are declared over a
//! prime field, witness values are assigned into a tabular layout, and a mock
//! verifier checks that every declared constraint vanishes wherever it is
//! active.

pub mod error;
pub mod expr;
pub mod layout;
pub mod field;
pub mod pythagorean;
pub mod system;
pub mod table;
pub mod verify;
