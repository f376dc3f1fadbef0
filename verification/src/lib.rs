//! A small arithmetic-circuit engine: columns and gates are declared once,
//! witnesses are laid out region by region in a table of `2^k` rows, and a
//! mock prover checks every gate and every equality constraint against the
//! filled table.
//!
//! The engine works over any field of integers modulo its order that
//! implements `field::Field`. The one that comes with it is the Pallas base
//! field, whose arithmetic is computed by `pasta_curves` (as re-exported by
//! `halo2_proofs`). Everything else is verified with Verus.

pub mod chip;
pub mod circuit;
pub mod circuit_laws;
pub mod column;
pub mod constraint_system;
pub mod error;
pub mod expression;
pub mod field;
pub mod laws;
pub mod layouter;
pub mod prover;
pub mod table;
pub mod value;
