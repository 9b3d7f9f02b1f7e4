//! A verified core for a zero-knowledge circuit that proves correct
//! evaluation of `sum_{i=0}^{n-1} a_i * b^i` over a prime field, exposing
//! `b` and the sum as public inputs.
//!
//! The crate models the arithmetization (columns, selector-gated gates,
//! copy constraints, public-input bindings) and the witness assignment as
//! plain data with proved contracts; an unverified proving backend
//! consumes that data to build and check proofs.

pub mod field;
pub mod shape;
pub mod circuit;
pub mod semantics;
