//! The KZG polynomial commitment scheme for univariate polynomials, without hiding.
//!
//! A prover commits to a polynomial, and later opens the commitment at a point: it hands out
//! the value of the polynomial there with a proof, which a verifier checks against the
//! commitment with one pairing equation. The scheme itself is in [`provider`]; it works over
//! every [`engine::PairingEngine`], and [`provider::bn256`] is one.
//!
//! Contracts speak of integers: a scalar by its canonical integer, a polynomial by the
//! sequence of its coefficients, a group element by the number that a fixed generator is
//! multiplied by to get it. What holds of the scheme as a whole is in [`provider::laws`] and
//! [`algebra::division`].
use vstd::prelude::*;

pub mod algebra;
pub mod engine;
pub mod errors;
pub mod field;
mod parallel;
pub mod provider;
pub mod randomness;
pub mod unipoly;

verus! {

} // verus!
