//! The pairing-friendly curve Bn256, on the arithmetic of `halo2curves`.
pub mod curve;
pub mod engine;
pub mod order;
pub mod scalar;
pub mod twist;

pub use curve::{G1, G1Affine};
pub use engine::Bn256;
pub use scalar::Fr;
pub use twist::G2Affine;
