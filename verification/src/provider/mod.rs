//! The commitment scheme and the pairing engine it runs on.
pub mod bn256;
pub mod keys;
pub mod laws;
pub mod non_hiding_kzg;
pub mod poly;
