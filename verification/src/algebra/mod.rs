//! The mathematics that the contracts of this library are written in: congruences
//! between integers, prime numbers, and polynomials as sequences of integer coefficients.
pub mod congruence;
pub mod division;
pub mod polynomial;
pub mod primality;
