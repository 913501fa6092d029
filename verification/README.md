# non_hiding_kzg

The KZG polynomial commitment scheme for univariate polynomials, without hiding, verified
with Verus.

## Layout

- `src/algebra/`: the mathematics of the contracts. Congruences between integers,
  polynomials as sequences of integer coefficients, what holds of a quotient and a
  remainder, and how a number is shown to be a prime.
- `src/field.rs`, `src/engine.rs`: the scalars and the two paired groups that the scheme is
  written over. A group element is described by its exponent, the number by which a fixed
  generator is multiplied to get it.
- `src/unipoly.rs`: dense polynomials over a prime field.
- `src/provider/keys.rs`: the universal parameters, and the keys of prover and verifier.
- `src/provider/poly.rs`: random polynomials and long division.
- `src/provider/non_hiding_kzg.rs`: committing, opening and verifying, one by one and in
  batches.
- `src/provider/laws.rs`: what holds of the scheme as a whole. Honest openings are accepted,
  an honest proof goes with one value only, and a batch is the weighted sum of its openings.
- `src/provider/bn256/`: the curve Bn256. The arithmetic is that of `halo2curves`, behind
  functions whose contracts are taken on trust; each says which function it stands for.
  That the order of its groups is a prime is proved in `order.rs`.
- `src/parallel.rs`, `src/randomness.rs`: the calls into `rayon` and `rand`, on trust too.

## What is proved, and of what

Contracts and laws are about exponents. That Bn256 computes with exponents as the contracts
say is what the trusted functions claim of `halo2curves`. That exponents are hard to find,
on which the security of the scheme rests, is no part of this library.
