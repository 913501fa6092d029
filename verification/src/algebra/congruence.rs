//! Congruence of integers modulo `m`.
use vstd::arithmetic::div_mod::{
    lemma_fundamental_div_mod, lemma_mod_bound, lemma_mod_multiples_basic, lemma_small_mod,
};
use vstd::prelude::*;

verus! {

/// `a` and `b` differ by a multiple of `m`.
pub open spec fn congruent(a: int, b: int, m: int) -> bool {
    (a - b) % m == 0
}

/// `a` has an inverse modulo `m`.
pub open spec fn is_unit(a: int, m: int) -> bool {
    exists|b: int| #[trigger] congruent(a * b, 1, m)
}

/// `m` is a prime number.
pub open spec fn is_prime(m: int) -> bool {
    1 < m && forall|d: int| 1 < d < m ==> #[trigger] (m % d) != 0
}

/// A difference that is written as a multiple of `m` makes a congruence.
pub proof fn lemma_congruent_from_multiple(a: int, b: int, k: int, m: int)
    requires
        m > 0,
        a - b == k * m,
    ensures
        congruent(a, b, m),
{
    lemma_mod_multiples_basic(k, m);
}

/// The multiple of `m` by which two congruent integers differ.
pub proof fn lemma_multiple_of_congruent(a: int, b: int, m: int)
    requires
        m > 0,
        congruent(a, b, m),
    ensures
        a - b == ((a - b) / m) * m,
{
    lemma_fundamental_div_mod(a - b, m);
    assert(m * ((a - b) / m) == ((a - b) / m) * m) by (nonlinear_arith);
}

pub proof fn lemma_congruent_reflexive(a: int, m: int)
    requires
        m > 0,
    ensures
        congruent(a, a, m),
{
    lemma_congruent_from_multiple(a, a, 0, m);
}

pub proof fn lemma_congruent_symmetric(a: int, b: int, m: int)
    requires
        m > 0,
        congruent(a, b, m),
    ensures
        congruent(b, a, m),
{
    lemma_multiple_of_congruent(a, b, m);
    let k = (a - b) / m;
    assert(b - a == (-k) * m) by (nonlinear_arith)
        requires
            a - b == k * m,
    ;
    lemma_congruent_from_multiple(b, a, -k, m);
}

pub proof fn lemma_congruent_transitive(a: int, b: int, c: int, m: int)
    requires
        m > 0,
        congruent(a, b, m),
        congruent(b, c, m),
    ensures
        congruent(a, c, m),
{
    lemma_multiple_of_congruent(a, b, m);
    lemma_multiple_of_congruent(b, c, m);
    let k = (a - b) / m;
    let l = (b - c) / m;
    assert(a - c == (k + l) * m) by (nonlinear_arith)
        requires
            a - b == k * m,
            b - c == l * m,
    ;
    lemma_congruent_from_multiple(a, c, k + l, m);
}

pub proof fn lemma_congruent_sum(a: int, b: int, c: int, d: int, m: int)
    requires
        m > 0,
        congruent(a, b, m),
        congruent(c, d, m),
    ensures
        congruent(a + c, b + d, m),
        congruent(a - c, b - d, m),
{
    lemma_multiple_of_congruent(a, b, m);
    lemma_multiple_of_congruent(c, d, m);
    let k = (a - b) / m;
    let l = (c - d) / m;
    assert((a + c) - (b + d) == (k + l) * m && (a - c) - (b - d) == (k - l) * m)
        by (nonlinear_arith)
        requires
            a - b == k * m,
            c - d == l * m,
    ;
    lemma_congruent_from_multiple(a + c, b + d, k + l, m);
    lemma_congruent_from_multiple(a - c, b - d, k - l, m);
}

pub proof fn lemma_congruent_product(a: int, b: int, c: int, d: int, m: int)
    requires
        m > 0,
        congruent(a, b, m),
        congruent(c, d, m),
    ensures
        congruent(a * c, b * d, m),
{
    lemma_multiple_of_congruent(a, b, m);
    lemma_multiple_of_congruent(c, d, m);
    let k = (a - b) / m;
    let l = (c - d) / m;
    assert(a * c - b * d == (k * c + b * l) * m) by (nonlinear_arith)
        requires
            a - b == k * m,
            c - d == l * m,
    ;
    lemma_congruent_from_multiple(a * c, b * d, k * c + b * l, m);
}

/// Reduction keeps the residue class.
pub proof fn lemma_congruent_residue(a: int, m: int)
    requires
        m > 0,
    ensures
        congruent(a % m, a, m),
        congruent(a, a % m, m),
        0 <= a % m < m,
{
    lemma_fundamental_div_mod(a, m);
    lemma_mod_bound(a, m);
    assert(a - a % m == (a / m) * m) by (nonlinear_arith)
        requires
            a == m * (a / m) + a % m,
    ;
    lemma_congruent_from_multiple(a, a % m, a / m, m);
    lemma_congruent_symmetric(a, a % m, m);
}

/// Congruent integers have the same residue.
pub proof fn lemma_residue_of_congruent(a: int, b: int, m: int)
    requires
        m > 0,
        congruent(a, b, m),
    ensures
        a % m == b % m,
{
    lemma_congruent_residue(a, m);
    lemma_congruent_residue(b, m);
    lemma_congruent_transitive(a % m, a, b, m);
    lemma_congruent_transitive(a % m, b, b % m, m);
    lemma_congruent_in_range(a % m, b % m, m);
}

/// Two congruent integers between `0` and `m` are equal.
pub proof fn lemma_congruent_in_range(a: int, b: int, m: int)
    requires
        m > 0,
        congruent(a, b, m),
        0 <= a < m,
        0 <= b < m,
    ensures
        a == b,
{
    lemma_multiple_of_congruent(a, b, m);
    let k = (a - b) / m;
    assert(k == 0) by (nonlinear_arith)
        requires
            a - b == k * m,
            -m < a - b < m,
            m > 0,
    ;
}

/// The canonical representative is its own residue.
pub proof fn lemma_residue_in_range(a: int, m: int)
    requires
        0 <= a < m,
    ensures
        a % m == a,
{
    lemma_small_mod(a as nat, m as nat);
}

/// A unit can be cancelled from a product that is congruent to zero.
pub proof fn lemma_cancel_unit(a: int, b: int, m: int)
    requires
        m > 0,
        is_unit(a, m),
        congruent(a * b, 0, m),
    ensures
        congruent(b, 0, m),
{
    let c = choose|c: int| #[trigger] congruent(a * c, 1, m);
    lemma_congruent_reflexive(b, m);
    lemma_congruent_reflexive(c, m);
    lemma_congruent_product(a * c, 1, b, b, m);
    lemma_congruent_product(a * b, 0, c, c, m);
    assert((a * c) * b == (a * b) * c) by (nonlinear_arith);
    lemma_congruent_symmetric((a * c) * b, 1 * b, m);
    lemma_congruent_transitive(b, (a * c) * b, 0, m);
}

/// The common divisor that the Euclidean algorithm finds.
spec fn euclid(a: int, b: int) -> int
    decreases b,
{
    if b <= 0 {
        a
    } else {
        proof {
            lemma_mod_bound(a, b);
        }
        euclid(b, a % b)
    }
}

/// The common divisor divides both integers, and is a combination of them.
proof fn lemma_euclid(a: int, b: int) -> (factors: (int, int))
    requires
        0 <= a,
        0 <= b,
        0 < a + b,
    ensures
        0 < euclid(a, b),
        a % euclid(a, b) == 0,
        b % euclid(a, b) == 0,
        factors.0 * a + factors.1 * b == euclid(a, b),
    decreases b,
{
    let d = euclid(a, b);
    if b == 0 {
        lemma_mod_multiples_basic(1, a);
        lemma_mod_multiples_basic(0, a);
        (1, 0)
    } else {
        lemma_mod_bound(a, b);
        lemma_fundamental_div_mod(a, b);
        let (u, v) = lemma_euclid(b, a % b);
        let k = a / b;
        let r = a % b;
        // d divides b and r, and so a
        lemma_congruent_reflexive(k, d);
        lemma_congruent_product(b, 0, k, k, d);
        lemma_congruent_sum(b * k, 0 * k, r, 0, d);
        assert(v * a + (u - v * k) * b == u * b + v * r) by (nonlinear_arith)
            requires
                a == b * k + r,
        ;
        (v, u - v * k)
    }
}

/// Modulo a prime, every integer has an inverse but the multiples of the prime.
pub proof fn law_inverses_modulo_a_prime(a: int, m: int)
    requires
        is_prime(m),
        a % m != 0,
    ensures
        is_unit(a, m),
{
    lemma_congruent_residue(a, m);
    let r = a % m;
    let d = euclid(m, r);
    let (u, v) = lemma_euclid(m, r);
    if d > m {
        lemma_small_mod(m as nat, d as nat);
    }
    if d == m {
        lemma_small_mod(r as nat, m as nat);
    }
    assert(d == 1);
    // v * r is 1 less a multiple of m, and r is congruent to a
    assert(r * v - 1 == (-u) * m) by (nonlinear_arith)
        requires
            u * m + v * r == 1,
    ;
    lemma_congruent_from_multiple(r * v, 1, -u, m);
    lemma_congruent_reflexive(v, m);
    lemma_congruent_product(a, r, v, v, m);
    lemma_congruent_transitive(a * v, r * v, 1, m);
}

/// A sum, difference or product of integers, reduced, is congruent to that of any
/// integers congruent to them.
pub proof fn lemma_reduced(a: int, x: int, b: int, y: int, m: int)
    requires
        m > 0,
        congruent(a, x, m),
        congruent(b, y, m),
    ensures
        congruent((a + b) % m, x + y, m),
        congruent((a - b) % m, x - y, m),
        congruent((a * b) % m, x * y, m),
{
    lemma_congruent_sum(a, x, b, y, m);
    lemma_congruent_product(a, x, b, y, m);
    lemma_congruent_residue(a + b, m);
    lemma_congruent_residue(a - b, m);
    lemma_congruent_residue(a * b, m);
    lemma_congruent_transitive((a + b) % m, a + b, x + y, m);
    lemma_congruent_transitive((a - b) % m, a - b, x - y, m);
    lemma_congruent_transitive((a * b) % m, a * b, x * y, m);
}

} // verus!
