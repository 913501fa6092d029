//! How a number is shown to be a prime: by an integer whose powers, modulo every divisor of
//! the number, take so many values that the divisor exceeds the square root.
use crate::algebra::congruence::{
    congruent, is_prime, law_inverses_modulo_a_prime, lemma_cancel_unit,
    lemma_congruent_from_multiple, lemma_congruent_in_range, lemma_congruent_product, lemma_congruent_reflexive,
    lemma_congruent_residue, lemma_congruent_sum, lemma_congruent_symmetric,
    lemma_congruent_transitive, lemma_multiple_of_congruent, lemma_residue_in_range,
};
use vstd::arithmetic::div_mod::lemma_fundamental_div_mod;
use vstd::arithmetic::power::{
    lemma1_pow, lemma_pow0, lemma_pow1, lemma_pow_adds, lemma_pow_distributes, lemma_pow_multiplies,
    pow,
};
use vstd::prelude::*;
use vstd::relations::injective_on;
use vstd::set_lib::{lemma_int_range, lemma_len_subset, lemma_map_size, set_int_range};

verus! {

/// Modulo no divisor of `n` is a power of `u` congruent to one, but those whose exponent is a
/// multiple of `d`.
pub open spec fn forces_exponents(u: int, d: int, n: int) -> bool {
    forall|p: int, t: nat|
        1 < p && n % p == 0 && #[trigger] congruent(pow(u, t), 1, p) ==> t as int % d == 0
}

/// Congruence modulo `n` is congruence modulo every divisor.
proof fn lemma_congruent_modulo_divisor(a: int, b: int, n: int, p: int)
    requires
        0 < n,
        0 < p,
        n % p == 0,
        congruent(a, b, n),
    ensures
        congruent(a, b, p),
{
    lemma_multiple_of_congruent(a, b, n);
    lemma_fundamental_div_mod(n, p);
    let k = (a - b) / n;
    let l = n / p;
    assert(a - b == (k * l) * p) by (nonlinear_arith)
        requires
            a - b == k * n,
            n == p * l,
    ;
    lemma_congruent_from_multiple(a, b, k * l, p);
}

/// Powers of congruent integers are congruent.
proof fn lemma_congruent_power(a: int, b: int, e: nat, m: int)
    requires
        0 < m,
        congruent(a, b, m),
    ensures
        congruent(pow(a, e), pow(b, e), m),
    decreases e,
{
    if e == 0 {
        lemma_pow0(a);
        lemma_pow0(b);
        lemma_congruent_reflexive(1, m);
    } else {
        let f = (e - 1) as nat;
        lemma_congruent_power(a, b, f, m);
        lemma_congruent_product(a, b, pow(a, f), pow(b, f), m);
        reveal(pow);
    }
}

/// A power of an integer that is congruent to one is congruent to one.
proof fn lemma_power_of_one(a: int, e: nat, m: int)
    requires
        0 < m,
        congruent(a, 1, m),
    ensures
        congruent(pow(a, e), 1, m),
{
    lemma_congruent_power(a, 1, e, m);
    lemma1_pow(e);
}

/// If the power of `v` with a prime exponent `q` is congruent to one, and `v` is not, then
/// only the powers with multiples of `q` are.
proof fn lemma_exponent_is_multiple(v: int, q: int, t: nat, p: int)
    requires
        1 < p,
        is_prime(q),
        congruent(pow(v, q as nat), 1, p),
        congruent(pow(v, t), 1, p),
        !congruent(v, 1, p),
    ensures
        t as int % q == 0,
{
    if t as int % q != 0 {
        law_inverses_modulo_a_prime(t as int, q);
        let b = choose|b: int| #[trigger] congruent(t * b, 1, q);
        let s = b % q;
        lemma_congruent_residue(b, q);
        lemma_congruent_reflexive(t as int, q);
        lemma_congruent_product(t as int, t as int, s, b, q);
        lemma_congruent_transitive(t * s, t * b, 1, q);
        lemma_multiple_of_congruent(t * s, 1, q);
        let k = (t * s - 1) / q;
        if t * s == 0 {
            lemma_congruent_symmetric(0, 1, q);
            lemma_congruent_in_range(1, 0, q);
        }
        assert(t * s >= 0) by (nonlinear_arith)
            requires
                t >= 0,
                s >= 0,
        ;
        assert(k >= 0) by (nonlinear_arith)
            requires
                t * s - 1 == k * q,
                t * s >= 1,
                q > 1,
        ;
        // v^(t * s) is one, and it is v * v^(q * k) too
        lemma_pow_multiplies(v, t, s as nat);
        lemma_power_of_one(pow(v, t), s as nat, p);
        lemma_pow_multiplies(v, q as nat, k as nat);
        lemma_power_of_one(pow(v, q as nat), k as nat, p);
        let rest = (q as nat) * (k as nat);
        assert(rest == k * q) by (nonlinear_arith)
            requires
                rest == (q as nat) * (k as nat),
                q > 1,
                k >= 0,
        ;
        lemma_pow_adds(v, 1, rest);
        lemma_pow1(v);
        assert(t * (s as nat) == 1 + rest);
        let w = pow(v, rest);
        assert(congruent(v * w, 1, p));
        lemma_congruent_reflexive(v, p);
        lemma_congruent_product(v, v, w, 1, p);
        lemma_congruent_symmetric(v * w, v * 1, p);
        lemma_congruent_transitive(v, v * w, 1, p);
    }
}

/// A prime factor `q` of an exponent for which the power of `u` is one, if the power with the
/// rest `c` of the exponent is `v`, and `v - 1` has the inverse `w`.
pub proof fn lemma_forced_factor(u: int, c: nat, q: int, v: int, w: int, n: int)
    requires
        1 < n,
        is_prime(q),
        congruent(pow(u, c * (q as nat)), 1, n),
        congruent(pow(u, c), v, n),
        congruent(w * (v - 1), 1, n),
    ensures
        forces_exponents(u, q, n),
{
    assert forall|p: int, t: nat|
        1 < p && n % p == 0 && #[trigger] congruent(pow(u, t), 1, p) implies t as int % q == 0 by {
        let a = pow(u, c);
        lemma_congruent_modulo_divisor(a, v, n, p);
        lemma_congruent_modulo_divisor(w * (v - 1), 1, n, p);
        lemma_congruent_modulo_divisor(pow(u, c * (q as nat)), 1, n, p);
        if congruent(a, 1, p) {
            lemma_congruent_symmetric(a, v, p);
            lemma_congruent_transitive(v, a, 1, p);
            lemma_congruent_reflexive(1, p);
            lemma_congruent_reflexive(w, p);
            lemma_congruent_sum(v, 1, 1, 1, p);
            lemma_congruent_product(w, w, v - 1, 0, p);
            lemma_congruent_symmetric(w * (v - 1), 1, p);
            lemma_congruent_transitive(1, w * (v - 1), w * 0, p);
            lemma_congruent_in_range(1, 0, p);
        }
        lemma_pow_multiplies(u, c, q as nat);
        lemma_pow_multiplies(u, c, t);
        lemma_pow_multiplies(u, t, c);
        assert(c * t == t * c) by (nonlinear_arith);
        lemma_power_of_one(pow(u, t), c, p);
        lemma_exponent_is_multiple(a, q, t, p);
    }
}

/// The power of a power that is known.
pub proof fn lemma_power_of_power(u: int, c: nat, v: int, q: nat, n: int)
    requires
        0 < n,
        congruent(pow(u, c), v, n),
        congruent(pow(v, q), 1, n),
    ensures
        congruent(pow(u, c * q), 1, n),
{
    lemma_pow_multiplies(u, c, q);
    lemma_congruent_power(pow(u, c), v, q, n);
    lemma_congruent_transitive(pow(pow(u, c), q), pow(v, q), 1, n);
}

/// A number is a prime if it is not above the square of a prime `q`, the power of some `u`
/// with the exponent `q` is congruent to one, and `u - 1` has the inverse `w`.
pub proof fn lemma_prime_by_one_factor(u: int, q: int, w: int, n: int)
    requires
        1 < n <= q * q,
        is_prime(q),
        congruent(pow(u, q as nat), 1, n),
        congruent(w * (u - 1), 1, n),
    ensures
        is_prime(n),
{
    lemma_pow1(u);
    lemma_congruent_reflexive(u, n);
    assert(1 * (q as nat) == q as nat);
    lemma_forced_factor(u, 1, q, u, w, n);
    lemma_prime_by_forced_exponent(u, q as nat, q as nat, n);
}

/// Where a power computation starts.
pub proof fn lemma_power_start(u: int, m: int)
    requires
        0 < m,
    ensures
        congruent(pow(u, 0), 1, m),
{
    lemma_pow0(u);
    lemma_congruent_reflexive(1, m);
}

/// Two forced factors without a common divisor force their product.
pub proof fn lemma_forced_product(u: int, d: int, q: int, n: int)
    requires
        0 < d,
        is_prime(q),
        d % q != 0,
        forces_exponents(u, d, n),
        forces_exponents(u, q, n),
    ensures
        forces_exponents(u, d * q, n),
{
    assert forall|p: int, t: nat|
        1 < p && n % p == 0 && #[trigger] congruent(pow(u, t), 1, p) implies t as int % (d * q)
        == 0 by {
        let e = t as int;
        assert(e % d == 0 && e % q == 0);
        lemma_fundamental_div_mod(e, d);
        let k = e / d;
        law_inverses_modulo_a_prime(d, q);
        lemma_cancel_unit(d, k, q);
        lemma_fundamental_div_mod(k, q);
        let l = k / q;
        assert(e - 0 == l * (d * q)) by (nonlinear_arith)
            requires
                e == d * k,
                k == q * l,
        ;
        assert(d * q > 0) by (nonlinear_arith)
            requires
                d > 0,
                q > 1,
        ;
        lemma_congruent_from_multiple(e, 0, l, d * q);
    }
}

/// Modulo a divisor of `n`, the powers of `u` up to the forced exponent are all different, so
/// the divisor is larger than that exponent.
proof fn lemma_divisor_is_large(u: int, d: nat, e: nat, n: int, p: int)
    requires
        1 < n,
        1 < p,
        n % p == 0,
        0 < d,
        0 < e,
        congruent(pow(u, e), 1, n),
        forces_exponents(u, d as int, n),
    ensures
        d < p,
{
    lemma_congruent_modulo_divisor(pow(u, e), 1, n, p);
    // u has the inverse v
    let v = pow(u, (e - 1) as nat);
    assert(u * v == pow(u, e)) by {
        reveal(pow);
    }
    let f = |i: int| pow(u, i as nat) % p;
    let domain = set_int_range(0, d as int);
    assert forall|i: int| 0 <= i implies congruent(
        #[trigger] pow(u, i as nat) * pow(v, i as nat),
        1,
        p,
    ) by {
        lemma_pow_distributes(u, v, i as nat);
        lemma_power_of_one(u * v, i as nat, p);
    }
    assert forall|i: int, j: int| 0 <= i <= j < d && #[trigger] f(i) == #[trigger] f(j) implies i
        == j by {
        let (a, b, c) = (pow(u, i as nat), pow(v, i as nat), pow(u, (j - i) as nat));
        lemma_pow_adds(u, i as nat, (j - i) as nat);
        assert(pow(u, j as nat) == a * c);
        lemma_congruent_residue(a, p);
        lemma_congruent_residue(a * c, p);
        lemma_congruent_transitive(a, a % p, a * c, p);
        assert(congruent(a * b, 1, p));
        // a is congruent to a * c, and a can be cancelled
        lemma_congruent_reflexive(b, p);
        lemma_congruent_reflexive(c, p);
        lemma_congruent_product(a, a * c, b, b, p);
        lemma_congruent_product(a * b, 1, c, c, p);
        assert((a * c) * b == (a * b) * c) by (nonlinear_arith);
        lemma_congruent_symmetric(a * b, (a * c) * b, p);
        lemma_congruent_symmetric((a * b) * c, 1 * c, p);
        lemma_congruent_transitive(c, (a * c) * b, a * b, p);
        lemma_congruent_transitive(c, a * b, 1, p);
        assert((j - i) % (d as int) == 0);
        lemma_residue_in_range(j - i, d as int);
    }
    assert(injective_on(f, domain)) by {
        assert forall|i: int, j: int|
            domain.contains(i) && domain.contains(j) && #[trigger] f(i) == #[trigger] f(
                j,
            ) implies i == j by {
            if i <= j {
                assert(f(i) == f(j));
            } else {
                assert(f(j) == f(i));
            }
        }
    }
    let image = domain.map(f);
    assert forall|y: int| image.contains(y) implies set_int_range(1, p).contains(y) by {
        let i = choose|i: int| domain.contains(i) && y == f(i);
        let (a, b) = (pow(u, i as nat), pow(v, i as nat));
        lemma_congruent_residue(a, p);
        if y == 0 {
            lemma_congruent_reflexive(b, p);
            lemma_congruent_product(a, 0, b, b, p);
            assert(congruent(a * b, 1, p));
            lemma_congruent_symmetric(a * b, 1, p);
            lemma_congruent_transitive(1, a * b, 0 * b, p);
            lemma_congruent_in_range(1, 0, p);
        }
    }
    lemma_int_range(0, d as int);
    lemma_int_range(1, p);
    lemma_map_size(domain, image, f);
    lemma_len_subset(image, set_int_range(1, p));
}

/// `n` is a prime if the powers of some `u` force exponents that are multiples of `d`, a
/// power of `u` is congruent to one, and `d` is not below the square root of `n`.
pub proof fn lemma_prime_by_forced_exponent(u: int, d: nat, e: nat, n: int)
    requires
        1 < n,
        0 < d,
        0 < e,
        n <= d * d,
        congruent(pow(u, e), 1, n),
        forces_exponents(u, d as int, n),
    ensures
        is_prime(n),
{
    assert forall|a: int| 1 < a < n implies #[trigger] (n % a) != 0 by {
        if n % a == 0 {
            lemma_fundamental_div_mod(n, a);
            let b = n / a;
            assert(1 < b) by (nonlinear_arith)
                requires
                    n == a * b,
                    0 < a < n,
            ;
            assert(n - 0 == a * b);
            lemma_congruent_from_multiple(n, 0, a, b);
            lemma_divisor_is_large(u, d, e, n, a);
            lemma_divisor_is_large(u, d, e, n, b);
            assert(a * b > d * d) by (nonlinear_arith)
                requires
                    a > d,
                    b > d,
                    d > 0,
            ;
        }
    }
}

/// A number without a divisor up to its square root is a prime.
pub proof fn lemma_prime_by_trial(n: int, k: int)
    requires
        0 < k,
        1 < n < k * k,
        forall|d: int| 1 < d < k ==> #[trigger] (n % d) != 0,
    ensures
        is_prime(n),
{
    assert forall|a: int| 1 < a < n implies #[trigger] (n % a) != 0 by {
        if n % a == 0 {
            lemma_fundamental_div_mod(n, a);
            let b = n / a;
            assert(1 < b) by (nonlinear_arith)
                requires
                    n == a * b,
                    0 < a < n,
            ;
            lemma_congruent_from_multiple(n, 0, a, b);
            if a >= k {
                if b >= k {
                    assert(a * b >= k * k) by (nonlinear_arith)
                        requires
                            a >= k,
                            b >= k,
                            k > 0,
                    ;
                }
                assert(n % b != 0);
            }
        }
    }
}

/// A step of a power computation: the exponent is doubled, and one more with `more`.
#[verifier::inline]
pub open spec fn is_power_step(u: int, more: bool, x: int, y: int, m: int) -> bool {
    if more {
        (x * x * u) % m == y
    } else {
        (x * x) % m == y
    }
}

/// What one step of a power computation does.
proof fn lemma_power_step(u: int, e: nat, more: bool, x: int, y: int, m: int) -> (f: nat)
    requires
        0 < m,
        congruent(pow(u, e), x, m),
        is_power_step(u, more, x, y, m),
    ensures
        f == 2 * e + (if more { 1int } else { 0 }),
        congruent(pow(u, f), y, m),
{
    let a = pow(u, e);
    lemma_pow_adds(u, e, e);
    lemma_congruent_product(a, x, a, x, m);
    if more {
        lemma_pow_adds(u, e + e, 1);
        lemma_pow1(u);
        lemma_congruent_reflexive(u, m);
        lemma_congruent_product(a * a, x * x, u, u, m);
        lemma_congruent_residue(x * x * u, m);
        lemma_congruent_transitive((a * a) * u, x * x * u, y, m);
        e + e + 1
    } else {
        lemma_congruent_residue(x * x, m);
        lemma_congruent_transitive(a * a, x * x, y, m);
        e + e
    }
}

/// Four steps of a power computation.
pub proof fn lemma_four_power_steps(
    u: int,
    e: nat,
    more: (bool, bool, bool, bool),
    x0: int,
    x1: int,
    x2: int,
    x3: int,
    x4: int,
    m: int,
) -> (f: nat)
    requires
        0 < m,
        congruent(pow(u, e), x0, m),
        is_power_step(u, more.0, x0, x1, m),
        is_power_step(u, more.1, x1, x2, m),
        is_power_step(u, more.2, x2, x3, m),
        is_power_step(u, more.3, x3, x4, m),
    ensures
        f == 16 * e + (if more.0 { 8int } else { 0 }) + (if more.1 { 4int } else { 0 }) + (
        if more.2 { 2int } else { 0 }) + (if more.3 { 1int } else { 0 }),
        congruent(pow(u, f), x4, m),
{
    let e1 = lemma_power_step(u, e, more.0, x0, x1, m);
    let e2 = lemma_power_step(u, e1, more.1, x1, x2, m);
    let e3 = lemma_power_step(u, e2, more.2, x2, x3, m);
    lemma_power_step(u, e3, more.3, x3, x4, m)
}

} // verus!
