//! Univariate polynomials as sequences of integer coefficients, lowest degree first.
use crate::algebra::congruence::{
    congruent, lemma_congruent_in_range, lemma_congruent_product, lemma_congruent_reflexive,
    lemma_congruent_residue, lemma_congruent_sum, lemma_congruent_transitive,
    lemma_residue_of_congruent,
};
use vstd::arithmetic::power::{lemma_pow0, pow};
use vstd::prelude::*;

verus! {

/// The coefficient of `X^k`.
pub open spec fn coeff(c: Seq<int>, k: int) -> int {
    if 0 <= k < c.len() {
        c[k]
    } else {
        0
    }
}

/// All coefficients are zero.
pub open spec fn is_zero_poly(c: Seq<int>) -> bool {
    forall|i: int| 0 <= i < c.len() ==> #[trigger] c[i] == 0
}

/// The leading coefficient, if there is one, is not zero.
pub open spec fn is_trimmed(c: Seq<int>) -> bool {
    c.len() > 0 ==> c.last() != 0
}

/// `c` without the zero coefficients at its high end.
pub open spec fn trim(c: Seq<int>) -> Seq<int>
    decreases c.len(),
{
    if c.len() > 0 && c.last() == 0 {
        trim(c.drop_last())
    } else {
        c
    }
}

/// The value of the polynomial at `x`.
pub open spec fn poly_eval(c: Seq<int>, x: int) -> int
    decreases c.len(),
{
    if c.len() == 0 {
        0
    } else {
        c[0] + x * poly_eval(c.skip(1), x)
    }
}

/// The coefficient of `X^k` in the product of `q` and `d`.
pub open spec fn product_coeff(q: Seq<int>, d: Seq<int>, k: int) -> int
    decreases q.len(),
{
    if q.len() == 0 {
        0
    } else {
        product_coeff(q.drop_last(), d, k) + q.last() * coeff(d, k - (q.len() - 1))
    }
}

/// `p = q * d + r`, coefficient by coefficient modulo `m`.
pub open spec fn is_quotient_and_remainder(
    p: Seq<int>,
    d: Seq<int>,
    q: Seq<int>,
    r: Seq<int>,
    m: int,
) -> bool {
    forall|k: int|
        0 <= k ==> congruent(#[trigger] coeff(p, k), product_coeff(q, d, k) + coeff(r, k), m)
}

/// The sum of the products `a[i] * b[i]` over the indices of `a`.
pub open spec fn weighted_sum(a: Seq<int>, b: Seq<int>) -> int
    decreases a.len(),
{
    if a.len() == 0 {
        0
    } else {
        weighted_sum(a.drop_last(), b) + a.last() * b[a.len() - 1]
    }
}

/// The sums `p[i + 1] + p[i + 2] * z + p[i + 3] * z^2 + ...`: the coefficients of
/// `(p(X) - p(z)) / (X - z)`.
pub open spec fn divided_difference(p: Seq<int>, z: int) -> Seq<int> {
    Seq::new(
        if p.len() == 0 {
            0
        } else {
            (p.len() - 1) as nat
        },
        |i: int| poly_eval(p.skip(i + 1), z),
    )
}

/// Each coefficient reduced modulo `m`.
pub open spec fn reduce(c: Seq<int>, m: int) -> Seq<int> {
    Seq::new(c.len(), |i: int| c[i] % m)
}

/// The quotient of `p` by `X - z` modulo `m`, without leading zeros.
pub open spec fn linear_quotient(p: Seq<int>, z: int, m: int) -> Seq<int> {
    trim(reduce(divided_difference(p, z), m))
}

/// Trimming changes no coefficient.
pub proof fn lemma_trim(c: Seq<int>)
    ensures
        is_trimmed(trim(c)),
        trim(c).len() <= c.len(),
        trim(c) == c.take(trim(c).len() as int),
        forall|k: int| #[trigger] coeff(trim(c), k) == coeff(c, k),
        is_zero_poly(c) <==> trim(c).len() == 0,
    decreases c.len(),
{
    if c.len() > 0 && c.last() == 0 {
        lemma_trim(c.drop_last());
        let t = trim(c);
        assert(c.drop_last().take(t.len() as int) =~= c.take(t.len() as int));
        assert forall|k: int| #[trigger] coeff(t, k) == coeff(c, k) by {
            assert(coeff(t, k) == coeff(c.drop_last(), k));
        }
        assert(is_zero_poly(c) <==> is_zero_poly(c.drop_last())) by {
            if is_zero_poly(c.drop_last()) {
                assert forall|i: int| 0 <= i < c.len() implies #[trigger] c[i] == 0 by {
                    if i < c.len() - 1 {
                        assert(c.drop_last()[i] == 0);
                    }
                }
            }
            if is_zero_poly(c) {
                assert forall|i: int| 0 <= i < c.drop_last().len() implies #[trigger] c.drop_last()[i]
                    == 0 by {
                    assert(c[i] == 0);
                }
            }
        }
    } else {
        assert(c.take(c.len() as int) =~= c);
        if c.len() > 0 {
            assert(c[c.len() - 1] != 0);
        }
    }
}

/// Two trimmed polynomials with the same coefficients are the same sequence.
pub proof fn lemma_trimmed_unique(a: Seq<int>, b: Seq<int>)
    requires
        is_trimmed(a),
        is_trimmed(b),
        forall|k: int| 0 <= k ==> #[trigger] coeff(a, k) == coeff(b, k),
    ensures
        a == b,
{
    if a.len() > b.len() {
        assert(coeff(a, a.len() - 1) == coeff(b, a.len() - 1));
    }
    if b.len() > a.len() {
        assert(coeff(a, b.len() - 1) == coeff(b, b.len() - 1));
    }
    assert forall|i: int| 0 <= i < a.len() implies a[i] == b[i] by {
        assert(coeff(a, i) == coeff(b, i));
    }
    assert(a =~= b);
}

/// Setting a quotient coefficient that was zero adds that multiple of the divisor,
/// shifted, to the product.
pub proof fn lemma_product_update(q: Seq<int>, d: Seq<int>, t: int, c: int, k: int)
    requires
        0 <= t < q.len(),
        q[t] == 0,
    ensures
        product_coeff(q.update(t, c), d, k) == product_coeff(q, d, k) + c * coeff(d, k - t),
    decreases q.len(),
{
    let u = q.update(t, c);
    if t == q.len() - 1 {
        assert(u.drop_last() =~= q.drop_last());
        assert(q.last() * coeff(d, k - (q.len() - 1)) == 0) by (nonlinear_arith)
            requires
                q.last() == 0,
        ;
    } else {
        assert(u.drop_last() =~= q.drop_last().update(t, c));
        lemma_product_update(q.drop_last(), d, t, c, k);
    }
}

/// A product whose left factor is zero is zero.
pub proof fn lemma_product_zero(q: Seq<int>, d: Seq<int>, k: int)
    requires
        is_zero_poly(q),
    ensures
        product_coeff(q, d, k) == 0,
    decreases q.len(),
{
    if q.len() > 0 {
        assert forall|i: int| 0 <= i < q.drop_last().len() implies #[trigger] q.drop_last()[i]
            == 0 by {
            assert(q[i] == 0);
        }
        lemma_product_zero(q.drop_last(), d, k);
        assert(q[q.len() - 1] == 0);
        assert(q.last() * coeff(d, k - (q.len() - 1)) == 0) by (nonlinear_arith)
            requires
                q.last() == 0,
        ;
    }
}

/// Trimming the left factor changes no coefficient of a product.
pub proof fn lemma_product_trim(q: Seq<int>, d: Seq<int>, k: int)
    ensures
        product_coeff(trim(q), d, k) == product_coeff(q, d, k),
    decreases q.len(),
{
    if q.len() > 0 && q.last() == 0 {
        lemma_product_trim(q.drop_last(), d, k);
        assert(q.last() * coeff(d, k - (q.len() - 1)) == 0) by (nonlinear_arith)
            requires
                q.last() == 0,
        ;
    }
}

/// The coefficients of a product with a linear polynomial.
pub proof fn lemma_product_linear(q: Seq<int>, d: Seq<int>, k: int)
    requires
        d.len() == 2,
    ensures
        product_coeff(q, d, k) == coeff(q, k) * d[0] + coeff(q, k - 1) * d[1],
    decreases q.len(),
{
    if q.len() > 0 {
        let s = q.drop_last();
        let n = q.len() - 1;
        lemma_product_linear(s, d, k);
        assert(0 * d[0] == 0 && 0 * d[1] == 0);
        if k == n {
            assert(coeff(s, k) == 0);
            assert(coeff(q, k - 1) == coeff(s, k - 1));
        } else if k - 1 == n {
            assert(coeff(s, k - 1) == 0);
            assert(coeff(q, k) == 0 && coeff(s, k) == 0);
        } else {
            assert(coeff(s, k) == coeff(q, k));
            assert(coeff(s, k - 1) == coeff(q, k - 1));
            assert(q.last() * 0 == 0);
        }
    }
}

/// Evaluation, peeled at the high end.
pub proof fn lemma_eval_last(c: Seq<int>, x: int)
    requires
        c.len() > 0,
    ensures
        poly_eval(c, x) == poly_eval(c.drop_last(), x) + c.last() * pow(x, (c.len() - 1) as nat),
    decreases c.len(),
{
    let n = c.len();
    if n == 1 {
        lemma_pow0(x);
        assert(poly_eval(c.skip(1), x) == 0);
        assert(poly_eval(c.drop_last(), x) == 0);
        assert(x * 0 == 0);
        assert(c.last() * 1 == c[0]);
    } else {
        lemma_eval_last(c.skip(1), x);
        assert(c.skip(1).last() == c.last());
        assert(c.drop_last()[0] == c[0]);
        assert(c.skip(1).drop_last() =~= c.drop_last().skip(1));
        let a = poly_eval(c.drop_last().skip(1), x);
        let l = c.last();
        let e = pow(x, (n - 2) as nat);
        assert(pow(x, (n - 1) as nat) == x * e) by {
            reveal(pow);
        }
        assert(x * (a + l * e) == x * a + l * (x * e)) by (nonlinear_arith);
    }
}

/// Trimming does not change the value.
pub proof fn lemma_eval_trim(c: Seq<int>, x: int)
    ensures
        poly_eval(trim(c), x) == poly_eval(c, x),
    decreases c.len(),
{
    if c.len() > 0 && c.last() == 0 {
        lemma_eval_trim(c.drop_last(), x);
        lemma_eval_last(c, x);
        assert(0 * pow(x, (c.len() - 1) as nat) == 0);
    }
}

/// Reducing the coefficients keeps the residue class of the value.
pub proof fn lemma_eval_reduce(c: Seq<int>, x: int, m: int)
    requires
        m > 0,
    ensures
        congruent(poly_eval(reduce(c, m), x), poly_eval(c, x), m),
    decreases c.len(),
{
    if c.len() == 0 {
        lemma_congruent_reflexive(0, m);
    } else {
        lemma_eval_reduce(c.skip(1), x, m);
        assert(reduce(c, m).skip(1) =~= reduce(c.skip(1), m));
        let a = poly_eval(reduce(c, m).skip(1), x);
        let b = poly_eval(c.skip(1), x);
        lemma_congruent_reflexive(x, m);
        lemma_congruent_product(x, x, a, b, m);
        lemma_congruent_residue(c[0], m);
        lemma_congruent_sum(c[0] % m, c[0], x * a, x * b, m);
    }
}

/// A polynomial whose coefficients are all zero has the value zero everywhere.
pub proof fn lemma_eval_zero(c: Seq<int>, x: int)
    requires
        is_zero_poly(c),
    ensures
        poly_eval(c, x) == 0,
    decreases c.len(),
{
    if c.len() > 0 {
        assert forall|i: int| 0 <= i < c.skip(1).len() implies #[trigger] c.skip(1)[i] == 0 by {
            assert(c[i + 1] == 0);
        }
        lemma_eval_zero(c.skip(1), x);
        assert(x * 0 == 0);
    }
}

/// `p(x) - p(z) = (x - z) * q(x)` for the polynomial `q` of divided differences.
pub proof fn lemma_divided_difference(p: Seq<int>, x: int, z: int)
    ensures
        poly_eval(p, x) - poly_eval(p, z) == (x - z) * poly_eval(divided_difference(p, z), x),
    decreases p.len(),
{
    let q = divided_difference(p, z);
    if p.len() == 0 {
        assert((x - z) * 0 == 0);
    } else {
        let s = p.skip(1);
        let t = divided_difference(s, z);
        lemma_divided_difference(s, x, z);
        if s.len() == 0 {
            assert(q.len() == 0);
            assert(x * 0 == 0 && z * 0 == 0 && (x - z) * 0 == 0);
        } else {
            assert(q[0] == poly_eval(s, z));
            assert forall|i: int| 0 <= i < t.len() implies q.skip(1)[i] == t[i] by {
                assert(p.skip(i + 2) =~= s.skip(i + 1));
            }
            assert(q.skip(1) =~= t);
            let u = poly_eval(s, x);
            let v = poly_eval(s, z);
            let w = poly_eval(t, x);
            assert(x * u - z * v == (x - z) * (v + x * w)) by (nonlinear_arith)
                requires
                    u - v == (x - z) * w,
            ;
        }
    }
}

/// Weights over the powers `g * x^i` sum to `g` times the value at `x`.
pub proof fn lemma_weighted_sum_of_powers(c: Seq<int>, b: Seq<int>, g: int, x: int, m: int)
    requires
        m > 0,
        c.len() <= b.len(),
        forall|i: int| 0 <= i < c.len() ==> congruent(#[trigger] b[i], g * pow(x, i as nat), m),
    ensures
        congruent(weighted_sum(c, b), g * poly_eval(c, x), m),
    decreases c.len(),
{
    if c.len() == 0 {
        assert(g * 0 == 0);
        lemma_congruent_reflexive(0, m);
    } else {
        let n = (c.len() - 1) as int;
        let s = c.drop_last();
        lemma_weighted_sum_of_powers(s, b, g, x, m);
        lemma_eval_last(c, x);
        let l = c.last();
        let e = pow(x, n as nat);
        lemma_congruent_reflexive(l, m);
        lemma_congruent_product(l, l, b[n], g * e, m);
        lemma_congruent_sum(weighted_sum(s, b), g * poly_eval(s, x), l * b[n], l * (g * e), m);
        assert(g * poly_eval(s, x) + l * (g * e) == g * (poly_eval(s, x) + l * e))
            by (nonlinear_arith);
    }
}

/// When all but the entry at `k` vanish modulo `m`, the weighted sum is that entry's term.
pub proof fn lemma_weighted_sum_of_one(a: Seq<int>, b: Seq<int>, k: int, m: int)
    requires
        m > 0,
        a.len() <= b.len(),
        forall|i: int| 0 <= i < a.len() && i != k ==> #[trigger] b[i] % m == 0,
    ensures
        congruent(weighted_sum(a, b), if 0 <= k < a.len() { a[k] * b[k] } else { 0 }, m),
    decreases a.len(),
{
    if a.len() == 0 {
        lemma_congruent_reflexive(0, m);
    } else {
        let n = (a.len() - 1) as int;
        let s = a.drop_last();
        lemma_weighted_sum_of_one(s, b, k, m);
        let rest = if 0 <= k < s.len() { s[k] * b[k] } else { 0 };
        if n == k {
            lemma_congruent_reflexive(a[n] * b[n], m);
            lemma_congruent_sum(weighted_sum(s, b), rest, a[n] * b[n], a[n] * b[n], m);
        } else {
            lemma_congruent_reflexive(a[n], m);
            lemma_congruent_product(a[n], a[n], b[n], 0, m);
            lemma_congruent_sum(weighted_sum(s, b), rest, a[n] * b[n], a[n] * 0, m);
        }
    }
}

/// A weighted sum depends on as many summands as there are weights.
pub proof fn lemma_weighted_sum_of_prefix(a: Seq<int>, b: Seq<int>, c: Seq<int>)
    requires
        forall|i: int| 0 <= i < a.len() ==> #[trigger] b[i] == c[i],
    ensures
        weighted_sum(a, b) == weighted_sum(a, c),
    decreases a.len(),
{
    if a.len() > 0 {
        lemma_weighted_sum_of_prefix(a.drop_last(), b, c);
        assert(b[a.len() - 1] == c[a.len() - 1]);
    }
}

/// The first `n` weights, with zeros where there are none.
spec fn weighted_coeffs(a: Seq<int>, b: Seq<int>, n: nat) -> int
    decreases n,
{
    if n == 0 {
        0
    } else {
        weighted_coeffs(a, b, (n - 1) as nat) + coeff(a, n - 1) * b[n - 1]
    }
}

/// Zero weights at the high end do not count.
proof fn lemma_weighted_coeffs(a: Seq<int>, b: Seq<int>, n: nat)
    requires
        a.len() <= n,
    ensures
        weighted_coeffs(a, b, n) == weighted_sum(a, b),
    decreases n,
{
    if n > a.len() {
        lemma_weighted_coeffs(a, b, (n - 1) as nat);
        assert(0 * b[n - 1] == 0);
    } else if n > 0 {
        let s = a.drop_last();
        let u = (n - 1) as nat;
        lemma_weighted_coeffs(s, b, u);
        lemma_weighted_coeffs_prefix(s, a, b, u);
    }
}

proof fn lemma_weighted_coeffs_prefix(s: Seq<int>, a: Seq<int>, b: Seq<int>, n: nat)
    requires
        forall|k: int| 0 <= k < n ==> #[trigger] coeff(s, k) == coeff(a, k),
    ensures
        weighted_coeffs(s, b, n) == weighted_coeffs(a, b, n),
    decreases n,
{
    if n > 0 {
        lemma_weighted_coeffs_prefix(s, a, b, (n - 1) as nat);
        assert(coeff(s, n - 1) == coeff(a, n - 1));
    }
}

/// Weights that are a linear combination give that combination of the weighted sums.
pub proof fn lemma_weighted_sum_of_combination(
    a: int,
    p: Seq<int>,
    b: int,
    q: Seq<int>,
    combination: Seq<int>,
    e: Seq<int>,
    n: nat,
    m: int,
)
    requires
        m > 0,
        p.len() <= n,
        q.len() <= n,
        combination.len() <= n,
        forall|k: int|
            0 <= k ==> congruent(
                #[trigger] coeff(combination, k),
                a * coeff(p, k) + b * coeff(q, k),
                m,
            ),
    ensures
        congruent(
            weighted_sum(combination, e),
            a * weighted_sum(p, e) + b * weighted_sum(q, e),
            m,
        ),
{
    lemma_weighted_coeffs(p, e, n);
    lemma_weighted_coeffs(q, e, n);
    lemma_weighted_coeffs(combination, e, n);
    lemma_weighted_coeffs_of_combination(a, p, b, q, combination, e, n, m);
}

proof fn lemma_weighted_coeffs_of_combination(
    a: int,
    p: Seq<int>,
    b: int,
    q: Seq<int>,
    combination: Seq<int>,
    e: Seq<int>,
    n: nat,
    m: int,
)
    requires
        m > 0,
        forall|k: int|
            0 <= k ==> congruent(
                #[trigger] coeff(combination, k),
                a * coeff(p, k) + b * coeff(q, k),
                m,
            ),
    ensures
        congruent(
            weighted_coeffs(combination, e, n),
            a * weighted_coeffs(p, e, n) + b * weighted_coeffs(q, e, n),
            m,
        ),
    decreases n,
{
    if n == 0 {
        assert(a * 0 == 0 && b * 0 == 0);
        lemma_congruent_reflexive(0, m);
    } else {
        let l = (n - 1) as nat;
        lemma_weighted_coeffs_of_combination(a, p, b, q, combination, e, l, m);
        let (x, y, z) = (coeff(p, n - 1), coeff(q, n - 1), coeff(combination, n - 1));
        let c = e[n - 1];
        let (u, v) = (weighted_coeffs(p, e, l), weighted_coeffs(q, e, l));
        lemma_congruent_reflexive(c, m);
        assert(congruent(z, a * x + b * y, m));
        lemma_congruent_product(z, a * x + b * y, c, c, m);
        lemma_congruent_sum(
            weighted_coeffs(combination, e, l),
            a * u + b * v,
            z * c,
            (a * x + b * y) * c,
            m,
        );
        let (s, t) = (x * c, y * c);
        assert((a * x + b * y) * c == a * (x * c) + b * (y * c)) by (nonlinear_arith);
        assert(a * (u + s) == a * u + a * s) by (nonlinear_arith);
        assert(b * (v + t) == b * v + b * t) by (nonlinear_arith);
    }
}

/// The coefficients of a quotient by `X - z` are the reduced divided differences.
proof fn lemma_linear_quotient_coeff(
    p: Seq<int>,
    z: int,
    d: Seq<int>,
    q: Seq<int>,
    r: Seq<int>,
    m: int,
    k: int,
)
    requires
        m > 1,
        d.len() == 2,
        d[1] == 1,
        congruent(d[0], -z, m),
        is_quotient_and_remainder(p, d, q, r, m),
        r.len() <= 1,
        q.len() < p.len() || q.len() == 0,
        forall|i: int| 0 <= i < q.len() ==> 0 <= #[trigger] q[i] < m,
        0 <= k,
    ensures
        coeff(q, k) == coeff(reduce(divided_difference(p, z), m), k),
    decreases p.len() - k,
{
    let dd = divided_difference(p, z);
    if k < p.len() - 1 {
        lemma_linear_quotient_coeff(p, z, d, q, r, m, k + 1);
        let next = coeff(q, k + 1);
        let tail = poly_eval(p.skip(k + 2), z);
        assert(congruent(next, tail, m)) by {
            if k + 1 < p.len() - 1 {
                assert(dd[k + 1] == tail);
                lemma_congruent_residue(tail, m);
            } else {
                assert(p.skip(k + 2).len() == 0);
                lemma_congruent_reflexive(0, m);
            }
        }
        let head = poly_eval(p.skip(k + 1), z);
        assert(p.skip(k + 1).skip(1) =~= p.skip(k + 2));
        assert(head == p[k + 1] + z * tail);
        let here = coeff(q, k);
        lemma_product_linear(q, d, k + 1);
        assert(coeff(p, k + 1) == p[k + 1]);
        assert(coeff(r, k + 1) == 0);
        assert(congruent(p[k + 1], next * d[0] + here * 1, m));
        // next * d[0] is congruent to -(z * tail)
        lemma_congruent_product(next, tail, d[0], -z, m);
        assert(tail * (-z) == -(z * tail)) by (nonlinear_arith);
        lemma_congruent_reflexive(here, m);
        lemma_congruent_sum(next * d[0], -(z * tail), here, here, m);
        lemma_congruent_transitive(p[k + 1], next * d[0] + here, -(z * tail) + here, m);
        lemma_congruent_reflexive(z * tail, m);
        lemma_congruent_sum(p[k + 1], -(z * tail) + here, z * tail, z * tail, m);
        assert(congruent(head, here, m));
        lemma_residue_of_congruent(head, here, m);
        lemma_congruent_residue(here, m);
        assert(0 <= here < m);
        lemma_congruent_in_range(here % m, here, m);
        assert(dd[k] == head);
    }
}

/// Long division by `X - z` gives the reduced divided differences.
pub proof fn lemma_linear_quotient(
    p: Seq<int>,
    z: int,
    d: Seq<int>,
    q: Seq<int>,
    r: Seq<int>,
    m: int,
)
    requires
        m > 1,
        d.len() == 2,
        d[1] == 1,
        congruent(d[0], -z, m),
        is_quotient_and_remainder(p, d, q, r, m),
        r.len() <= 1,
        is_trimmed(q),
        q.len() < p.len() || q.len() == 0,
        forall|i: int| 0 <= i < q.len() ==> 0 <= #[trigger] q[i] < m,
    ensures
        q == linear_quotient(p, z, m),
{
    let full = reduce(divided_difference(p, z), m);
    lemma_trim(full);
    assert forall|k: int| 0 <= k implies #[trigger] coeff(q, k) == coeff(trim(full), k) by {
        lemma_linear_quotient_coeff(p, z, d, q, r, m, k);
        assert(coeff(trim(full), k) == coeff(full, k));
    }
    lemma_trimmed_unique(q, trim(full));
}

/// The value of the quotient at `x`: `(x - z) * q(x)` is congruent to `p(x) - p(z)`.
pub proof fn lemma_eval_linear_quotient(p: Seq<int>, x: int, z: int, m: int)
    requires
        m > 0,
    ensures
        congruent(
            (x - z) * poly_eval(linear_quotient(p, z, m), x),
            poly_eval(p, x) - poly_eval(p, z),
            m,
        ),
{
    let dd = divided_difference(p, z);
    lemma_eval_trim(reduce(dd, m), x);
    lemma_eval_reduce(dd, x, m);
    lemma_congruent_reflexive(x - z, m);
    lemma_congruent_product(
        x - z,
        x - z,
        poly_eval(reduce(dd, m), x),
        poly_eval(dd, x),
        m,
    );
    lemma_divided_difference(p, x, z);
}

/// The quotient by `X - z` has one coefficient less than the polynomial without its
/// leading zeros, at the most.
pub proof fn lemma_linear_quotient_len(p: Seq<int>, z: int, m: int)
    requires
        m > 0,
    ensures
        linear_quotient(p, z, m).len() < trim(p).len() || linear_quotient(p, z, m).len() == 0,
{
    let full = reduce(divided_difference(p, z), m);
    let n = linear_quotient(p, z, m).len() as int;
    lemma_trim(full);
    lemma_trim(p);
    if n > 0 && n >= trim(p).len() {
        let tail = p.skip(n);
        assert forall|i: int| 0 <= i < tail.len() implies #[trigger] tail[i] == 0 by {
            assert(coeff(trim(p), n + i) == coeff(p, n + i));
        }
        lemma_eval_zero(tail, z);
        assert(coeff(trim(full), n - 1) == coeff(full, n - 1));
        assert(full[n - 1] == 0int % m);
        lemma_congruent_residue(0, m);
        lemma_congruent_in_range(0int % m, 0, m);
        assert(false);
    }
}

/// What the value of a polynomial is: nothing for no coefficient, and each further
/// coefficient adds its product with the next power.
pub proof fn law_value_is_a_sum_of_powers(c: Seq<int>, a: int, x: int)
    ensures
        poly_eval(Seq::empty(), x) == 0,
        poly_eval(c.push(a), x) == poly_eval(c, x) + a * pow(x, c.len()),
{
    lemma_eval_last(c.push(a), x);
    assert(c.push(a).drop_last() =~= c);
}

/// What a weighted sum is: nothing for no weight, and each further weight adds its product
/// with the summand of the same index.
pub proof fn law_weighted_sum_of_products(weights: Seq<int>, w: int, b: Seq<int>)
    ensures
        weighted_sum(Seq::empty(), b) == 0,
        weighted_sum(weights.push(w), b) == weighted_sum(weights, b) + w * b[weights.len() as int],
{
    assert(weights.push(w).drop_last() =~= weights);
}

/// What trimming is: a prefix that ends in a coefficient other than zero, after which there
/// are zeros only.
pub proof fn law_trimming_cuts_zeros(c: Seq<int>)
    ensures
        trim(c).len() <= c.len(),
        forall|i: int| 0 <= i < trim(c).len() ==> #[trigger] trim(c)[i] == c[i],
        forall|i: int| trim(c).len() <= i < c.len() ==> #[trigger] c[i] == 0,
        trim(c).len() > 0 ==> trim(c)[trim(c).len() - 1] != 0,
        c.len() > 0 && c[c.len() - 1] != 0 ==> trim(c) == c,
{
    lemma_trim(c);
    let t = trim(c);
    assert forall|i: int| t.len() <= i < c.len() implies #[trigger] c[i] == 0 by {
        assert(coeff(t, i) == coeff(c, i));
    }
}

/// Weighted sums with weights that differ at one index only differ by the difference of the
/// two weights, times the summand there.
pub proof fn lemma_weighted_sums_differ(a: Seq<int>, b: Seq<int>, e: Seq<int>, k: int)
    requires
        a.len() == b.len(),
        0 <= k < a.len(),
        forall|i: int| 0 <= i < a.len() && i != k ==> #[trigger] a[i] == b[i],
    ensures
        weighted_sum(a, e) - weighted_sum(b, e) == (a[k] - b[k]) * e[k],
    decreases a.len(),
{
    let n = (a.len() - 1) as int;
    let (s, t) = (a.drop_last(), b.drop_last());
    if k == n {
        lemma_weighted_sums_agree(s, t, e);
        let (x, y, z) = (a[n], b[n], e[n]);
        assert(x * z - y * z == (x - y) * z) by (nonlinear_arith);
    } else {
        assert(a[n] == b[n]);
        lemma_weighted_sums_differ(s, t, e, k);
    }
}

proof fn lemma_weighted_sums_agree(a: Seq<int>, b: Seq<int>, e: Seq<int>)
    requires
        a.len() == b.len(),
        forall|i: int| 0 <= i < a.len() ==> #[trigger] a[i] == b[i],
    ensures
        weighted_sum(a, e) == weighted_sum(b, e),
{
    assert(a =~= b);
}

} // verus!
