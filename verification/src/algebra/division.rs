//! What holds of a quotient and a remainder.
use crate::algebra::congruence::{
    congruent, is_unit, lemma_cancel_unit, lemma_congruent_in_range, lemma_congruent_product,
    lemma_congruent_reflexive, lemma_congruent_residue, lemma_congruent_sum, lemma_congruent_symmetric,
    lemma_congruent_transitive,
};
use crate::algebra::polynomial::{
    coeff, divided_difference, is_quotient_and_remainder, is_trimmed, lemma_eval_last,
    lemma_product_linear, lemma_trim, lemma_trimmed_unique, linear_quotient, poly_eval,
    product_coeff, reduce,
};
use vstd::arithmetic::power::{lemma_pow0, pow};
use vstd::prelude::*;

verus! {

/// The first `n` coefficients of `c`, with zeros where it has none.
spec fn dense(c: Seq<int>, n: nat) -> Seq<int> {
    Seq::new(n, |k: int| coeff(c, k))
}

/// The first `n` coefficients of `X^t * c`.
spec fn shifted(c: Seq<int>, t: int, n: nat) -> Seq<int> {
    Seq::new(n, |k: int| coeff(c, k - t))
}

/// The first `n` coefficients of the product of `q` and `d`.
spec fn product(q: Seq<int>, d: Seq<int>, n: nat) -> Seq<int> {
    Seq::new(n, |k: int| product_coeff(q, d, k))
}

/// Zeros at the high end do not change the value.
proof fn lemma_eval_dense(c: Seq<int>, n: nat, x: int)
    requires
        c.len() <= n,
    ensures
        poly_eval(dense(c, n), x) == poly_eval(c, x),
    decreases n,
{
    if n > 0 {
        let s = dense(c, n);
        if c.len() == 0 {
            assert(s.skip(1) =~= dense(c, (n - 1) as nat));
            lemma_eval_dense(c, (n - 1) as nat, x);
            assert(x * 0 == 0);
        } else {
            assert(s.skip(1) =~= dense(c.skip(1), (n - 1) as nat));
            lemma_eval_dense(c.skip(1), (n - 1) as nat, x);
        }
    }
}

/// A shift by `t` multiplies the value by `x^t`.
proof fn lemma_eval_shifted(c: Seq<int>, t: nat, n: nat, x: int)
    requires
        c.len() + t <= n,
    ensures
        poly_eval(shifted(c, t as int, n), x) == pow(x, t) * poly_eval(c, x),
    decreases t,
{
    let s = shifted(c, t as int, n);
    if t == 0 {
        assert(s =~= dense(c, n));
        lemma_eval_dense(c, n, x);
        lemma_pow0(x);
        assert(1 * poly_eval(c, x) == poly_eval(c, x));
    } else {
        let u = (t - 1) as nat;
        assert(s.skip(1) =~= shifted(c, u as int, (n - 1) as nat));
        lemma_eval_shifted(c, u, (n - 1) as nat, x);
        assert(s[0] == 0);
        let e = pow(x, u);
        let v = poly_eval(c, x);
        assert(pow(x, t) == x * e) by {
            reveal(pow);
        }
        assert(x * (e * v) == (x * e) * v) by (nonlinear_arith);
    }
}

/// Evaluation is linear.
proof fn lemma_eval_combination(a: Seq<int>, b: Seq<int>, l: int, s: Seq<int>, x: int)
    requires
        a.len() == b.len() == s.len(),
        forall|k: int| 0 <= k < s.len() ==> #[trigger] s[k] == a[k] + l * b[k],
    ensures
        poly_eval(s, x) == poly_eval(a, x) + l * poly_eval(b, x),
    decreases s.len(),
{
    if s.len() == 0 {
        assert(l * 0 == 0);
    } else {
        lemma_eval_combination(a.skip(1), b.skip(1), l, s.skip(1), x);
        let u = poly_eval(a.skip(1), x);
        let v = poly_eval(b.skip(1), x);
        let b0 = b[0];
        assert(l * b0 + x * (u + l * v) == x * u + l * (b0 + x * v)) by (nonlinear_arith);
    }
}

/// The value of a product is the product of the values.
proof fn lemma_eval_product(q: Seq<int>, d: Seq<int>, n: nat, x: int)
    requires
        q.len() + d.len() <= n,
    ensures
        poly_eval(product(q, d, n), x) == poly_eval(q, x) * poly_eval(d, x),
    decreases q.len(),
{
    let e = poly_eval(d, x);
    if q.len() == 0 {
        let empty = Seq::<int>::empty();
        assert(product(q, d, n) =~= dense(empty, n));
        lemma_eval_dense(empty, n, x);
        assert(0 * e == 0);
    } else {
        let s = q.drop_last();
        let t = (q.len() - 1) as nat;
        let l = q.last();
        lemma_eval_product(s, d, n, x);
        lemma_eval_shifted(d, t, n, x);
        lemma_eval_combination(
            product(s, d, n),
            shifted(d, t as int, n),
            l,
            product(q, d, n),
            x,
        );
        lemma_eval_last(q, x);
        let v = poly_eval(s, x);
        let w = pow(x, t);
        assert(v * e + l * (w * e) == (v + l * w) * e) by (nonlinear_arith);
    }
}

/// Congruent coefficients give congruent values.
proof fn lemma_eval_congruent(a: Seq<int>, b: Seq<int>, x: int, m: int)
    requires
        m > 0,
        a.len() == b.len(),
        forall|k: int| 0 <= k < a.len() ==> congruent(#[trigger] a[k], b[k], m),
    ensures
        congruent(poly_eval(a, x), poly_eval(b, x), m),
    decreases a.len(),
{
    if a.len() == 0 {
        lemma_congruent_reflexive(0, m);
    } else {
        let (s, t) = (a.skip(1), b.skip(1));
        assert forall|k: int| 0 <= k < s.len() implies congruent(#[trigger] s[k], t[k], m) by {
            assert(congruent(a[k + 1], b[k + 1], m));
        }
        lemma_eval_congruent(s, t, x, m);
        lemma_congruent_reflexive(x, m);
        lemma_congruent_product(x, x, poly_eval(s, x), poly_eval(t, x), m);
        lemma_congruent_sum(a[0], b[0], x * poly_eval(s, x), x * poly_eval(t, x), m);
    }
}

/// Division is exact at every point: the value of the dividend is the value of the quotient
/// times that of the divisor, plus that of the remainder.
pub proof fn law_division_at_every_point(
    p: Seq<int>,
    d: Seq<int>,
    q: Seq<int>,
    r: Seq<int>,
    x: int,
    m: int,
)
    requires
        m > 0,
        is_quotient_and_remainder(p, d, q, r, m),
    ensures
        congruent(poly_eval(p, x), poly_eval(q, x) * poly_eval(d, x) + poly_eval(r, x), m),
{
    let n = p.len() + q.len() + d.len() + r.len();
    let a = dense(p, n);
    let b = Seq::new(n, |k: int| product_coeff(q, d, k) + coeff(r, k));
    assert forall|k: int| 0 <= k < n implies congruent(#[trigger] a[k], b[k], m) by {
        assert(congruent(coeff(p, k), product_coeff(q, d, k) + coeff(r, k), m));
    }
    lemma_eval_congruent(a, b, x, m);
    lemma_eval_dense(p, n, x);
    lemma_eval_dense(r, n, x);
    lemma_eval_product(q, d, n, x);
    lemma_eval_combination(product(q, d, n), dense(r, n), 1, b, x);
}

/// The remainder of the division by `X - z` is the value at `z`.
pub proof fn law_remainder_is_the_value(
    p: Seq<int>,
    z: int,
    d: Seq<int>,
    q: Seq<int>,
    r: Seq<int>,
    m: int,
)
    requires
        m > 0,
        d.len() == 2,
        d[1] == 1,
        congruent(d[0], -z, m),
        is_quotient_and_remainder(p, d, q, r, m),
        r.len() <= 1,
    ensures
        congruent(coeff(r, 0), poly_eval(p, z), m),
{
    law_division_at_every_point(p, d, q, r, z, m);
    assert(z * 0 == 0 && z * 1 == z);
    assert(poly_eval(d, z) == d[0] + z) by {
        let tail = d.skip(1);
        assert(poly_eval(tail.skip(1), z) == 0);
        assert(poly_eval(tail, z) == 1);
    }
    assert(poly_eval(r, z) == coeff(r, 0)) by {
        if r.len() == 1 {
            assert(poly_eval(r.skip(1), z) == 0);
        }
    }
    lemma_congruent_reflexive(z, m);
    lemma_congruent_sum(d[0], -z, z, z, m);
    let v = poly_eval(q, z);
    let e = poly_eval(d, z);
    lemma_congruent_reflexive(v, m);
    lemma_congruent_product(v, v, e, 0, m);
    lemma_congruent_reflexive(coeff(r, 0), m);
    lemma_congruent_sum(v * e, v * 0, coeff(r, 0), coeff(r, 0), m);
    lemma_congruent_transitive(poly_eval(p, z), v * e + coeff(r, 0), coeff(r, 0), m);
    lemma_congruent_symmetric(poly_eval(p, z), coeff(r, 0), m);
}

/// A product has no part of a factor that lies too far below the coefficient.
proof fn lemma_product_low(q: Seq<int>, d: Seq<int>, j: int)
    requires
        d.len() + q.len() <= j + 1,
    ensures
        product_coeff(q, d, j) == 0,
    decreases q.len(),
{
    if q.len() > 0 {
        lemma_product_low(q.drop_last(), d, j);
        assert(q.last() * 0 == 0);
    }
}

/// The product with a difference is the difference of the products.
proof fn lemma_product_difference(a: Seq<int>, b: Seq<int>, e: Seq<int>, d: Seq<int>, j: int)
    requires
        a.len() == b.len() == e.len(),
        forall|i: int| 0 <= i < e.len() ==> #[trigger] e[i] == a[i] - b[i],
    ensures
        product_coeff(e, d, j) == product_coeff(a, d, j) - product_coeff(b, d, j),
    decreases e.len(),
{
    if e.len() > 0 {
        lemma_product_difference(a.drop_last(), b.drop_last(), e.drop_last(), d, j);
        let c = coeff(d, j - (e.len() - 1));
        let (u, v) = (a.last(), b.last());
        assert(e.last() == u - v);
        assert((u - v) * c == u * c - v * c) by (nonlinear_arith);
    }
}

/// Zeros at the high end of the left factor do not change a product.
proof fn lemma_product_dense(q: Seq<int>, d: Seq<int>, n: nat, j: int)
    requires
        q.len() <= n,
    ensures
        product_coeff(dense(q, n), d, j) == product_coeff(q, d, j),
    decreases n,
{
    let s = dense(q, n);
    if q.len() == n {
        assert(s =~= q);
    } else {
        let u = (n - 1) as nat;
        assert(s.drop_last() =~= dense(q, u));
        lemma_product_dense(q, d, u, j);
        assert(s.last() == 0);
        assert(0 * coeff(d, j - (n - 1)) == 0);
    }
}

/// If the left factor ends in zeros after index `k`, the coefficient of a product at `k`
/// plus the degree of the right factor is the product of the coefficient at `k` with the
/// leading one.
proof fn lemma_product_top(e: Seq<int>, d: Seq<int>, k: int)
    requires
        0 <= k < e.len(),
        d.len() > 0,
        forall|i: int| k < i < e.len() ==> #[trigger] e[i] == 0,
    ensures
        product_coeff(e, d, k + d.len() - 1) == e[k] * d.last(),
    decreases e.len(),
{
    let j = k + d.len() - 1;
    if k == e.len() - 1 {
        lemma_product_low(e.drop_last(), d, j);
    } else {
        lemma_product_top(e.drop_last(), d, k);
        assert(e[e.len() - 1] == 0);
        assert(0 * coeff(d, j - (e.len() - 1)) == 0);
    }
}

/// The coefficients of two quotients agree, from the highest down to the one at `k`.
proof fn lemma_same_quotient(
    p: Seq<int>,
    d: Seq<int>,
    q: Seq<int>,
    r: Seq<int>,
    q2: Seq<int>,
    r2: Seq<int>,
    n: nat,
    k: int,
    m: int,
)
    requires
        m > 0,
        d.len() > 0,
        is_unit(d.last(), m),
        is_quotient_and_remainder(p, d, q, r, m),
        is_quotient_and_remainder(p, d, q2, r2, m),
        r.len() < d.len(),
        r2.len() < d.len(),
        forall|i: int| 0 <= i < q.len() ==> 0 <= #[trigger] q[i] < m,
        forall|i: int| 0 <= i < q2.len() ==> 0 <= #[trigger] q2[i] < m,
        n == q.len() + q2.len(),
        0 <= k <= n,
    ensures
        forall|i: int| k <= i ==> #[trigger] coeff(q, i) == coeff(q2, i),
    decreases n - k,
{
    if k < n {
        lemma_same_quotient(p, d, q, r, q2, r2, n, k + 1, m);
        let (a, b) = (dense(q, n), dense(q2, n));
        let e = Seq::new(n, |i: int| a[i] - b[i]);
        let j = k + d.len() - 1;
        assert forall|i: int| k < i < e.len() implies #[trigger] e[i] == 0 by {
            assert(coeff(q, i) == coeff(q2, i));
        }
        lemma_product_dense(q, d, n, j);
        lemma_product_dense(q2, d, n, j);
        lemma_product_difference(a, b, e, d, j);
        lemma_product_top(e, d, k);
        let (x, y) = (product_coeff(q, d, j), product_coeff(q2, d, j));
        assert(coeff(r, j) == 0 && coeff(r2, j) == 0);
        assert(congruent(coeff(p, j), x + coeff(r, j), m));
        assert(congruent(coeff(p, j), y + coeff(r2, j), m));
        lemma_congruent_symmetric(coeff(p, j), x, m);
        lemma_congruent_transitive(x, coeff(p, j), y, m);
        let lead = d.last();
        let gap = e[k];
        assert(gap * lead == lead * gap) by (nonlinear_arith);
        lemma_cancel_unit(lead, gap, m);
        lemma_congruent_in_range(coeff(q, k), coeff(q2, k), m);
        assert forall|i: int| k <= i implies #[trigger] coeff(q, i) == coeff(q2, i) by {
            if i > k {
                assert(coeff(q, i) == coeff(q2, i));
            }
        }
    }
}

/// Quotient and remainder are unique: two pairs that divide the same polynomial by the same
/// divisor are equal, if both remainders are shorter than the divisor, the leading
/// coefficient of the divisor has an inverse, and all four are canonical and without leading
/// zeros.
pub proof fn law_division_is_unique(
    p: Seq<int>,
    d: Seq<int>,
    q: Seq<int>,
    r: Seq<int>,
    q2: Seq<int>,
    r2: Seq<int>,
    m: int,
)
    requires
        m > 0,
        d.len() > 0,
        is_unit(d.last(), m),
        is_quotient_and_remainder(p, d, q, r, m),
        is_quotient_and_remainder(p, d, q2, r2, m),
        r.len() < d.len(),
        r2.len() < d.len(),
        is_trimmed(q) && is_trimmed(r) && is_trimmed(q2) && is_trimmed(r2),
        forall|i: int| 0 <= i < q.len() ==> 0 <= #[trigger] q[i] < m,
        forall|i: int| 0 <= i < r.len() ==> 0 <= #[trigger] r[i] < m,
        forall|i: int| 0 <= i < q2.len() ==> 0 <= #[trigger] q2[i] < m,
        forall|i: int| 0 <= i < r2.len() ==> 0 <= #[trigger] r2[i] < m,
    ensures
        q == q2,
        r == r2,
{
    lemma_same_quotient(p, d, q, r, q2, r2, q.len() + q2.len(), 0, m);
    lemma_trimmed_unique(q, q2);
    assert forall|k: int| 0 <= k implies #[trigger] coeff(r, k) == coeff(r2, k) by {
        let x = product_coeff(q, d, k);
        assert(congruent(coeff(p, k), x + coeff(r, k), m));
        assert(congruent(coeff(p, k), x + coeff(r2, k), m));
        lemma_congruent_symmetric(coeff(p, k), x + coeff(r, k), m);
        lemma_congruent_transitive(x + coeff(r, k), coeff(p, k), x + coeff(r2, k), m);
        lemma_congruent_reflexive(x, m);
        lemma_congruent_sum(x + coeff(r, k), x + coeff(r2, k), x, x, m);
        lemma_congruent_in_range(coeff(r, k), coeff(r2, k), m);
    }
    lemma_trimmed_unique(r, r2);
}

/// The quotient by `X - z` is one: with the value at `z` as the remainder, it divides the
/// polynomial.
pub proof fn law_linear_quotient_divides(p: Seq<int>, z: int, m: int)
    requires
        m > 0,
    ensures
        is_quotient_and_remainder(
            p,
            seq![-z, 1],
            linear_quotient(p, z, m),
            seq![poly_eval(p, z)],
            m,
        ),
{
    let d = seq![-z, 1int];
    let q = linear_quotient(p, z, m);
    let r = seq![poly_eval(p, z)];
    let dd = divided_difference(p, z);
    let full = reduce(dd, m);
    lemma_trim(full);
    assert forall|k: int| 0 <= k implies congruent(
        #[trigger] coeff(p, k),
        product_coeff(q, d, k) + coeff(r, k),
        m,
    ) by {
        lemma_product_linear(q, d, k);
        assert(coeff(q, k) == coeff(full, k) && coeff(q, k - 1) == coeff(full, k - 1));
        // above the coefficient stands `here`, and `there` is the coefficient plus z times it
        let here = if k < p.len() { poly_eval(p.skip(k + 1), z) } else { 0 };
        let there = if k < p.len() { poly_eval(p.skip(k), z) } else { 0 };
        assert(congruent(coeff(full, k), here, m)) by {
            if k < dd.len() {
                assert(dd[k] == here);
                lemma_congruent_residue(here, m);
            } else {
                lemma_congruent_reflexive(0, m);
            }
        }
        assert(there == coeff(p, k) + z * here) by {
            assert(z * 0 == 0);
            if k < p.len() {
                assert(p.skip(k).skip(1) =~= p.skip(k + 1));
            }
        }
        if k == 0 {
            assert(p.skip(0) =~= p);
            assert(coeff(r, 0) == there);
            assert(0 * 1 == 0);
        } else {
            assert(congruent(coeff(full, k - 1), there, m)) by {
                if k - 1 < dd.len() {
                    assert(dd[k - 1] == there);
                    lemma_congruent_residue(there, m);
                } else {
                    lemma_congruent_reflexive(0, m);
                }
            }
        }
        let (x, y) = (coeff(full, k), coeff(full, k - 1));
        lemma_congruent_reflexive(-z, m);
        lemma_congruent_product(x, here, -z, -z, m);
        assert(here * (-z) == -(z * here)) by (nonlinear_arith);
        lemma_congruent_reflexive(there, m);
        if k == 0 {
            lemma_congruent_sum(x * (-z), -(z * here), there, there, m);
            lemma_congruent_symmetric(x * (-z) + there, coeff(p, k), m);
        } else {
            assert(y * 1 == y) by (nonlinear_arith);
            lemma_congruent_sum(x * (-z), -(z * here), y, there, m);
            lemma_congruent_symmetric(x * (-z) + y, coeff(p, k), m);
        }
    }
}

} // verus!
