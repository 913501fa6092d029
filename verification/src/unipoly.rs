//! Dense univariate polynomials over a prime field.
use crate::algebra::congruence::{
    lemma_congruent_product, lemma_congruent_reflexive, lemma_congruent_residue,
    lemma_congruent_sum, lemma_congruent_transitive, lemma_residue_in_range,
    lemma_residue_of_congruent,
};
use crate::algebra::polynomial::{is_zero_poly, poly_eval, trim};
use crate::field::{values, PrimeField};
use vstd::prelude::*;

verus! {

/// A polynomial by its coefficients: `a*X^2 + b*X + c` is stored as `vec![c, b, a]`.
#[derive(Debug, PartialEq, Eq)]
pub struct UniPoly<F: PrimeField> {
    /// The coefficients, lowest degree first.
    pub coeffs: Vec<F>,
}

impl<F: PrimeField> View for UniPoly<F> {
    type V = Seq<int>;

    open spec fn view(&self) -> Seq<int> {
        values(self.coeffs@)
    }
}

impl<F: PrimeField> Clone for UniPoly<F> {
    fn clone(&self) -> (res: Self)
        ensures
            res.coeffs@ == self.coeffs@,
    {
        let mut coeffs: Vec<F> = Vec::new();
        let mut i: usize = 0;
        while i < self.coeffs.len()
            invariant
                i <= self.coeffs@.len(),
                coeffs@ == self.coeffs@.take(i as int),
            decreases self.coeffs@.len() - i,
        {
            coeffs.push(self.coeffs[i]);
            assert(self.coeffs@.take(i + 1) =~= self.coeffs@.take(i as int).push(self.coeffs@[i as int]));
            i += 1;
        }
        assert(self.coeffs@.take(i as int) =~= self.coeffs@);
        UniPoly { coeffs }
    }
}

impl<F: PrimeField> UniPoly<F> {
    /// The polynomial with the given coefficients, without leading zeros.
    pub fn new(coeffs: Vec<F>) -> (res: Self)
        ensures
            res@ == trim(values(coeffs@)),
            res.coeffs@ == coeffs@.take(res.coeffs@.len() as int),
    {
        let mut res = UniPoly { coeffs };
        res.truncate_leading_zeros();
        res
    }

    /// Drops the zero coefficients at the high end.
    pub(crate) fn truncate_leading_zeros(&mut self)
        ensures
            final(self)@ == trim(old(self)@),
            final(self).coeffs@ == old(self).coeffs@.take(final(self).coeffs@.len() as int),
    {
        let ghost start = self.coeffs@;
        assert(start.take(start.len() as int) =~= start);
        while self.coeffs.len() > 0 && self.coeffs[self.coeffs.len() - 1].is_zero()
            invariant
                self.coeffs@.len() <= start.len(),
                self.coeffs@ == start.take(self.coeffs@.len() as int),
                trim(self@) == trim(values(start)),
            decreases self.coeffs@.len(),
        {
            let ghost before = self.coeffs@;
            let _ = self.coeffs.pop();
            assert(self.coeffs@ =~= start.take(self.coeffs@.len() as int));
            assert(self@ =~= values(before).drop_last());
        }
    }

    /// Whether every coefficient is zero.
    pub fn is_zero(&self) -> (res: bool)
        ensures
            res == is_zero_poly(self@),
            res <==> forall|i: int|
                0 <= i < self.coeffs@.len() ==> (#[trigger] self.coeffs@[i]).value() == 0,
    {
        let mut i: usize = 0;
        while i < self.coeffs.len()
            invariant
                i <= self.coeffs@.len(),
                forall|j: int| 0 <= j < i ==> #[trigger] self@[j] == 0,
                forall|j: int| 0 <= j < i ==> (#[trigger] self.coeffs@[j]).value() == 0,
            decreases self.coeffs@.len() - i,
        {
            if !self.coeffs[i].is_zero() {
                assert(self@[i as int] != 0);
                return false;
            }
            i += 1;
        }
        true
    }

    /// One less than the number of coefficients; `0` if there are none.
    pub fn degree(&self) -> (res: usize)
        ensures
            res == (if self@.len() == 0 { 0 } else { self@.len() - 1 }),
    {
        if self.coeffs.len() == 0 {
            0
        } else {
            self.coeffs.len() - 1
        }
    }

    /// The coefficient of the highest power, if there is any.
    pub fn leading_coefficient(&self) -> (res: Option<&F>)
        ensures
            self@.len() == 0 ==> res is None,
            self@.len() > 0 ==> res == Some(&self.coeffs@.last()),
    {
        if self.coeffs.len() == 0 {
            None
        } else {
            Some(&self.coeffs[self.coeffs.len() - 1])
        }
    }

    /// The value of the polynomial at `point`.
    pub fn evaluate(&self, point: &F) -> (res: F)
        ensures
            res.value() == poly_eval(self@, point.value()) % F::modulus(),
    {
        let ghost m = F::modulus();
        let ghost x = point.value();
        let mut acc = F::zero();
        let mut i: usize = self.coeffs.len();
        proof {
            F::lemma_modulus();
            lemma_residue_in_range(0, m);
            assert(self@.skip(i as int).len() == 0);
        }
        while i > 0
            invariant
                i <= self.coeffs@.len(),
                m == F::modulus(),
                m > 1,
                x == point.value(),
                acc.value() == poly_eval(self@.skip(i as int), x) % m,
            decreases i,
        {
            let ghost tail = poly_eval(self@.skip(i as int), x);
            i -= 1;
            let product = acc.times(point);
            let ghost old_acc = acc.value();
            acc = self.coeffs[i].plus(&product);
            proof {
                let c = self@[i as int];
                assert(self@.skip(i as int).skip(1) =~= self@.skip(i + 1));
                assert(self@.skip(i as int)[0] == c);
                lemma_congruent_residue(tail, m);
                lemma_congruent_reflexive(x, m);
                lemma_congruent_reflexive(c, m);
                lemma_congruent_product(old_acc, tail, x, x, m);
                lemma_congruent_residue(old_acc * x, m);
                lemma_congruent_transitive(product.value(), old_acc * x, tail * x, m);
                lemma_congruent_sum(c, c, product.value(), tail * x, m);
                assert(tail * x == x * tail) by (nonlinear_arith);
                lemma_residue_of_congruent(c + product.value(), c + x * tail, m);
            }
        }
        assert(self@.skip(0) =~= self@);
        acc
    }
}

/// The integer coefficients of a polynomial are those that it stores, one by one.
pub proof fn law_coefficients_are_those_stored<F: PrimeField>(p: UniPoly<F>, i: int)
    requires
        0 <= i < p.coeffs@.len(),
    ensures
        p@.len() == p.coeffs@.len(),
        p@[i] == p.coeffs@[i].value(),
{
}

} // verus!
