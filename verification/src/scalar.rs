//! The executable scalar of the library: an exact rational number backed by
//! arbitrary-precision integers, so that every arithmetic operation is total
//! and exact. Its ghost view is a `Rat`, and every operation's contract says
//! precisely which rational comes out.

use vstd::prelude::*;

use crate::bigint::{bi_add, bi_clone, bi_eq, bi_from_i64, bi_lt, bi_mul, bi_neg, bi_sub, int_of};
use crate::rat::{
    lemma_add_wf, lemma_div_wf, rat_abs, rat_add, rat_div, rat_eqv, rat_lt, rat_mul, rat_neg,
    rat_of_int, rat_one, rat_sub, rat_wf, rat_zero, Rat,
};

verus! {

/// An exact rational scalar: a numerator and a positive denominator.
/// The pair is not reduced; equality compares the represented rationals.
#[derive(Debug)]
pub struct Scalar {
    numer: num::BigInt,
    denom: num::BigInt,
}

impl View for Scalar {
    type V = Rat;

    closed spec fn view(&self) -> Rat {
        Rat { n: int_of(self.numer), d: int_of(self.denom) }
    }
}

impl Scalar {
    /// The rational `n / d`. A negative sign is moved into the numerator.
    pub fn new(n: i64, d: i64) -> (r: Scalar)
        requires
            d != 0,
        ensures
            rat_wf(r@),
            rat_eqv(r@, Rat { n: n as int, d: d as int }),
    {
        let nn = bi_from_i64(n);
        let dd = bi_from_i64(d);
        if d < 0 {
            let r = Scalar { numer: bi_neg(&nn), denom: bi_neg(&dd) };
            proof {
                assert((-(n as int)) * (d as int) == (n as int) * (-(d as int)))
                    by (nonlinear_arith);
            }
            r
        } else {
            Scalar { numer: nn, denom: dd }
        }
    }

    /// The rational holding the integer `v`.
    pub fn from_int(v: i64) -> (r: Scalar)
        ensures
            r@ == rat_of_int(v as int),
            rat_wf(r@),
    {
        Scalar { numer: bi_from_i64(v), denom: bi_from_i64(1) }
    }

    /// The scalar zero.
    pub fn zero() -> (r: Scalar)
        ensures
            r@ == rat_zero(),
            rat_wf(r@),
    {
        Scalar { numer: bi_from_i64(0), denom: bi_from_i64(1) }
    }

    /// The scalar one.
    pub fn one() -> (r: Scalar)
        ensures
            r@ == rat_one(),
            rat_wf(r@),
    {
        Scalar { numer: bi_from_i64(1), denom: bi_from_i64(1) }
    }

    /// A borrow of the numerator.
    pub fn numer(&self) -> (r: &num::BigInt)
        ensures
            int_of(*r) == self@.n,
    {
        &self.numer
    }

    /// A borrow of the denominator.
    pub fn denom(&self) -> (r: &num::BigInt)
        ensures
            int_of(*r) == self@.d,
    {
        &self.denom
    }

    /// An independent copy holding the same rational.
    pub fn duplicate(&self) -> (r: Scalar)
        ensures
            r@ == self@,
    {
        Scalar { numer: bi_clone(&self.numer), denom: bi_clone(&self.denom) }
    }

    /// Exact sum.
    pub fn add(&self, other: &Scalar) -> (r: Scalar)
        requires
            rat_wf(self@),
            rat_wf(other@),
        ensures
            r@ == rat_add(self@, other@),
            rat_wf(r@),
    {
        proof {
            lemma_add_wf(self@, other@);
        }
        Scalar {
            numer: bi_add(&bi_mul(&self.numer, &other.denom), &bi_mul(&other.numer, &self.denom)),
            denom: bi_mul(&self.denom, &other.denom),
        }
    }

    /// Exact difference.
    pub fn sub(&self, other: &Scalar) -> (r: Scalar)
        requires
            rat_wf(self@),
            rat_wf(other@),
        ensures
            r@ == rat_sub(self@, other@),
            rat_wf(r@),
    {
        proof {
            lemma_add_wf(self@, other@);
        }
        Scalar {
            numer: bi_sub(&bi_mul(&self.numer, &other.denom), &bi_mul(&other.numer, &self.denom)),
            denom: bi_mul(&self.denom, &other.denom),
        }
    }

    /// Exact product.
    pub fn mul(&self, other: &Scalar) -> (r: Scalar)
        requires
            rat_wf(self@),
            rat_wf(other@),
        ensures
            r@ == rat_mul(self@, other@),
            rat_wf(r@),
    {
        proof {
            lemma_add_wf(self@, other@);
        }
        Scalar {
            numer: bi_mul(&self.numer, &other.numer),
            denom: bi_mul(&self.denom, &other.denom),
        }
    }

    /// Exact negation.
    pub fn neg(&self) -> (r: Scalar)
        requires
            rat_wf(self@),
        ensures
            r@ == rat_neg(self@),
            rat_wf(r@),
    {
        Scalar { numer: bi_neg(&self.numer), denom: bi_clone(&self.denom) }
    }

    /// Exact quotient; the divisor must not be zero.
    pub fn div(&self, other: &Scalar) -> (r: Scalar)
        requires
            rat_wf(self@),
            rat_wf(other@),
            other@.n != 0,
        ensures
            r@ == rat_div(self@, other@),
            rat_wf(r@),
    {
        let n = bi_mul(&self.numer, &other.denom);
        let d = bi_mul(&self.denom, &other.numer);
        proof {
            lemma_div_wf(self@, other@);
            assert(int_of(d) < 0 <==> other@.n < 0) by (nonlinear_arith)
                requires
                    int_of(d) == self@.d * other@.n,
                    self@.d > 0,
                    other@.n != 0,
            ;
        }
        let zero = bi_from_i64(0);
        if bi_lt(&d, &zero) {
            Scalar { numer: bi_neg(&n), denom: bi_neg(&d) }
        } else {
            Scalar { numer: n, denom: d }
        }
    }

    /// Whether this scalar is the rational zero.
    pub fn is_zero(&self) -> (r: bool)
        requires
            rat_wf(self@),
        ensures
            r <==> self@.n == 0,
    {
        let zero = bi_from_i64(0);
        bi_eq(&self.numer, &zero)
    }

    /// Whether this scalar's absolute value is below the other's.
    pub fn abs_lt(&self, other: &Scalar) -> (r: bool)
        requires
            rat_wf(self@),
            rat_wf(other@),
        ensures
            r <==> rat_lt(rat_abs(self@), rat_abs(other@)),
    {
        let zero = bi_from_i64(0);
        let a = if bi_lt(&self.numer, &zero) {
            bi_neg(&self.numer)
        } else {
            bi_clone(&self.numer)
        };
        let b = if bi_lt(&other.numer, &zero) {
            bi_neg(&other.numer)
        } else {
            bi_clone(&other.numer)
        };
        bi_lt(&bi_mul(&a, &other.denom), &bi_mul(&b, &self.denom))
    }
}

impl PartialEq for Scalar {
    /// Two scalars are equal when they stand for the same rational.
    fn eq(&self, other: &Scalar) -> (r: bool) {
        bi_eq(&bi_mul(&self.numer, &other.denom), &bi_mul(&other.numer, &self.denom))
    }
}

impl vstd::std_specs::cmp::PartialEqSpecImpl for Scalar {
    open spec fn obeys_eq_spec() -> bool {
        true
    }

    open spec fn eq_spec(&self, other: &Scalar) -> bool {
        rat_eqv(self@, other@)
    }
}

} // verus!
