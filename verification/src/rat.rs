//! The ghost model of a matrix entry: an exact rational number, held as a
//! numerator and a positive denominator. The representation is not reduced,
//! so two values may stand for the same rational; `rat_eqv` is that relation.

use vstd::prelude::*;

verus! {

/// A rational number as a numerator/denominator pair of unbounded integers.
pub struct Rat {
    pub n: int,
    pub d: int,
}

/// A representation is well formed when its denominator is positive.
pub open spec fn rat_wf(a: Rat) -> bool {
    a.d > 0
}

/// `a` and `b` stand for the same rational number (cross multiplication).
pub open spec fn rat_eqv(a: Rat, b: Rat) -> bool {
    a.n * b.d == b.n * a.d
}

/// The rational zero.
pub open spec fn rat_zero() -> Rat {
    Rat { n: 0, d: 1 }
}

/// The rational one.
pub open spec fn rat_one() -> Rat {
    Rat { n: 1, d: 1 }
}

/// The rational holding the integer `n`.
pub open spec fn rat_of_int(n: int) -> Rat {
    Rat { n: n, d: 1 }
}

/// The sum of two rationals, on a common denominator.
pub open spec fn rat_add(a: Rat, b: Rat) -> Rat {
    Rat { n: a.n * b.d + b.n * a.d, d: a.d * b.d }
}

/// The difference of two rationals, on a common denominator.
pub open spec fn rat_sub(a: Rat, b: Rat) -> Rat {
    Rat { n: a.n * b.d - b.n * a.d, d: a.d * b.d }
}

/// The product of two rationals.
pub open spec fn rat_mul(a: Rat, b: Rat) -> Rat {
    Rat { n: a.n * b.n, d: a.d * b.d }
}

/// The additive inverse of a rational.
pub open spec fn rat_neg(a: Rat) -> Rat {
    Rat { n: -a.n, d: a.d }
}

/// The quotient of two rationals: multiply by the flipped divisor, moving
/// the divisor's sign into the numerator so the denominator stays positive.
pub open spec fn rat_div(a: Rat, b: Rat) -> Rat {
    if b.n >= 0 {
        Rat { n: a.n * b.d, d: a.d * b.n }
    } else {
        Rat { n: -(a.n * b.d), d: -(a.d * b.n) }
    }
}

/// The absolute value of a well-formed rational.
pub open spec fn rat_abs(a: Rat) -> Rat {
    if a.n < 0 {
        Rat { n: -a.n, d: a.d }
    } else {
        a
    }
}

/// Strict order on well-formed rationals.
pub open spec fn rat_lt(a: Rat, b: Rat) -> bool {
    a.n * b.d < b.n * a.d
}

/// `rat_eqv` is symmetric.
pub proof fn lemma_eqv_sym(a: Rat, b: Rat)
    requires
        rat_eqv(a, b),
    ensures
        rat_eqv(b, a),
{
}

/// `rat_eqv` is transitive on well-formed representations.
pub proof fn lemma_eqv_trans(a: Rat, b: Rat, c: Rat)
    requires
        rat_wf(a),
        rat_wf(b),
        rat_wf(c),
        rat_eqv(a, b),
        rat_eqv(b, c),
    ensures
        rat_eqv(a, c),
{
    assert(rat_eqv(a, c)) by (nonlinear_arith)
        requires
            a.d > 0,
            b.d > 0,
            c.d > 0,
            a.n * b.d == b.n * a.d,
            b.n * c.d == c.n * b.d,
    ;
}

/// Sums of well-formed rationals are well formed.
pub proof fn lemma_add_wf(a: Rat, b: Rat)
    requires
        rat_wf(a),
        rat_wf(b),
    ensures
        rat_wf(rat_add(a, b)),
        rat_wf(rat_sub(a, b)),
        rat_wf(rat_mul(a, b)),
        rat_wf(rat_neg(a)),
{
    assert(a.d * b.d > 0) by (nonlinear_arith)
        requires
            a.d > 0,
            b.d > 0,
    ;
}

/// Quotients by a rational with nonzero numerator are well formed, and
/// multiplying the quotient back by the divisor restores the dividend.
pub proof fn lemma_div_wf(a: Rat, b: Rat)
    requires
        rat_wf(a),
        rat_wf(b),
        b.n != 0,
    ensures
        rat_wf(rat_div(a, b)),
        rat_eqv(rat_mul(rat_div(a, b), b), a),
{
    assert(rat_wf(rat_div(a, b)) && rat_eqv(rat_mul(rat_div(a, b), b), a)) by (nonlinear_arith)
        requires
            a.d > 0,
            b.d > 0,
            b.n != 0,
    ;
}

/// Addition and subtraction are congruent with respect to `rat_eqv`.
pub proof fn lemma_add_congruence(a1: Rat, a2: Rat, b1: Rat, b2: Rat)
    requires
        rat_wf(a1),
        rat_wf(a2),
        rat_wf(b1),
        rat_wf(b2),
        rat_eqv(a1, a2),
        rat_eqv(b1, b2),
    ensures
        rat_eqv(rat_add(a1, b1), rat_add(a2, b2)),
        rat_eqv(rat_sub(a1, b1), rat_sub(a2, b2)),
{
    assert((a1.n * b1.d + b1.n * a1.d) * (a2.d * b2.d) == (a1.n * b1.d) * (a2.d * b2.d) + (b1.n
        * a1.d) * (a2.d * b2.d)) by (nonlinear_arith);
    assert((a1.n * b1.d - b1.n * a1.d) * (a2.d * b2.d) == (a1.n * b1.d) * (a2.d * b2.d) - (b1.n
        * a1.d) * (a2.d * b2.d)) by (nonlinear_arith);
    assert((a1.n * b1.d) * (a2.d * b2.d) == (a1.n * a2.d) * (b1.d * b2.d)) by (nonlinear_arith);
    assert((a2.n * a1.d) * (b1.d * b2.d) == (a2.n * b2.d) * (a1.d * b1.d)) by (nonlinear_arith);
    assert((b1.n * a1.d) * (a2.d * b2.d) == (b1.n * b2.d) * (a1.d * a2.d)) by (nonlinear_arith);
    assert((b2.n * b1.d) * (a1.d * a2.d) == (b2.n * a2.d) * (a1.d * b1.d)) by (nonlinear_arith);
    assert((a2.n * b2.d + b2.n * a2.d) * (a1.d * b1.d) == (a2.n * b2.d) * (a1.d * b1.d) + (b2.n
        * a2.d) * (a1.d * b1.d)) by (nonlinear_arith);
    assert((a2.n * b2.d - b2.n * a2.d) * (a1.d * b1.d) == (a2.n * b2.d) * (a1.d * b1.d) - (b2.n
        * a2.d) * (a1.d * b1.d)) by (nonlinear_arith);
}

/// Multiplication is congruent with respect to `rat_eqv`.
pub proof fn lemma_mul_congruence(a1: Rat, a2: Rat, b1: Rat, b2: Rat)
    requires
        rat_wf(a1),
        rat_wf(a2),
        rat_wf(b1),
        rat_wf(b2),
        rat_eqv(a1, a2),
        rat_eqv(b1, b2),
    ensures
        rat_eqv(rat_mul(a1, b1), rat_mul(a2, b2)),
{
    assert(rat_eqv(rat_mul(a1, b1), rat_mul(a2, b2))) by (nonlinear_arith)
        requires
            a1.d > 0,
            a2.d > 0,
            b1.d > 0,
            b2.d > 0,
            a1.n * a2.d == a2.n * a1.d,
            b1.n * b2.d == b2.n * b1.d,
    ;
}

/// Addition of rationals is commutative on the nose.
pub proof fn lemma_add_comm(a: Rat, b: Rat)
    ensures
        rat_add(a, b) == rat_add(b, a),
{
    assert(a.n * b.d + b.n * a.d == b.n * a.d + a.n * b.d);
    assert(a.d * b.d == b.d * a.d) by (nonlinear_arith);
}

/// Addition of rationals is associative on the nose.
pub proof fn lemma_add_assoc(a: Rat, b: Rat, c: Rat)
    ensures
        rat_add(rat_add(a, b), c) == rat_add(a, rat_add(b, c)),
{
    assert(rat_add(rat_add(a, b), c).n == rat_add(a, rat_add(b, c)).n) by (nonlinear_arith);
    assert(rat_add(rat_add(a, b), c).d == rat_add(a, rat_add(b, c)).d) by (nonlinear_arith);
}

/// Multiplication of rationals is commutative on the nose.
pub proof fn lemma_mul_comm(a: Rat, b: Rat)
    ensures
        rat_mul(a, b) == rat_mul(b, a),
{
    assert(a.n * b.n == b.n * a.n) by (nonlinear_arith);
    assert(a.d * b.d == b.d * a.d) by (nonlinear_arith);
}

/// Multiplication of rationals is associative on the nose.
pub proof fn lemma_mul_assoc(a: Rat, b: Rat, c: Rat)
    ensures
        rat_mul(rat_mul(a, b), c) == rat_mul(a, rat_mul(b, c)),
{
    assert(rat_mul(rat_mul(a, b), c).n == rat_mul(a, rat_mul(b, c)).n) by (nonlinear_arith);
    assert(rat_mul(rat_mul(a, b), c).d == rat_mul(a, rat_mul(b, c)).d) by (nonlinear_arith);
}

/// Multiplication distributes over addition, up to equivalence.
pub proof fn lemma_mul_distrib(a: Rat, b: Rat, c: Rat)
    requires
        rat_wf(a),
        rat_wf(b),
        rat_wf(c),
    ensures
        rat_eqv(rat_mul(a, rat_add(b, c)), rat_add(rat_mul(a, b), rat_mul(a, c))),
{
    assert(a.n * (b.n * c.d + c.n * b.d) == a.n * (b.n * c.d) + a.n * (c.n * b.d))
        by (nonlinear_arith);
    assert((a.n * (b.n * c.d) + a.n * (c.n * b.d)) * ((a.d * b.d) * (a.d * c.d)) == (a.n * (b.n
        * c.d)) * ((a.d * b.d) * (a.d * c.d)) + (a.n * (c.n * b.d)) * ((a.d * b.d) * (a.d * c.d)))
        by (nonlinear_arith);
    assert((a.n * (b.n * c.d)) * ((a.d * b.d) * (a.d * c.d)) == ((a.n * b.n) * (a.d * c.d)) * (a.d
        * (b.d * c.d))) by (nonlinear_arith);
    assert((a.n * (c.n * b.d)) * ((a.d * b.d) * (a.d * c.d)) == ((a.n * c.n) * (a.d * b.d)) * (a.d
        * (b.d * c.d))) by (nonlinear_arith);
    assert(((a.n * b.n) * (a.d * c.d) + (a.n * c.n) * (a.d * b.d)) * (a.d * (b.d * c.d)) == ((a.n
        * b.n) * (a.d * c.d)) * (a.d * (b.d * c.d)) + ((a.n * c.n) * (a.d * b.d)) * (a.d * (b.d
        * c.d))) by (nonlinear_arith);
}








/// Arithmetic on whole-number rationals mirrors integer arithmetic, on
/// the nose.
pub proof fn lemma_int_ops(x: int, y: int)
    ensures
        rat_mul(rat_of_int(x), rat_of_int(y)) == rat_of_int(x * y),
        rat_add(rat_of_int(x), rat_of_int(y)) == rat_of_int(x + y),
        rat_neg(rat_of_int(x)) == rat_of_int(-x),
        rat_add(rat_zero(), rat_of_int(x)) == rat_of_int(x),
{
    assert(x * 1 == x) by (nonlinear_arith);
    assert(y * 1 == y) by (nonlinear_arith);
    assert(1int * 1 == 1) by (nonlinear_arith);
    assert(0int * 1 == 0) by (nonlinear_arith);
}

/// Two sums of two terms each may be regrouped crosswise, on the nose.
pub proof fn lemma_add_rearrange(a: Rat, b: Rat, c: Rat, d: Rat)
    ensures
        rat_add(rat_add(a, b), rat_add(c, d)) == rat_add(rat_add(a, c), rat_add(b, d)),
{
    lemma_add_assoc(rat_add(a, b), c, d);
    lemma_add_assoc(a, b, c);
    lemma_add_comm(b, c);
    lemma_add_assoc(a, c, b);
    lemma_add_assoc(rat_add(a, c), b, d);
}

/// Multiplication distributes over addition from the right, up to
/// equivalence.
pub proof fn lemma_add_distrib_right(x: Rat, y: Rat, z: Rat)
    requires
        rat_wf(x),
        rat_wf(y),
        rat_wf(z),
    ensures
        rat_eqv(rat_mul(rat_add(x, y), z), rat_add(rat_mul(x, z), rat_mul(y, z))),
{
    lemma_mul_comm(rat_add(x, y), z);
    lemma_mul_distrib(z, x, y);
    lemma_mul_comm(z, x);
    lemma_mul_comm(z, y);
}



} // verus!
