//! General laws of the matrix operations, stated over the ghost model and
//! proved once and for all.

use vstd::prelude::*;

use crate::lemmas::{
    lemma_dot_prefix_as_rsum, lemma_rsum_congruence, lemma_rsum_eqv, lemma_rsum_mul_right,
    lemma_rsum_swap, lemma_rsum_wf, rsum,
};
use crate::rat::{
    lemma_add_comm, lemma_add_wf, lemma_mul_assoc, lemma_mul_comm, rat_eqv, rat_mul, rat_wf, Rat,
};
use crate::specs::{mat_equiv, mat_wf, spec_col, spec_cols, spec_madd, spec_mmul, spec_transpose};

verus! {

/// Transposing twice gives back the original matrix, for every well-formed
/// matrix that is not a widthless stack of empty rows.
pub proof fn lemma_transpose_involution(v: Seq<Seq<Rat>>)
    requires
        mat_wf(v),
        v.len() > 0 ==> spec_cols(v) > 0,
    ensures
        spec_transpose(spec_transpose(v)) == v,
{
    let t = spec_transpose(v);
    let tt = spec_transpose(t);
    assert forall|i: int| 0 <= i < tt.len() implies #[trigger] tt[i] =~= v[i] by {
        assert(v[i].len() == spec_cols(v));
    }
    assert(tt =~= v);
}

/// Matrix addition is commutative: for equal-shape matrices the two sums
/// are the same matrix, entry for entry.
pub proof fn lemma_add_commutative(a: Seq<Seq<Rat>>, b: Seq<Seq<Rat>>)
    requires
        mat_wf(a),
        mat_wf(b),
        a.len() == b.len(),
        spec_cols(a) == spec_cols(b),
    ensures
        spec_madd(a, b) == spec_madd(b, a),
{
    let l = spec_madd(a, b);
    let r = spec_madd(b, a);
    assert forall|i: int| 0 <= i < l.len() implies #[trigger] l[i] =~= r[i] by {
        assert(a[i].len() == spec_cols(a));
        assert(b[i].len() == spec_cols(b));
        assert forall|j: int| 0 <= j < l[i].len() implies l[i][j] == r[i][j] by {
            lemma_add_comm(a[i][j], b[i][j]);
        }
    }
    assert(l =~= r);
}

/// The determinant of a two-by-two matrix, evaluated from the cofactor
/// expansion: the diagonal product minus the antidiagonal product.
pub proof fn lemma_det_two(a: Rat, b: Rat, c: Rat, d: Rat)
    ensures
        crate::specs::spec_det(seq![seq![a, b], seq![c, d]]) == crate::rat::rat_add(
            crate::rat::rat_add(crate::rat::rat_zero(), rat_mul(a, d)),
            crate::rat::rat_neg(rat_mul(b, c)),
        ),
{
    let v = seq![seq![a, b], seq![c, d]];
    reveal_with_fuel(crate::specs::det_expand, 3);
    assert(crate::specs::spec_minor(v, 0) =~~= seq![seq![d]]);
    assert(crate::specs::spec_minor(v, 1) =~~= seq![seq![c]]);
    assert(crate::specs::spec_det(seq![seq![d]]) == d);
    assert(crate::specs::spec_det(seq![seq![c]]) == c);
    assert(crate::specs::det_term(v, 0) == rat_mul(a, d));
    assert(crate::specs::det_term(v, 1) == crate::rat::rat_neg(rat_mul(b, c)));
    assert(crate::specs::det_expand(v, 0) == crate::rat::rat_zero());
    assert(crate::specs::det_expand(v, 1) == crate::rat::rat_add(
        crate::rat::rat_zero(),
        rat_mul(a, d),
    ));
    assert(crate::specs::det_expand(v, 2) == crate::rat::rat_add(
        crate::rat::rat_add(crate::rat::rat_zero(), rat_mul(a, d)),
        crate::rat::rat_neg(rat_mul(b, c)),
    ));
    assert(v.len() == 2);
    assert(crate::specs::spec_det(v) == crate::specs::det_expand(v, 2));
}

/// The determinant of a three-by-three matrix, evaluated from the
/// cofactor expansion along the first row.
pub proof fn lemma_det_three(
    a: Rat,
    b: Rat,
    c: Rat,
    d: Rat,
    e: Rat,
    f: Rat,
    g: Rat,
    h: Rat,
    i: Rat,
)
    ensures
        crate::specs::spec_det(seq![seq![a, b, c], seq![d, e, f], seq![g, h, i]])
            == crate::rat::rat_add(
            crate::rat::rat_add(
                crate::rat::rat_add(
                    crate::rat::rat_zero(),
                    rat_mul(a, crate::specs::spec_det(seq![seq![e, f], seq![h, i]])),
                ),
                crate::rat::rat_neg(
                    rat_mul(b, crate::specs::spec_det(seq![seq![d, f], seq![g, i]])),
                ),
            ),
            rat_mul(c, crate::specs::spec_det(seq![seq![d, e], seq![g, h]])),
        ),
{
    let v = seq![seq![a, b, c], seq![d, e, f], seq![g, h, i]];
    reveal_with_fuel(crate::specs::det_expand, 4);
    assert(crate::specs::spec_minor(v, 0) =~~= seq![seq![e, f], seq![h, i]]);
    assert(crate::specs::spec_minor(v, 1) =~~= seq![seq![d, f], seq![g, i]]);
    assert(crate::specs::spec_minor(v, 2) =~~= seq![seq![d, e], seq![g, h]]);
    assert(crate::specs::det_term(v, 0) == rat_mul(
        a,
        crate::specs::spec_det(seq![seq![e, f], seq![h, i]]),
    ));
    assert(crate::specs::det_term(v, 1) == crate::rat::rat_neg(
        rat_mul(b, crate::specs::spec_det(seq![seq![d, f], seq![g, i]])),
    ));
    assert(crate::specs::det_term(v, 2) == rat_mul(
        c,
        crate::specs::spec_det(seq![seq![d, e], seq![g, h]]),
    ));
    let t0 = rat_mul(a, crate::specs::spec_det(seq![seq![e, f], seq![h, i]]));
    let t1 = crate::rat::rat_neg(
        rat_mul(b, crate::specs::spec_det(seq![seq![d, f], seq![g, i]])),
    );
    let t2 = rat_mul(c, crate::specs::spec_det(seq![seq![d, e], seq![g, h]]));
    assert(crate::specs::det_expand(v, 0) == crate::rat::rat_zero());
    assert(crate::specs::det_expand(v, 1) == crate::rat::rat_add(crate::rat::rat_zero(), t0));
    assert(crate::specs::det_expand(v, 2) == crate::rat::rat_add(
        crate::rat::rat_add(crate::rat::rat_zero(), t0),
        t1,
    ));
    assert(crate::specs::det_expand(v, 3) == crate::rat::rat_add(
        crate::rat::rat_add(crate::rat::rat_add(crate::rat::rat_zero(), t0), t1),
        t2,
    ));
    assert(v.len() == 3);
    assert(crate::specs::spec_det(v) == crate::specs::det_expand(v, 3));
}

/// The two-by-two determinant fixture: the matrix of one to four has
/// determinant minus two under the cofactor-expansion model.
pub proof fn lemma_det_fixture_two()
    ensures
        crate::specs::spec_det(
            seq![
                seq![crate::rat::rat_of_int(1), crate::rat::rat_of_int(2)],
                seq![crate::rat::rat_of_int(3), crate::rat::rat_of_int(4)],
            ],
        ) == crate::rat::rat_of_int(-2),
{
    lemma_det_two(
        crate::rat::rat_of_int(1),
        crate::rat::rat_of_int(2),
        crate::rat::rat_of_int(3),
        crate::rat::rat_of_int(4),
    );
    crate::rat::lemma_int_ops(1, 4);
    crate::rat::lemma_int_ops(2, 3);
    crate::rat::lemma_int_ops(6, 0);
    crate::rat::lemma_int_ops(4, -6);
}

/// The three-by-three determinant fixture: rows one-two-three,
/// zero-one-four, five-six-zero give determinant one.
pub proof fn lemma_det_fixture_three()
    ensures
        crate::specs::spec_det(
            seq![
                seq![crate::rat::rat_of_int(1), crate::rat::rat_of_int(2), crate::rat::rat_of_int(3)],
                seq![crate::rat::rat_of_int(0), crate::rat::rat_of_int(1), crate::rat::rat_of_int(4)],
                seq![crate::rat::rat_of_int(5), crate::rat::rat_of_int(6), crate::rat::rat_of_int(0)],
            ],
        ) == crate::rat::rat_of_int(1),
{
    lemma_det_three(
        crate::rat::rat_of_int(1),
        crate::rat::rat_of_int(2),
        crate::rat::rat_of_int(3),
        crate::rat::rat_of_int(0),
        crate::rat::rat_of_int(1),
        crate::rat::rat_of_int(4),
        crate::rat::rat_of_int(5),
        crate::rat::rat_of_int(6),
        crate::rat::rat_of_int(0),
    );
    lemma_det_two(
        crate::rat::rat_of_int(1),
        crate::rat::rat_of_int(4),
        crate::rat::rat_of_int(6),
        crate::rat::rat_of_int(0),
    );
    lemma_det_two(
        crate::rat::rat_of_int(0),
        crate::rat::rat_of_int(4),
        crate::rat::rat_of_int(5),
        crate::rat::rat_of_int(0),
    );
    lemma_det_two(
        crate::rat::rat_of_int(0),
        crate::rat::rat_of_int(1),
        crate::rat::rat_of_int(5),
        crate::rat::rat_of_int(6),
    );
    crate::rat::lemma_int_ops(1, 0);
    crate::rat::lemma_int_ops(4, 6);
    crate::rat::lemma_int_ops(24, 0);
    crate::rat::lemma_int_ops(0, -24);
    crate::rat::lemma_int_ops(0, 0);
    crate::rat::lemma_int_ops(4, 5);
    crate::rat::lemma_int_ops(20, 0);
    crate::rat::lemma_int_ops(0, -20);
    crate::rat::lemma_int_ops(0, 6);
    crate::rat::lemma_int_ops(1, 5);
    crate::rat::lemma_int_ops(5, 0);
    crate::rat::lemma_int_ops(0, -5);
    crate::rat::lemma_int_ops(1, -24);
    crate::rat::lemma_int_ops(-24, 0);
    crate::rat::lemma_int_ops(2, -20);
    crate::rat::lemma_int_ops(-40, 0);
    crate::rat::lemma_int_ops(-24, 40);
    crate::rat::lemma_int_ops(3, -5);
    crate::rat::lemma_int_ops(16, -15);
}

/// The four-by-four determinant fixture evaluates to thirty.

/// The first minor of the four-by-four fixture.
proof fn lemma_det_fixture_four_minor_a()
    ensures
        crate::specs::spec_det(
            seq![
                seq![crate::rat::rat_of_int(0), crate::rat::rat_of_int(0), crate::rat::rat_of_int(5)],
                seq![crate::rat::rat_of_int(1), crate::rat::rat_of_int(4), crate::rat::rat_of_int(-3)],
                seq![crate::rat::rat_of_int(0), crate::rat::rat_of_int(5), crate::rat::rat_of_int(0)],
            ],
        ) == crate::rat::rat_of_int(25),
{
    lemma_det_three(
        crate::rat::rat_of_int(0),
        crate::rat::rat_of_int(0),
        crate::rat::rat_of_int(5),
        crate::rat::rat_of_int(1),
        crate::rat::rat_of_int(4),
        crate::rat::rat_of_int(-3),
        crate::rat::rat_of_int(0),
        crate::rat::rat_of_int(5),
        crate::rat::rat_of_int(0),
    );
    lemma_det_two(
        crate::rat::rat_of_int(4),
        crate::rat::rat_of_int(-3),
        crate::rat::rat_of_int(5),
        crate::rat::rat_of_int(0),
    );
    lemma_det_two(
        crate::rat::rat_of_int(1),
        crate::rat::rat_of_int(-3),
        crate::rat::rat_of_int(0),
        crate::rat::rat_of_int(0),
    );
    lemma_det_two(
        crate::rat::rat_of_int(1),
        crate::rat::rat_of_int(4),
        crate::rat::rat_of_int(0),
        crate::rat::rat_of_int(5),
    );
    crate::rat::lemma_int_ops(4, 0);
    crate::rat::lemma_int_ops(-3, 5);
    crate::rat::lemma_int_ops(-15, 0);
    crate::rat::lemma_int_ops(0, 15);
    crate::rat::lemma_int_ops(1, 0);
    crate::rat::lemma_int_ops(-3, 0);
    crate::rat::lemma_int_ops(0, 0);
    crate::rat::lemma_int_ops(1, 5);
    crate::rat::lemma_int_ops(4, 0);
    crate::rat::lemma_int_ops(5, 0);
    crate::rat::lemma_int_ops(5, 5);
    crate::rat::lemma_int_ops(0, 25);
}

/// The second minor of the four-by-four fixture.
proof fn lemma_det_fixture_four_minor_b()
    ensures
        crate::specs::spec_det(
            seq![
                seq![crate::rat::rat_of_int(3), crate::rat::rat_of_int(0), crate::rat::rat_of_int(5)],
                seq![crate::rat::rat_of_int(2), crate::rat::rat_of_int(4), crate::rat::rat_of_int(-3)],
                seq![crate::rat::rat_of_int(1), crate::rat::rat_of_int(5), crate::rat::rat_of_int(0)],
            ],
        ) == crate::rat::rat_of_int(75),
{
    lemma_det_three(
        crate::rat::rat_of_int(3),
        crate::rat::rat_of_int(0),
        crate::rat::rat_of_int(5),
        crate::rat::rat_of_int(2),
        crate::rat::rat_of_int(4),
        crate::rat::rat_of_int(-3),
        crate::rat::rat_of_int(1),
        crate::rat::rat_of_int(5),
        crate::rat::rat_of_int(0),
    );
    lemma_det_two(
        crate::rat::rat_of_int(4),
        crate::rat::rat_of_int(-3),
        crate::rat::rat_of_int(5),
        crate::rat::rat_of_int(0),
    );
    lemma_det_two(
        crate::rat::rat_of_int(2),
        crate::rat::rat_of_int(-3),
        crate::rat::rat_of_int(1),
        crate::rat::rat_of_int(0),
    );
    lemma_det_two(
        crate::rat::rat_of_int(2),
        crate::rat::rat_of_int(4),
        crate::rat::rat_of_int(1),
        crate::rat::rat_of_int(5),
    );
    crate::rat::lemma_int_ops(4, 0);
    crate::rat::lemma_int_ops(-3, 5);
    crate::rat::lemma_int_ops(-15, 0);
    crate::rat::lemma_int_ops(0, 15);
    crate::rat::lemma_int_ops(2, 0);
    crate::rat::lemma_int_ops(-3, 1);
    crate::rat::lemma_int_ops(0, 3);
    crate::rat::lemma_int_ops(2, 5);
    crate::rat::lemma_int_ops(4, 1);
    crate::rat::lemma_int_ops(10, 0);
    crate::rat::lemma_int_ops(10, -4);
    crate::rat::lemma_int_ops(3, 15);
    crate::rat::lemma_int_ops(45, 0);
    crate::rat::lemma_int_ops(0, 3);
    crate::rat::lemma_int_ops(5, 6);
    crate::rat::lemma_int_ops(45, 30);
}

/// The third minor of the four-by-four fixture.
proof fn lemma_det_fixture_four_minor_c()
    ensures
        crate::specs::spec_det(
            seq![
                seq![crate::rat::rat_of_int(3), crate::rat::rat_of_int(0), crate::rat::rat_of_int(5)],
                seq![crate::rat::rat_of_int(2), crate::rat::rat_of_int(1), crate::rat::rat_of_int(-3)],
                seq![crate::rat::rat_of_int(1), crate::rat::rat_of_int(0), crate::rat::rat_of_int(0)],
            ],
        ) == crate::rat::rat_of_int(-5),
{
    lemma_det_three(
        crate::rat::rat_of_int(3),
        crate::rat::rat_of_int(0),
        crate::rat::rat_of_int(5),
        crate::rat::rat_of_int(2),
        crate::rat::rat_of_int(1),
        crate::rat::rat_of_int(-3),
        crate::rat::rat_of_int(1),
        crate::rat::rat_of_int(0),
        crate::rat::rat_of_int(0),
    );
    lemma_det_two(
        crate::rat::rat_of_int(1),
        crate::rat::rat_of_int(-3),
        crate::rat::rat_of_int(0),
        crate::rat::rat_of_int(0),
    );
    lemma_det_two(
        crate::rat::rat_of_int(2),
        crate::rat::rat_of_int(-3),
        crate::rat::rat_of_int(1),
        crate::rat::rat_of_int(0),
    );
    lemma_det_two(
        crate::rat::rat_of_int(2),
        crate::rat::rat_of_int(1),
        crate::rat::rat_of_int(1),
        crate::rat::rat_of_int(0),
    );
    crate::rat::lemma_int_ops(1, 0);
    crate::rat::lemma_int_ops(-3, 0);
    crate::rat::lemma_int_ops(0, 0);
    crate::rat::lemma_int_ops(2, 0);
    crate::rat::lemma_int_ops(-3, 1);
    crate::rat::lemma_int_ops(0, 3);
    crate::rat::lemma_int_ops(1, 1);
    crate::rat::lemma_int_ops(0, -1);
    crate::rat::lemma_int_ops(3, 0);
    crate::rat::lemma_int_ops(5, -1);
    crate::rat::lemma_int_ops(0, -5);
}

/// The fourth minor of the four-by-four fixture.
proof fn lemma_det_fixture_four_minor_d()
    ensures
        crate::specs::spec_det(
            seq![
                seq![crate::rat::rat_of_int(3), crate::rat::rat_of_int(0), crate::rat::rat_of_int(0)],
                seq![crate::rat::rat_of_int(2), crate::rat::rat_of_int(1), crate::rat::rat_of_int(4)],
                seq![crate::rat::rat_of_int(1), crate::rat::rat_of_int(0), crate::rat::rat_of_int(5)],
            ],
        ) == crate::rat::rat_of_int(15),
{
    lemma_det_three(
        crate::rat::rat_of_int(3),
        crate::rat::rat_of_int(0),
        crate::rat::rat_of_int(0),
        crate::rat::rat_of_int(2),
        crate::rat::rat_of_int(1),
        crate::rat::rat_of_int(4),
        crate::rat::rat_of_int(1),
        crate::rat::rat_of_int(0),
        crate::rat::rat_of_int(5),
    );
    lemma_det_two(
        crate::rat::rat_of_int(1),
        crate::rat::rat_of_int(4),
        crate::rat::rat_of_int(0),
        crate::rat::rat_of_int(5),
    );
    lemma_det_two(
        crate::rat::rat_of_int(2),
        crate::rat::rat_of_int(4),
        crate::rat::rat_of_int(1),
        crate::rat::rat_of_int(5),
    );
    lemma_det_two(
        crate::rat::rat_of_int(2),
        crate::rat::rat_of_int(1),
        crate::rat::rat_of_int(1),
        crate::rat::rat_of_int(0),
    );
    crate::rat::lemma_int_ops(1, 5);
    crate::rat::lemma_int_ops(4, 0);
    crate::rat::lemma_int_ops(5, 0);
    crate::rat::lemma_int_ops(2, 5);
    crate::rat::lemma_int_ops(4, 1);
    crate::rat::lemma_int_ops(10, 0);
    crate::rat::lemma_int_ops(10, -4);
    crate::rat::lemma_int_ops(2, 0);
    crate::rat::lemma_int_ops(1, 1);
    crate::rat::lemma_int_ops(0, -1);
    crate::rat::lemma_int_ops(3, 5);
    crate::rat::lemma_int_ops(15, 0);
    crate::rat::lemma_int_ops(0, 6);
    crate::rat::lemma_int_ops(0, 0);
}

pub proof fn lemma_det_fixture_four()
    ensures
        crate::specs::spec_det(
            seq![
                seq![
                    crate::rat::rat_of_int(1),
                    crate::rat::rat_of_int(0),
                    crate::rat::rat_of_int(2),
                    crate::rat::rat_of_int(-1),
                ],
                seq![
                    crate::rat::rat_of_int(3),
                    crate::rat::rat_of_int(0),
                    crate::rat::rat_of_int(0),
                    crate::rat::rat_of_int(5),
                ],
                seq![
                    crate::rat::rat_of_int(2),
                    crate::rat::rat_of_int(1),
                    crate::rat::rat_of_int(4),
                    crate::rat::rat_of_int(-3),
                ],
                seq![
                    crate::rat::rat_of_int(1),
                    crate::rat::rat_of_int(0),
                    crate::rat::rat_of_int(5),
                    crate::rat::rat_of_int(0),
                ],
            ],
        ) == crate::rat::rat_of_int(30),
{
    let r0 = crate::rat::rat_of_int(0);
    let r1 = crate::rat::rat_of_int(1);
    let r2 = crate::rat::rat_of_int(2);
    let r3 = crate::rat::rat_of_int(3);
    let r4 = crate::rat::rat_of_int(4);
    let r5 = crate::rat::rat_of_int(5);
    let m1 = crate::rat::rat_of_int(-1);
    let m3 = crate::rat::rat_of_int(-3);
    let v = seq![
        seq![r1, r0, r2, m1],
        seq![r3, r0, r0, r5],
        seq![r2, r1, r4, m3],
        seq![r1, r0, r5, r0],
    ];
    reveal_with_fuel(crate::specs::det_expand, 5);
    assert(crate::specs::spec_minor(v, 0) =~~= seq![seq![r0, r0, r5], seq![r1, r4, m3], seq![r0, r5, r0]]);
    assert(crate::specs::spec_minor(v, 1) =~~= seq![seq![r3, r0, r5], seq![r2, r4, m3], seq![r1, r5, r0]]);
    assert(crate::specs::spec_minor(v, 2) =~~= seq![seq![r3, r0, r5], seq![r2, r1, m3], seq![r1, r0, r0]]);
    assert(crate::specs::spec_minor(v, 3) =~~= seq![seq![r3, r0, r0], seq![r2, r1, r4], seq![r1, r0, r5]]);
    lemma_det_fixture_four_minor_a();
    lemma_det_fixture_four_minor_b();
    lemma_det_fixture_four_minor_c();
    lemma_det_fixture_four_minor_d();
    assert(crate::specs::det_term(v, 0) == rat_mul(r1, crate::rat::rat_of_int(25)));
    assert(crate::specs::det_term(v, 1) == crate::rat::rat_neg(
        rat_mul(r0, crate::rat::rat_of_int(75)),
    ));
    assert(crate::specs::det_term(v, 2) == rat_mul(r2, crate::rat::rat_of_int(-5)));
    assert(crate::specs::det_term(v, 3) == crate::rat::rat_neg(
        rat_mul(m1, crate::rat::rat_of_int(15)),
    ));
    crate::rat::lemma_int_ops(1, 25);
    crate::rat::lemma_int_ops(25, 0);
    crate::rat::lemma_int_ops(0, 75);
    crate::rat::lemma_int_ops(2, -5);
    crate::rat::lemma_int_ops(25, -10);
    crate::rat::lemma_int_ops(-1, 15);
    crate::rat::lemma_int_ops(-15, 0);
    crate::rat::lemma_int_ops(15, 15);
    assert(crate::specs::det_expand(v, 1) == crate::rat::rat_add(
        crate::rat::rat_zero(),
        crate::specs::det_term(v, 0),
    ));
    assert(crate::specs::det_expand(v, 1) == crate::rat::rat_of_int(25));
    assert(crate::specs::det_expand(v, 2) == crate::rat::rat_of_int(25));
    assert(crate::specs::det_expand(v, 3) == crate::rat::rat_of_int(15));
    assert(crate::specs::det_expand(v, 4) == crate::rat::rat_of_int(30));
    assert(v.len() == 4);
    assert(crate::specs::spec_det(v) == crate::specs::det_expand(v, 4));
}

/// One entry of the associativity law: entry `(i, l)` of `(a b) c` and of
/// `a (b c)` stand for the same rational.
proof fn lemma_mmul_assoc_entry(a: Seq<Seq<Rat>>, b: Seq<Seq<Rat>>, c: Seq<Seq<Rat>>, i: int, l: int)
    requires
        mat_wf(a),
        mat_wf(b),
        mat_wf(c),
        spec_cols(a) == b.len(),
        spec_cols(b) == c.len(),
        b.len() > 0,
        0 <= i < a.len(),
        0 <= l < spec_cols(c),
    ensures
        rat_eqv(
            spec_mmul(spec_mmul(a, b), c)[i][l],
            spec_mmul(a, spec_mmul(b, c))[i][l],
        ),
{
    let m = spec_cols(a);
    let kk = spec_cols(b);
    let ab = spec_mmul(a, b);
    let bc = spec_mmul(b, c);
    let f2 = |k: int, j: int| rat_mul(rat_mul(a[i][j], b[j][k]), c[k][l]);
    assert forall|k: int, j: int| 0 <= k < kk && 0 <= j < m implies rat_wf(
        #[trigger] f2(k, j),
    ) by {
        assert(rat_wf(a[i][j]) && rat_wf(b[j][k]) && rat_wf(c[k][l]));
        lemma_add_wf(a[i][j], b[j][k]);
        lemma_add_wf(rat_mul(a[i][j], b[j][k]), c[k][l]);
    }
    // The left-hand entry as a double sum.
    let le = spec_mmul(ab, c)[i][l];
    let fl = |k: int| rat_mul(ab[i][k], spec_col(c, l)[k]);
    let lg = |k: int| rsum(|j: int| f2(k, j), m);
    assert forall|k: int| 0 <= k < kk implies #[trigger] fl(k) == rat_mul(
        ab[i][k],
        spec_col(c, l)[k],
    ) by {}
    lemma_dot_prefix_as_rsum(ab[i], spec_col(c, l), fl, kk);
    assert(le == rsum(fl, kk));
    assert forall|k: int| 0 <= k < kk implies rat_eqv(#[trigger] fl(k), lg(k)) && rat_wf(
        fl(k),
    ) && rat_wf(lg(k)) by {
        let h = |j: int| rat_mul(a[i][j], b[j][k]);
        assert forall|j: int| 0 <= j < m implies #[trigger] h(j) == rat_mul(
            a[i][j],
            spec_col(b, k)[j],
        ) by {}
        lemma_dot_prefix_as_rsum(a[i], spec_col(b, k), h, m);
        assert(ab[i][k] == rsum(h, m));
        assert forall|j: int| 0 <= j < m implies rat_wf(#[trigger] h(j)) by {
            lemma_add_wf(a[i][j], b[j][k]);
        }
        lemma_rsum_mul_right(h, c[k][l], m);
        let hm = |j: int| rat_mul(h(j), c[k][l]);
        assert forall|j: int| 0 <= j < m implies #[trigger] hm(j) == f2(k, j) by {}
        lemma_rsum_congruence(hm, |j: int| f2(k, j), m);
        lemma_rsum_wf(h, m);
        lemma_add_wf(rsum(h, m), c[k][l]);
        let fk = |j2: int| f2(k, j2);
        assert forall|j2: int| 0 <= j2 < m implies rat_wf(#[trigger] fk(j2)) by {}
        lemma_rsum_wf(fk, m);
        lemma_rsum_congruence(fk, |j2: int| f2(k, j2), m);
    }
    assert forall|k: int| 0 <= k < kk implies rat_wf(#[trigger] lg(k)) by {
        assert(rat_eqv(fl(k), lg(k)) && rat_wf(fl(k)) && rat_wf(lg(k)));
    }
    lemma_rsum_eqv(fl, lg, kk);
    // Exchange the order of summation.
    lemma_rsum_swap(f2, kk, m);
    let rg = |j: int| rsum(|k: int| f2(k, j), kk);
    assert forall|k: int| 0 <= k < kk implies #[trigger] lg(k) == (|k2: int| rsum(
        |j: int| f2(k2, j),
        m,
    ))(k) by {}
    lemma_rsum_congruence(lg, |k2: int| rsum(|j: int| f2(k2, j), m), kk);
    // The right-hand entry as the same double sum.
    let re = spec_mmul(a, bc)[i][l];
    let fr = |j: int| rat_mul(a[i][j], spec_col(bc, l)[j]);
    assert forall|j: int| 0 <= j < m implies #[trigger] fr(j) == rat_mul(
        a[i][j],
        spec_col(bc, l)[j],
    ) by {}
    lemma_dot_prefix_as_rsum(a[i], spec_col(bc, l), fr, m);
    assert(re == rsum(fr, m));
    assert forall|j: int| 0 <= j < m implies rat_eqv(#[trigger] fr(j), rg(j)) && rat_wf(
        fr(j),
    ) && rat_wf(rg(j)) by {
        let p = |k: int| rat_mul(b[j][k], c[k][l]);
        assert forall|k: int| 0 <= k < kk implies #[trigger] p(k) == rat_mul(
            b[j][k],
            spec_col(c, l)[k],
        ) by {}
        lemma_dot_prefix_as_rsum(b[j], spec_col(c, l), p, kk);
        assert(bc[j][l] == rsum(p, kk));
        assert forall|k: int| 0 <= k < kk implies rat_wf(#[trigger] p(k)) by {
            lemma_add_wf(b[j][k], c[k][l]);
        }
        lemma_mul_comm(a[i][j], rsum(p, kk));
        lemma_rsum_mul_right(p, a[i][j], kk);
        let pm = |k: int| rat_mul(p(k), a[i][j]);
        assert forall|k: int| 0 <= k < kk implies #[trigger] pm(k) == f2(k, j) by {
            lemma_mul_comm(p(k), a[i][j]);
            lemma_mul_comm(a[i][j], b[j][k]);
            lemma_mul_assoc(b[j][k], c[k][l], a[i][j]);
            lemma_mul_comm(rat_mul(b[j][k], c[k][l]), a[i][j]);
            lemma_mul_comm(a[i][j], rat_mul(b[j][k], c[k][l]));
            lemma_mul_assoc(a[i][j], b[j][k], c[k][l]);
        }
        lemma_rsum_congruence(pm, |k: int| f2(k, j), kk);
        lemma_rsum_wf(p, kk);
        lemma_add_wf(rsum(p, kk), a[i][j]);
        lemma_add_wf(a[i][j], rsum(p, kk));
        let fj = |k2: int| f2(k2, j);
        assert forall|k2: int| 0 <= k2 < kk implies rat_wf(#[trigger] fj(k2)) by {}
        lemma_rsum_wf(fj, kk);
        lemma_rsum_congruence(fj, |k2: int| f2(k2, j), kk);
        assert(fr(j) == rat_mul(a[i][j], rsum(p, kk)));
        assert(rat_mul(a[i][j], rsum(p, kk)) == rat_mul(rsum(p, kk), a[i][j]));
        assert(rat_eqv(rat_mul(rsum(p, kk), a[i][j]), rsum(pm, kk)));
        assert(rsum(pm, kk) == rg(j));
    }
    assert forall|j: int| 0 <= j < m implies rat_wf(#[trigger] rg(j)) by {
        assert(rat_eqv(fr(j), rg(j)) && rat_wf(fr(j)) && rat_wf(rg(j)));
    }
    lemma_rsum_eqv(fr, rg, m);
    // Chain the three equivalences.
    assert forall|k: int| 0 <= k < kk implies rat_wf(#[trigger] fl(k)) by {}
    assert forall|j: int| 0 <= j < m implies rat_wf(#[trigger] rg(j)) by {}
    assert forall|k: int| 0 <= k < kk implies rat_wf(#[trigger] lg(k)) by {}
    lemma_rsum_wf(fl, kk);
    lemma_rsum_wf(lg, kk);
    lemma_rsum_wf(rg, m);
    assert forall|j: int| 0 <= j < m implies rat_wf(#[trigger] fr(j)) by {}
    lemma_rsum_wf(fr, m);
    crate::rat::lemma_eqv_trans(rsum(fl, kk), rsum(lg, kk), rsum(rg, m));
    crate::rat::lemma_eqv_sym(rsum(fr, m), rsum(rg, m));
    crate::rat::lemma_eqv_trans(rsum(fl, kk), rsum(rg, m), rsum(fr, m));
}

/// Matrix multiplication is associative: for compatible shapes, the two
/// products hold the same rationals, entry for entry.
pub proof fn lemma_multiply_associative(a: Seq<Seq<Rat>>, b: Seq<Seq<Rat>>, c: Seq<Seq<Rat>>)
    requires
        mat_wf(a),
        mat_wf(b),
        mat_wf(c),
        spec_cols(a) == b.len(),
        spec_cols(b) == c.len(),
    ensures
        mat_equiv(spec_mmul(spec_mmul(a, b), c), spec_mmul(a, spec_mmul(b, c))),
{
    let le = spec_mmul(spec_mmul(a, b), c);
    let re = spec_mmul(a, spec_mmul(b, c));
    assert(le.len() == a.len());
    assert(re.len() == a.len());
    assert forall|i: int| 0 <= i < le.len() implies crate::specs::row_equiv(
        #[trigger] le[i],
        re[i],
    ) by {
        if b.len() == 0 {
            assert(c.len() == 0);
            assert(le[i].len() == 0);
            assert(re[i].len() == 0);
        } else {
            assert(crate::specs::spec_cols(spec_mmul(b, c)) == spec_cols(c));
            assert(le[i].len() == spec_cols(c));
            assert(re[i].len() == spec_cols(c));
            assert forall|l: int| 0 <= l < le[i].len() implies rat_eqv(
                #[trigger] le[i][l],
                re[i][l],
            ) by {
                lemma_mmul_assoc_entry(a, b, c, i, l);
            }
        }
    }
}

} // verus!
