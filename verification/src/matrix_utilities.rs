//! The stateless operation set over matrices: growing a matrix by rows,
//! elementwise arithmetic, products, the row reduction family, LU
//! decomposition, and inversion.

use vstd::prelude::*;

use crate::lemmas::lemma_dot_prefix_wf;
use crate::matrix::Matrix;
use crate::rat::{rat_add, rat_mul, rat_sub, rat_wf, Rat};
use crate::scalar::Scalar;
use crate::rat::rat_eqv;
use crate::specs::{
    dot_prefix, mat_equiv, mat_wf, row_view, row_wf, rows_view, spec_col, spec_cols, spec_det,
    spec_dot, spec_identity, spec_madd, spec_minor, spec_mmul, spec_mscale, spec_msub,
    spec_transpose,
};

verus! {

/// A utility namespace gathering the matrix algorithms.
pub struct MatrixUtilities;

/// An independent copy of a row of scalars.
#[verifier::loop_isolation(false)]
pub(crate) fn dup_row(r: &Vec<Scalar>) -> (o: Vec<Scalar>)
    ensures
        o@.len() == r@.len(),
        row_view(o@) == row_view(r@),
{
    let mut o: Vec<Scalar> = Vec::new();
    let mut j: usize = 0;
    while j < r.len()
        invariant
            j <= r@.len(),
            o@.len() == j,
            forall|jj: int| 0 <= jj < j ==> (#[trigger] o@[jj])@ == r@[jj]@,
        decreases r@.len() - j,
    {
        o.push(r[j].duplicate());
        j = j + 1;
    }
    proof {
        assert(row_view(o@) =~= row_view(r@));
    }
    o
}

/// A row divided entrywise by the nonzero pivot `p`.
#[verifier::loop_isolation(false)]
pub(crate) fn row_div_exec(r: &Vec<Scalar>, p: &Scalar) -> (o: Vec<Scalar>)
    requires
        row_wf(row_view(r@)),
        rat_wf(p@),
        p@.n != 0,
    ensures
        o@.len() == r@.len(),
        row_view(o@) == crate::specs::row_div_spec(row_view(r@), p@),
        row_wf(row_view(o@)),
{
    let mut o: Vec<Scalar> = Vec::new();
    let mut j: usize = 0;
    while j < r.len()
        invariant
            j <= r@.len(),
            o@.len() == j,
            forall|jj: int|
                0 <= jj < j ==> (#[trigger] o@[jj])@ == crate::rat::rat_div(r@[jj]@, p@) && rat_wf(
                    o@[jj]@,
                ),
        decreases r@.len() - j,
    {
        proof {
            assert(rat_wf(row_view(r@)[j as int]));
        }
        o.push(r[j].div(p));
        j = j + 1;
    }
    proof {
        assert(row_view(o@) =~= crate::specs::row_div_spec(row_view(r@), p@));
        assert forall|jj: int| 0 <= jj < row_view(o@).len() implies rat_wf(
            #[trigger] row_view(o@)[jj],
        ) by {}
    }
    o
}

/// A row minus `f` times the pivot row `p`, entry by entry.
#[verifier::loop_isolation(false)]
pub(crate) fn row_sub_scaled_exec(r: &Vec<Scalar>, p: &Vec<Scalar>, f: &Scalar) -> (o: Vec<Scalar>)
    requires
        row_wf(row_view(r@)),
        row_wf(row_view(p@)),
        rat_wf(f@),
        r@.len() <= p@.len(),
    ensures
        o@.len() == r@.len(),
        row_view(o@) == crate::specs::row_sub_scaled(row_view(r@), row_view(p@), f@),
        row_wf(row_view(o@)),
{
    let mut o: Vec<Scalar> = Vec::new();
    let mut j: usize = 0;
    while j < r.len()
        invariant
            j <= r@.len(),
            o@.len() == j,
            forall|jj: int|
                0 <= jj < j ==> (#[trigger] o@[jj])@ == rat_sub(
                    r@[jj]@,
                    rat_mul(f@, p@[jj]@),
                ) && rat_wf(o@[jj]@),
        decreases r@.len() - j,
    {
        proof {
            assert(rat_wf(row_view(r@)[j as int]));
            assert(rat_wf(row_view(p@)[j as int]));
        }
        o.push(r[j].sub(&f.mul(&p[j])));
        j = j + 1;
    }
    proof {
        assert(row_view(o@) =~= crate::specs::row_sub_scaled(row_view(r@), row_view(p@), f@));
        assert forall|jj: int| 0 <= jj < row_view(o@).len() implies rat_wf(
            #[trigger] row_view(o@)[jj],
        ) by {}
    }
    o
}

impl MatrixUtilities {
    /// Row echelon form by forward elimination: each pivot row in turn is
    /// normalized by its diagonal entry (skipped when that entry is zero,
    /// the degenerate case), and the column below the pivot is cleared.
    /// The matrix may not have more rows than columns.
    #[verifier::loop_isolation(false)]
    pub fn row_echelon_form(matrix: Matrix) -> (m: Matrix)
        requires
            mat_wf(matrix@),
            matrix@.len() <= spec_cols(matrix@),
        ensures
            m@ == crate::specs::spec_ref(matrix@),
            mat_wf(m@),
            m@.len() == matrix@.len(),
            spec_cols(m@) == spec_cols(matrix@),
    {
        let ghost v0 = matrix@;
        let n = matrix.rows();
        let c = matrix.cols();
        let mut rows = matrix.into_vec();
        let mut i: usize = 0;
        while i < n
            invariant
                i <= n,
                rows@.len() == n,
                mat_wf(rows_view(rows@)),
                n > 0 ==> spec_cols(rows_view(rows@)) == c,
                crate::specs::fwd_go(v0, 0) == crate::specs::fwd_go(
                    rows_view(rows@),
                    i as int,
                ),
            decreases n - i,
        {
            let ghost cur = rows_view(rows@);
            proof {
                assert(cur[i as int] == row_view(rows@[i as int]@));
                assert(rat_wf(cur[i as int][i as int]));
            }
            let pivot = rows[i][i].duplicate();
            if !pivot.is_zero() {
                let newrow = row_div_exec(&rows[i], &pivot);
                rows.set(i, newrow);
                proof {
                    assert(rows_view(rows@) =~= crate::specs::ref_normalize(cur, i as int));
                }
            } else {
                proof {
                    assert(rows_view(rows@) == crate::specs::ref_normalize(cur, i as int));
                }
            }
            let ghost mid = crate::specs::ref_normalize(cur, i as int);
            proof {
                assert forall|k: int| 0 <= k < mid.len() implies (#[trigger] mid[k]).len()
                    == spec_cols(mid) && row_wf(mid[k]) by {
                    assert(mid[k] == rows_view(rows@)[k]);
                    assert(mid[k] == row_view(rows@[k]@));
                }
            }
            let pivrow = dup_row(&rows[i]);
            proof {
                assert(row_view(pivrow@) == mid[i as int]);
            }
            let mut j: usize = i + 1;
            while j < n
                invariant
                    i < n,
                    i + 1 <= j <= n,
                    rows@.len() == n,
                    mat_wf(rows_view(rows@)),
                    spec_cols(rows_view(rows@)) == c,
                    row_view(pivrow@) == mid[i as int],
                    forall|k: int|
                        0 <= k < n && !(i < k < j) ==> rows_view(rows@)[k] == mid[k],
                    forall|k: int|
                        i < k < j ==> rows_view(rows@)[k] == crate::specs::row_sub_scaled(
                            mid[k],
                            mid[i as int],
                            mid[k][i as int],
                        ),
                decreases n - j,
            {
                let ghost pre = rows_view(rows@);
                proof {
                    assert(pre[j as int] == mid[j as int]);
                    assert(pre[j as int] == row_view(rows@[j as int]@));
                    assert(rat_wf(mid[j as int][i as int]));
                }
                let f = rows[j][i].duplicate();
                let newrow = row_sub_scaled_exec(&rows[j], &pivrow, &f);
                rows.set(j, newrow);
                proof {
                    assert forall|k: int| 0 <= k < n implies rows_view(rows@)[k] == (if k
                        == j {
                        crate::specs::row_sub_scaled(mid[k], mid[i as int], mid[k][i as int])
                    } else {
                        pre[k]
                    }) by {
                        if k == j {
                            assert(rows_view(rows@)[k] == row_view(newrow@));
                        } else {
                            assert(rows@[k] == rows@[k]);
                        }
                    }
                    assert forall|k: int| 0 <= k < rows_view(rows@).len() implies (
                    #[trigger] rows_view(rows@)[k]).len() == spec_cols(rows_view(rows@))
                        && row_wf(rows_view(rows@)[k]) by {
                        assert(rows_view(rows@)[0] == if 0 == j as int {
                            crate::specs::row_sub_scaled(
                                mid[0],
                                mid[i as int],
                                mid[0][i as int],
                            )
                        } else {
                            pre[0]
                        });
                    }
                }
                j = j + 1;
            }
            proof {
                assert(rows_view(rows@) =~= crate::specs::eliminate_below(mid, i as int));
                assert(crate::specs::ref_step(cur, i as int) == rows_view(rows@));
            }
            i = i + 1;
        }
        let m = Matrix::from_vec(rows);
        m
    }

    /// Reduced row echelon form: the forward pass of `row_echelon_form`,
    /// then a backward pass clearing the entries above each pivot.
    #[verifier::loop_isolation(false)]
    pub fn rref(matrix: Matrix) -> (m: Matrix)
        requires
            mat_wf(matrix@),
            matrix@.len() <= spec_cols(matrix@),
        ensures
            m@ == crate::specs::spec_rref(matrix@),
            mat_wf(m@),
            m@.len() == matrix@.len(),
            spec_cols(m@) == spec_cols(matrix@),
    {
        let ghost v0 = matrix@;
        let fwd = Self::row_echelon_form(matrix);
        let ghost mref = fwd@;
        let n = fwd.rows();
        let c = fwd.cols();
        let mut rows = fwd.into_vec();
        let mut k: usize = n;
        while k > 0
            invariant
                k <= n,
                rows@.len() == n,
                mat_wf(rows_view(rows@)),
                n > 0 ==> spec_cols(rows_view(rows@)) == c,
                crate::specs::back_go(mref, n as int - 1) == crate::specs::back_go(
                    rows_view(rows@),
                    k as int - 1,
                ),
            decreases k,
        {
            k = k - 1;
            let ghost cur = rows_view(rows@);
            let pivrow = dup_row(&rows[k]);
            proof {
                assert(row_view(pivrow@) == cur[k as int]);
            }
            let mut j: usize = 0;
            while j < k
                invariant
                    k < n,
                    j <= k,
                    rows@.len() == n,
                    mat_wf(rows_view(rows@)),
                    spec_cols(rows_view(rows@)) == c,
                    row_view(pivrow@) == cur[k as int],
                    forall|q: int| j <= q < n ==> rows_view(rows@)[q] == cur[q],
                    forall|q: int|
                        0 <= q < j ==> rows_view(rows@)[q] == crate::specs::row_sub_scaled(
                            cur[q],
                            cur[k as int],
                            cur[q][k as int],
                        ),
                decreases k - j,
            {
                let ghost pre = rows_view(rows@);
                proof {
                    assert(pre[j as int] == cur[j as int]);
                    assert(pre[j as int] == row_view(rows@[j as int]@));
                    assert(rat_wf(cur[j as int][k as int]));
                }
                let f = rows[j][k].duplicate();
                let newrow = row_sub_scaled_exec(&rows[j], &pivrow, &f);
                rows.set(j, newrow);
                proof {
                    assert forall|q: int| 0 <= q < n implies rows_view(rows@)[q] == (if q
                        == j {
                        crate::specs::row_sub_scaled(cur[q], cur[k as int], cur[q][k as int])
                    } else {
                        pre[q]
                    }) by {
                        if q == j {
                            assert(rows_view(rows@)[q] == row_view(newrow@));
                        }
                    }
                    assert forall|q: int| 0 <= q < rows_view(rows@).len() implies (
                    #[trigger] rows_view(rows@)[q]).len() == spec_cols(rows_view(rows@))
                        && row_wf(rows_view(rows@)[q]) by {
                        assert(rows_view(rows@)[0] == if 0 == j as int {
                            crate::specs::row_sub_scaled(cur[0], cur[k as int], cur[0][k as int])
                        } else {
                            pre[0]
                        });
                    }
                }
                j = j + 1;
            }
            proof {
                assert(rows_view(rows@) =~= crate::specs::eliminate_above(cur, k as int));
            }
        }
        proof {
            crate::lemmas::lemma_fwd_go_len(v0, 0);
        }
        let m = Matrix::from_vec(rows);
        m
    }

    /// Appends one row to the matrix. The row must match the matrix's
    /// width; the first row of an empty matrix dictates the width.
    #[verifier::loop_isolation(false)]
    pub fn append(matrix: Matrix, row: Vec<Scalar>) -> (m: Matrix)
        requires
            mat_wf(matrix@),
            row_wf(row_view(row@)),
            matrix@.len() > 0 ==> row@.len() == spec_cols(matrix@),
        ensures
            m@ == matrix@.push(row_view(row@)),
            mat_wf(m@),
    {
        let ghost before = matrix@;
        let mut rows = matrix.into_vec();
        rows.push(row);
        let m = Matrix::from_vec(rows);
        proof {
            assert(m@ =~= before.push(row_view(row@)));
            assert forall|i: int| 0 <= i < m@.len() implies (#[trigger] m@[i]).len() == spec_cols(
                m@,
            ) && row_wf(m@[i]) by {}
        }
        m
    }

    /// Appends several rows at once. Together with the matrix the new rows
    /// must form a rectangular, well-formed whole.
    #[verifier::loop_isolation(false)]
    pub fn append_multiple(matrix: Matrix, rows: Vec<Vec<Scalar>>) -> (m: Matrix)
        requires
            mat_wf(matrix@ + rows_view(rows@)),
        ensures
            m@ == matrix@ + rows_view(rows@),
            mat_wf(m@),
    {
        let ghost target = matrix@ + rows_view(rows@);
        let mut base = matrix.into_vec();
        let ghost n0 = base@.len();
        let mut i: usize = 0;
        while i < rows.len()
            invariant
                rows_view(base@.subrange(0, n0 as int)) == matrix@,
                i <= rows@.len(),
                base@.len() == n0 + i,
                forall|k: int| 0 <= k < base@.len() ==> rows_view(base@)[k] == target[k],
            decreases rows@.len() - i,
        {
            let ghost pre = base@;
            let r = dup_row(&rows[i]);
            base.push(r);
            proof {
                assert(base@.subrange(0, n0 as int) =~= pre.subrange(0, n0 as int));
                assert forall|k: int| 0 <= k < base@.len() implies rows_view(base@)[k]
                    == target[k] by {
                    if k < pre.len() {
                        assert(base@[k] == pre[k]);
                        assert(rows_view(pre)[k] == target[k]);
                    } else {
                        assert(rows_view(base@)[k] == row_view(r@));
                        assert(target[k] == rows_view(rows@)[i as int]);
                        assert(rows_view(rows@)[i as int] =~= row_view(rows@[i as int]@));
                    }
                }
            }
            i = i + 1;
        }
        let m = Matrix::from_vec(base);
        proof {
            assert(m@ =~= target);
        }
        m
    }

    /// The identity matrix of size `n`: ones on the diagonal, zeros off it.
    #[verifier::loop_isolation(false)]
    pub fn identity(n: usize) -> (m: Matrix)
        ensures
            m@ == spec_identity(n as int),
            mat_wf(m@),
    {
        let mut out: Vec<Vec<Scalar>> = Vec::new();
        let mut i: usize = 0;
        while i < n
            invariant
                i <= n,
                out@.len() == i,
                forall|ii: int|
                    0 <= ii < i ==> rows_view(out@)[ii] == spec_identity(n as int)[ii],
            decreases n - i,
        {
            let mut row: Vec<Scalar> = Vec::new();
            let mut j: usize = 0;
            while j < n
                invariant
                    i < n,
                    j <= n,
                    row@.len() == j,
                    forall|jj: int|
                        0 <= jj < j ==> (#[trigger] row@[jj])@ == spec_identity(n as int)[i as int][jj],
                decreases n - j,
            {
                if i == j {
                    row.push(Scalar::one());
                } else {
                    row.push(Scalar::zero());
                }
                j = j + 1;
            }
            proof {
                assert(row_view(row@) =~= spec_identity(n as int)[i as int]);
            }
            let ghost pre = out@;
            out.push(row);
            proof {
                assert forall|ii: int| 0 <= ii < out@.len() implies rows_view(out@)[ii]
                    == spec_identity(n as int)[ii] by {
                    if ii < pre.len() {
                        assert(out@[ii] == pre[ii]);
                        assert(rows_view(pre)[ii] == spec_identity(n as int)[ii]);
                    } else {
                        assert(out@[ii] == row);
                    }
                }
            }
            i = i + 1;
        }
        let m = Matrix::from_vec(out);
        proof {
            assert(m@ =~= spec_identity(n as int));
            assert forall|ii: int| 0 <= ii < m@.len() implies (#[trigger] m@[ii]).len()
                == spec_cols(m@) && row_wf(m@[ii]) by {}
        }
        m
    }

    /// The elementwise sum. Fails exactly when the shapes differ.
    #[verifier::loop_isolation(false)]
    pub fn add(a: &Matrix, b: &Matrix) -> (r: Result<Matrix, String>)
        requires
            mat_wf(a@),
            mat_wf(b@),
        ensures
            r is Ok <==> a@.len() == b@.len() && spec_cols(a@) == spec_cols(b@),
            r is Ok ==> r->Ok_0@ == spec_madd(a@, b@) && mat_wf(r->Ok_0@),
            r is Err ==> r->Err_0@ == "Cannot add the two matrices because their shapes are unequal!"@,
    {
        if a.rows() != b.rows() || a.cols() != b.cols() {
            return Err("Cannot add the two matrices because their shapes are unequal!".to_string());
        }
        let n = a.rows();
        let w = a.cols();
        let mut out: Vec<Vec<Scalar>> = Vec::new();
        let mut i: usize = 0;
        while i < n
            invariant
                i <= n,
                out@.len() == i,
                forall|ii: int| 0 <= ii < i ==> rows_view(out@)[ii] == spec_madd(a@, b@)[ii],
            decreases n - i,
        {
            let mut row: Vec<Scalar> = Vec::new();
            let mut j: usize = 0;
            while j < w
                invariant
                    i < n,
                    j <= w,
                    row@.len() == j,
                    forall|jj: int|
                        0 <= jj < j ==> (#[trigger] row@[jj])@ == rat_add(a@[i as int][jj], b@[i as int][jj]),
                decreases w - j,
            {
                row.push(a.entry(i, j).add(b.entry(i, j)));
                j = j + 1;
            }
            proof {
                assert(row_view(row@) =~= spec_madd(a@, b@)[i as int]);
            }
            let ghost pre = out@;
            out.push(row);
            proof {
                assert forall|ii: int| 0 <= ii < out@.len() implies rows_view(out@)[ii]
                    == spec_madd(a@, b@)[ii] by {
                    if ii < pre.len() {
                        assert(out@[ii] == pre[ii]);
                        assert(rows_view(pre)[ii] == spec_madd(a@, b@)[ii]);
                    } else {
                        assert(out@[ii] == row);
                    }
                }
            }
            i = i + 1;
        }
        let m = Matrix::from_vec(out);
        proof {
            assert(m@ =~= spec_madd(a@, b@));
            assert forall|ii: int| 0 <= ii < m@.len() implies (#[trigger] m@[ii]).len()
                == spec_cols(m@) && row_wf(m@[ii]) by {
                assert forall|jj: int| 0 <= jj < m@[ii].len() implies rat_wf(
                    #[trigger] m@[ii][jj],
                ) by {
                    crate::rat::lemma_add_wf(a@[ii][jj], b@[ii][jj]);
                }
            }
        }
        Ok(m)
    }

    /// The elementwise difference. Fails exactly when the shapes differ.
    #[verifier::loop_isolation(false)]
    pub fn subtract(a: &Matrix, b: &Matrix) -> (r: Result<Matrix, String>)
        requires
            mat_wf(a@),
            mat_wf(b@),
        ensures
            r is Ok <==> a@.len() == b@.len() && spec_cols(a@) == spec_cols(b@),
            r is Ok ==> r->Ok_0@ == spec_msub(a@, b@) && mat_wf(r->Ok_0@),
            r is Err ==> r->Err_0@ == "Cannot add the two matrices because their shapes are unequal!"@,
    {
        if a.rows() != b.rows() || a.cols() != b.cols() {
            return Err("Cannot add the two matrices because their shapes are unequal!".to_string());
        }
        let n = a.rows();
        let w = a.cols();
        let mut out: Vec<Vec<Scalar>> = Vec::new();
        let mut i: usize = 0;
        while i < n
            invariant
                i <= n,
                out@.len() == i,
                forall|ii: int| 0 <= ii < i ==> rows_view(out@)[ii] == spec_msub(a@, b@)[ii],
            decreases n - i,
        {
            let mut row: Vec<Scalar> = Vec::new();
            let mut j: usize = 0;
            while j < w
                invariant
                    i < n,
                    j <= w,
                    row@.len() == j,
                    forall|jj: int|
                        0 <= jj < j ==> (#[trigger] row@[jj])@ == rat_sub(a@[i as int][jj], b@[i as int][jj]),
                decreases w - j,
            {
                row.push(a.entry(i, j).sub(b.entry(i, j)));
                j = j + 1;
            }
            proof {
                assert(row_view(row@) =~= spec_msub(a@, b@)[i as int]);
            }
            let ghost pre = out@;
            out.push(row);
            proof {
                assert forall|ii: int| 0 <= ii < out@.len() implies rows_view(out@)[ii]
                    == spec_msub(a@, b@)[ii] by {
                    if ii < pre.len() {
                        assert(out@[ii] == pre[ii]);
                        assert(rows_view(pre)[ii] == spec_msub(a@, b@)[ii]);
                    } else {
                        assert(out@[ii] == row);
                    }
                }
            }
            i = i + 1;
        }
        let m = Matrix::from_vec(out);
        proof {
            assert(m@ =~= spec_msub(a@, b@));
            assert forall|ii: int| 0 <= ii < m@.len() implies (#[trigger] m@[ii]).len()
                == spec_cols(m@) && row_wf(m@[ii]) by {
                assert forall|jj: int| 0 <= jj < m@[ii].len() implies rat_wf(
                    #[trigger] m@[ii][jj],
                ) by {
                    crate::rat::lemma_add_wf(a@[ii][jj], b@[ii][jj]);
                }
            }
        }
        Ok(m)
    }

    /// Every entry multiplied by the scalar `constant`. Never fails.
    #[verifier::loop_isolation(false)]
    pub fn multiply_by_scalar(matrix: Matrix, constant: Scalar) -> (m: Matrix)
        requires
            mat_wf(matrix@),
            rat_wf(constant@),
        ensures
            m@ == spec_mscale(matrix@, constant@),
            mat_wf(m@),
    {
        let ghost v = matrix@;
        let n = matrix.rows();
        let w = matrix.cols();
        let mut out: Vec<Vec<Scalar>> = Vec::new();
        let mut i: usize = 0;
        while i < n
            invariant
                i <= n,
                out@.len() == i,
                forall|ii: int|
                    0 <= ii < i ==> rows_view(out@)[ii] == spec_mscale(v, constant@)[ii],
            decreases n - i,
        {
            let mut row: Vec<Scalar> = Vec::new();
            let mut j: usize = 0;
            while j < w
                invariant
                    i < n,
                    j <= w,
                    row@.len() == j,
                    forall|jj: int|
                        0 <= jj < j ==> (#[trigger] row@[jj])@ == rat_mul(v[i as int][jj], constant@),
                decreases w - j,
            {
                row.push(matrix.entry(i, j).mul(&constant));
                j = j + 1;
            }
            proof {
                assert(row_view(row@) =~= spec_mscale(v, constant@)[i as int]);
            }
            let ghost pre = out@;
            out.push(row);
            proof {
                assert forall|ii: int| 0 <= ii < out@.len() implies rows_view(out@)[ii]
                    == spec_mscale(v, constant@)[ii] by {
                    if ii < pre.len() {
                        assert(out@[ii] == pre[ii]);
                        assert(rows_view(pre)[ii] == spec_mscale(v, constant@)[ii]);
                    } else {
                        assert(out@[ii] == row);
                    }
                }
            }
            i = i + 1;
        }
        let m = Matrix::from_vec(out);
        proof {
            assert(m@ =~= spec_mscale(v, constant@));
            assert forall|ii: int| 0 <= ii < m@.len() implies (#[trigger] m@[ii]).len()
                == spec_cols(m@) && row_wf(m@[ii]) by {
                assert forall|jj: int| 0 <= jj < m@[ii].len() implies rat_wf(
                    #[trigger] m@[ii][jj],
                ) by {
                    crate::rat::lemma_add_wf(v[ii][jj], constant@);
                }
            }
        }
        m
    }

    /// The matrix product. Fails exactly when the inner dimensions differ:
    /// the column count of `a` must equal the row count of `b`.
    #[verifier::loop_isolation(false)]
    pub fn multiply(a: &Matrix, b: &Matrix) -> (r: Result<Matrix, String>)
        requires
            mat_wf(a@),
            mat_wf(b@),
        ensures
            r is Ok <==> spec_cols(a@) == b@.len(),
            r is Ok ==> r->Ok_0@ == spec_mmul(a@, b@) && mat_wf(r->Ok_0@),
            r is Err ==> r->Err_0@ == "The columns of matrix a do not equal the rows of matrix b!"@,
    {
        if a.cols() != b.rows() {
            return Err("The columns of matrix a do not equal the rows of matrix b!".to_string());
        }
        let n = a.rows();
        let inner = a.cols();
        let w = b.cols();
        let mut out: Vec<Vec<Scalar>> = Vec::new();
        let mut i: usize = 0;
        while i < n
            invariant
                i <= n,
                out@.len() == i,
                forall|ii: int| 0 <= ii < i ==> rows_view(out@)[ii] == spec_mmul(a@, b@)[ii],
            decreases n - i,
        {
            let mut row: Vec<Scalar> = Vec::new();
            let mut j: usize = 0;
            while j < w
                invariant
                    i < n,
                    j <= w,
                    row@.len() == j,
                    forall|jj: int|
                        0 <= jj < j ==> (#[trigger] row@[jj])@ == spec_dot(a@[i as int], spec_col(b@, jj)),
                decreases w - j,
            {
                let mut sum = Scalar::zero();
                let mut k: usize = 0;
                while k < inner
                    invariant
                        i < n,
                        j < w,
                        k <= inner,
                        rat_wf(sum@),
                        sum@ == dot_prefix(a@[i as int], spec_col(b@, j as int), k as int),
                    decreases inner - k,
                {
                    sum = sum.add(&a.entry(i, k).mul(b.entry(k, j)));
                    k = k + 1;
                }
                row.push(sum);
                j = j + 1;
            }
            proof {
                assert(row_view(row@) =~= spec_mmul(a@, b@)[i as int]);
            }
            let ghost pre = out@;
            out.push(row);
            proof {
                assert forall|ii: int| 0 <= ii < out@.len() implies rows_view(out@)[ii]
                    == spec_mmul(a@, b@)[ii] by {
                    if ii < pre.len() {
                        assert(out@[ii] == pre[ii]);
                        assert(rows_view(pre)[ii] == spec_mmul(a@, b@)[ii]);
                    } else {
                        assert(out@[ii] == row);
                    }
                }
            }
            i = i + 1;
        }
        let m = Matrix::from_vec(out);
        proof {
            assert(m@ =~= spec_mmul(a@, b@));
            assert forall|ii: int| 0 <= ii < m@.len() implies (#[trigger] m@[ii]).len()
                == spec_cols(m@) && row_wf(m@[ii]) by {
                assert forall|jj: int| 0 <= jj < m@[ii].len() implies rat_wf(
                    #[trigger] m@[ii][jj],
                ) by {
                    assert forall|kk: int|
                        0 <= kk < spec_col(b@, jj).len() implies rat_wf(
                        #[trigger] spec_col(b@, jj)[kk],
                    ) by {
                        assert(row_wf(b@[kk]));
                    }
                    lemma_dot_prefix_wf(a@[ii], spec_col(b@, jj), a@[ii].len() as int);
                }
            }
        }
        Ok(m)
    }

    /// The dot product of a single-row matrix with a single-column matrix.
    /// Fails when the inner dimensions differ, and also when the operands
    /// are not a row vector and a column vector.
    #[verifier::loop_isolation(false)]
    pub fn dot(a: &Matrix, b: &Matrix) -> (r: Result<Scalar, String>)
        requires
            mat_wf(a@),
            mat_wf(b@),
        ensures
            r is Ok <==> spec_cols(a@) == b@.len() && a@.len() == 1 && spec_cols(b@) == 1,
            r is Ok ==> r->Ok_0@ == spec_dot(a@[0], spec_col(b@, 0)) && rat_wf(r->Ok_0@),
            spec_cols(a@) != b@.len() ==> r->Err_0@
                == "Cannot get the dot product: The number of columns in A must match the number of rows in B."@,
            spec_cols(a@) == b@.len() && !(a@.len() == 1 && spec_cols(b@) == 1) ==> r->Err_0@
                == "Dot product is only valid for a row vector and a column vector."@,
    {
        if a.cols() != b.rows() {
            return Err(
                "Cannot get the dot product: The number of columns in A must match the number of rows in B.".to_string(),
            );
        }
        if !(a.rows() == 1 && b.cols() == 1) {
            return Err("Dot product is only valid for a row vector and a column vector.".to_string());
        }
        let inner = a.cols();
        let mut sum = Scalar::zero();
        let mut k: usize = 0;
        while k < inner
            invariant
                k <= inner,
                rat_wf(sum@),
                sum@ == dot_prefix(a@[0], spec_col(b@, 0), k as int),
            decreases inner - k,
        {
            sum = sum.add(&a.entry(0, k).mul(b.entry(k, 0)));
            k = k + 1;
        }
        Ok(sum)
    }

    /// Solves the augmented system `[A | b]` by Gauss-Jordan elimination:
    /// reduce to reduced row echelon form, then read each pivot variable
    /// off the last column. Rows are named `a`, `b`, `c`, ... in order, so
    /// at most twenty-six rows are accepted. Fails with a no-solution
    /// error when a row is inconsistent, and with an infinitely-many-
    /// solutions error when a row vanishes entirely.
    #[verifier::loop_isolation(false)]
    pub fn gauss_jordan_elimination(matrix: Matrix) -> (r: Result<
        crate::solution::SolutionSet,
        String,
    >)
        requires
            mat_wf(matrix@),
            matrix@.len() <= spec_cols(matrix@),
            matrix@.len() <= 26,
        ensures
            r is Ok <==> !crate::specs::gj_no_solution(crate::specs::spec_rref(matrix@))
                && !crate::specs::gj_underdetermined(crate::specs::spec_rref(matrix@)),
            r is Ok ==> r->Ok_0@ == crate::specs::gj_solution(
                crate::specs::spec_rref(matrix@),
                matrix@.len() as int,
            ),
            crate::specs::gj_no_solution(crate::specs::spec_rref(matrix@)) ==> r->Err_0@
                == "No solution exists for the given matrix."@,
            !crate::specs::gj_no_solution(crate::specs::spec_rref(matrix@))
                && crate::specs::gj_underdetermined(crate::specs::spec_rref(matrix@))
                ==> r->Err_0@ == "Infinitely many solutions exist for the given matrix."@,
    {
        let ghost v0 = matrix@;
        let reduced = Self::rref(matrix);
        let ghost rv = reduced@;
        let n = reduced.rows();
        let c = reduced.cols();
        let mut sol = crate::solution::SolutionSet::new();
        let mut i: usize = 0;
        while i < n
            invariant
                i <= n,
                sol@ =~= crate::specs::gj_solution(rv, i as int),
                forall|ii: int|
                    0 <= ii < i ==> !((#[trigger] rv[ii])[ii].n == 0 && rv[ii][spec_cols(rv)
                        - 1].n != 0),
            decreases n - i,
        {
            proof {
                assert(rat_wf(rv[i as int][i as int]));
                assert(rat_wf(rv[i as int][spec_cols(rv) - 1]));
            }
            if !reduced.entry(i, i).is_zero() {
                let letter = (97u8 + i as u8) as char;
                proof {
                    assert(letter == crate::specs::var_name(i as int));
                }
                sol.push_entry(letter, reduced.entry(i, c - 1).duplicate());
            } else if !reduced.entry(i, c - 1).is_zero() {
                proof {
                    assert(crate::specs::gj_no_solution(rv));
                }
                return Err("No solution exists for the given matrix.".to_string());
            }
            i = i + 1;
        }
        proof {
            assert(!crate::specs::gj_no_solution(rv));
        }
        let mut i: usize = 0;
        while i < n
            invariant
                i <= n,
                forall|ii: int| 0 <= ii < i ==> !crate::specs::row_all_zero(#[trigger] rv[ii]),
            decreases n - i,
        {
            let mut all_zero = true;
            let mut j: usize = 0;
            while j < c
                invariant
                    i < n,
                    j <= c,
                    all_zero <==> forall|jj: int|
                        0 <= jj < j ==> (#[trigger] rv[i as int][jj]).n == 0,
                decreases c - j,
            {
                proof {
                    assert(rat_wf(rv[i as int][j as int]));
                }
                if !reduced.entry(i, j).is_zero() {
                    all_zero = false;
                }
                j = j + 1;
            }
            if all_zero {
                proof {
                    assert(crate::specs::row_all_zero(rv[i as int]));
                    assert(crate::specs::gj_underdetermined(rv));
                }
                return Err("Infinitely many solutions exist for the given matrix.".to_string());
            }
            i = i + 1;
        }
        proof {
            assert(!crate::specs::gj_underdetermined(rv));
        }
        Ok(sol)
    }

    /// Gaussian elimination on an augmented matrix; the same operation as
    /// `gauss_jordan_elimination`, under the name the solver family uses.
    pub fn gaussian_elimination(matrix: Matrix) -> (r: Result<
        crate::solution::SolutionSet,
        String,
    >)
        requires
            mat_wf(matrix@),
            matrix@.len() <= spec_cols(matrix@),
            matrix@.len() <= 26,
        ensures
            r is Ok <==> !crate::specs::gj_no_solution(crate::specs::spec_rref(matrix@))
                && !crate::specs::gj_underdetermined(crate::specs::spec_rref(matrix@)),
            r is Ok ==> r->Ok_0@ == crate::specs::gj_solution(
                crate::specs::spec_rref(matrix@),
                matrix@.len() as int,
            ),
            crate::specs::gj_no_solution(crate::specs::spec_rref(matrix@)) ==> r->Err_0@
                == "No solution exists for the given matrix."@,
            !crate::specs::gj_no_solution(crate::specs::spec_rref(matrix@))
                && crate::specs::gj_underdetermined(crate::specs::spec_rref(matrix@))
                ==> r->Err_0@ == "Infinitely many solutions exist for the given matrix."@,
    {
        Self::gauss_jordan_elimination(matrix)
    }

    /// Doolittle-style LU decomposition of a square matrix: a unit
    /// lower-triangular factor and an upper-triangular factor whose product
    /// is the input, exactly. Succeeds on exactly the square matrices the
    /// elimination passes without meeting a zero pivot (`lu_ok`); no rows
    /// are swapped, so a zero pivot fails the call.
    #[verifier::loop_isolation(false)]
    pub fn lu_decomposition(matrix: &Matrix) -> (r: Result<(Matrix, Matrix), String>)
        requires
            mat_wf(matrix@),
        ensures
            r is Ok <==> matrix@.len() == spec_cols(matrix@) && crate::specs::lu_ok(matrix@),
            r is Ok ==> r->Ok_0.0@ == crate::specs::lu_lower(matrix@) && r->Ok_0.1@
                == crate::specs::lu_upper(matrix@),
            matrix@.len() != spec_cols(matrix@) ==> r is Err && r->Err_0@
                == "Matrix must be square for LU decomposition."@,
            r is Err && matrix@.len() == spec_cols(matrix@) ==> r->Err_0@
                == "Encountered a zero pivot during LU decomposition."@,
            r is Ok ==> {
                &&& r->Ok_0.0@.len() == matrix@.len()
                &&& r->Ok_0.1@.len() == matrix@.len()
                &&& mat_wf(r->Ok_0.0@)
                &&& mat_wf(r->Ok_0.1@)
                &&& spec_cols(r->Ok_0.0@) == matrix@.len()
                &&& spec_cols(r->Ok_0.1@) == matrix@.len()
                &&& (forall|i: int|
                    0 <= i < matrix@.len() ==> rat_eqv(
                        (#[trigger] r->Ok_0.0@[i])[i],
                        crate::rat::rat_one(),
                    ))
                &&& (forall|i: int, j: int|
                    0 <= i < matrix@.len() && i < j < matrix@.len() ==> (#[trigger] r->Ok_0.0@[i][j]).n
                        == 0)
                &&& (forall|i: int, j: int|
                    0 <= j < i < matrix@.len() ==> (#[trigger] r->Ok_0.1@[i][j]).n == 0)
                &&& mat_equiv(spec_mmul(r->Ok_0.0@, r->Ok_0.1@), matrix@)
            },
    {
        let n = matrix.rows();
        if n != matrix.cols() {
            return Err("Matrix must be square for LU decomposition.".to_string());
        }
        if n == 0 {
            let l = Matrix::from_vec(Vec::new());
            let u = Matrix::from_vec(Vec::new());
            proof {
                assert(spec_mmul(l@, u@) =~= Seq::<Seq<Rat>>::empty());
                assert(crate::specs::lu_result(matrix@) == Some((spec_identity(0), matrix@)));
                assert(l@ =~= spec_identity(0));
                assert(u@ =~= matrix@);
            }
            return Ok((l, u));
        }
        let eye = Self::identity(n);
        let mut lrows = eye.into_vec();
        proof {
            assert(rows_view(lrows@) == spec_identity(n as int));
            assert forall|ii: int| 0 <= ii < n implies (#[trigger] rows_view(lrows@)[ii]).len()
                == n && row_wf(rows_view(lrows@)[ii]) by {}
        }
        let mut urows: Vec<Vec<Scalar>> = Vec::new();
        let mut i: usize = 0;
        while i < n
            invariant
                i <= n,
                urows@.len() == i,
                forall|ii: int|
                    0 <= ii < i ==> (#[trigger] rows_view(urows@)[ii]).len() == n && row_wf(
                        rows_view(urows@)[ii],
                    ) && rows_view(urows@)[ii] == matrix@[ii],
            decreases n - i,
        {
            let ghost pre = urows@;
            let row = dup_row(matrix.row(i));
            urows.push(row);
            proof {
                assert forall|ii: int| 0 <= ii < urows@.len() implies (
                #[trigger] rows_view(urows@)[ii]).len() == n && row_wf(rows_view(urows@)[ii])
                    && rows_view(urows@)[ii] == matrix@[ii] by {
                    if ii < pre.len() {
                        assert(urows@[ii] == pre[ii]);
                        assert(rows_view(pre)[ii] == rows_view(urows@)[ii]);
                    } else {
                        assert(rows_view(urows@)[ii] == row_view(urows@[ii]@));
                        assert(row_view(row@) == matrix@[ii]);
                        assert(row_wf(matrix@[ii]));
                    }
                }
            }
            i = i + 1;
        }
        proof {
            assert(rows_view(urows@) =~= matrix@);
        }
        let mut k: usize = 0;
        while k < n
            invariant
                k <= n,
                lrows@.len() == n,
                urows@.len() == n,
                forall|ii: int|
                    0 <= ii < n ==> (#[trigger] rows_view(lrows@)[ii]).len() == n && row_wf(
                        rows_view(lrows@)[ii],
                    ),
                forall|ii: int|
                    0 <= ii < n ==> (#[trigger] rows_view(urows@)[ii]).len() == n && row_wf(
                        rows_view(urows@)[ii],
                    ),
                crate::specs::lu_result(matrix@) == crate::specs::lu_go(
                    rows_view(lrows@),
                    rows_view(urows@),
                    k as int,
                ),
            decreases n - k,
        {
            let ghost lstart = rows_view(lrows@);
            let ghost ustart = rows_view(urows@);
            proof {
                assert(rat_wf(ustart[k as int][k as int]));
            }
            let pivot = urows[k][k].duplicate();
            if pivot.is_zero() {
                if k + 1 < n {
                    proof {
                        assert(crate::specs::lu_go(lstart, ustart, k as int) is None);
                        assert(crate::specs::lu_result(matrix@) is None);
                    }
                    return Err("Encountered a zero pivot during LU decomposition.".to_string());
                }
                proof {
                    assert(crate::specs::lu_go(lstart, ustart, k as int)
                        == crate::specs::lu_go(lstart, ustart, k as int + 1));
                }
                k = k + 1;
            } else {
            let pivrow = dup_row(&urows[k]);
            proof {
                assert(row_view(pivrow@) == ustart[k as int]);
            }
            let mut r: usize = k + 1;
            while r < n
                invariant
                    k < n,
                    k + 1 <= r <= n,
                    lrows@.len() == n,
                    urows@.len() == n,
                    pivot@ == ustart[k as int][k as int],
                    pivot@.n != 0,
                    rat_wf(pivot@),
                    pivrow@.len() == n,
                    row_wf(row_view(pivrow@)),
                    row_view(pivrow@) == ustart[k as int],
                    forall|ii: int|
                        0 <= ii < n ==> (#[trigger] rows_view(lrows@)[ii]).len() == n
                            && row_wf(rows_view(lrows@)[ii]),
                    forall|ii: int|
                        0 <= ii < n ==> (#[trigger] rows_view(urows@)[ii]).len() == n
                            && row_wf(rows_view(urows@)[ii]),
                    forall|q: int|
                        0 <= q < n && !(k < q < r) ==> rows_view(urows@)[q] == ustart[q]
                            && rows_view(lrows@)[q] == lstart[q],
                    forall|q: int|
                        k < q < r ==> rows_view(urows@)[q] == crate::specs::row_sub_scaled(
                            ustart[q],
                            ustart[k as int],
                            crate::rat::rat_div(ustart[q][k as int], ustart[k as int][k as int]),
                        ),
                    forall|q: int|
                        k < q < r ==> rows_view(lrows@)[q] == lstart[q].update(
                            k as int,
                            crate::rat::rat_div(ustart[q][k as int], ustart[k as int][k as int]),
                        ),
                decreases n - r,
            {
                proof {
                    assert(rat_wf(rows_view(urows@)[r as int][k as int]));
                    assert(rows_view(urows@)[r as int] == ustart[r as int]);
                }
                let f = urows[r][k].div(&pivot);
                let ghost upre = urows@;
                let newrow = row_sub_scaled_exec(&urows[r], &pivrow, &f);
                urows.set(r, newrow);
                let ghost lpre = lrows@;
                let mut lrow = dup_row(&lrows[r]);
                proof {
                    assert(rows_view(lrows@)[r as int] == row_view(lrows@[r as int]@));
                    assert(lrow@.len() == n);
                }
                lrow.set(k, f);
                lrows.set(r, lrow);
                proof {
                    assert forall|ii: int| 0 <= ii < n implies (
                    #[trigger] rows_view(urows@)[ii]).len() == n && row_wf(
                        rows_view(urows@)[ii],
                    ) by {
                        if ii == r as int {
                            assert(rows_view(urows@)[ii] == row_view(newrow@));
                        } else {
                            assert(urows@[ii] == upre[ii]);
                            assert(rows_view(upre)[ii] == rows_view(urows@)[ii]);
                        }
                    }
                    assert(rows_view(urows@)[r as int] == crate::specs::row_sub_scaled(
                        ustart[r as int],
                        ustart[k as int],
                        crate::rat::rat_div(ustart[r as int][k as int], ustart[k as int][k as int]),
                    ));
                    assert(row_view(lrow@) =~= lstart[r as int].update(
                        k as int,
                        crate::rat::rat_div(ustart[r as int][k as int], ustart[k as int][k as int]),
                    ));
                    assert(rows_view(lrows@)[r as int] == row_view(lrow@));
                    assert forall|q: int| 0 <= q < n && q != r as int implies (
                    #[trigger] rows_view(urows@)[q]) == rows_view(upre)[q] by {
                        assert(urows@[q] == upre[q]);
                    }
                    assert forall|q: int| 0 <= q < n && q != r as int implies (
                    #[trigger] rows_view(lrows@)[q]) == rows_view(lpre)[q] by {
                        assert(lrows@[q] == lpre[q]);
                    }
                    assert forall|ii: int| 0 <= ii < n implies (
                    #[trigger] rows_view(lrows@)[ii]).len() == n && row_wf(
                        rows_view(lrows@)[ii],
                    ) by {
                        if ii == r as int {
                            assert(rows_view(lrows@)[ii] == row_view(lrows@[ii]@));
                            assert forall|jj: int|
                                0 <= jj < row_view(lrows@[ii]@).len() implies rat_wf(
                                #[trigger] row_view(lrows@[ii]@)[jj],
                            ) by {
                                if jj == k as int {
                                } else {
                                    assert(row_view(lrows@[ii]@)[jj] == rows_view(lpre)[ii][jj]);
                                }
                            }
                        } else {
                            assert(lrows@[ii] == lpre[ii]);
                            assert(rows_view(lpre)[ii] == rows_view(lrows@)[ii]);
                        }
                    }
                }
                r = r + 1;
            }
            proof {
                assert(rows_view(urows@) =~= crate::specs::elim_div_below(ustart, k as int));
                assert(rows_view(lrows@) =~= crate::specs::lu_l_step(lstart, ustart, k as int));
                assert(crate::specs::lu_go(lstart, ustart, k as int) == crate::specs::lu_go(
                    rows_view(lrows@),
                    rows_view(urows@),
                    k as int + 1,
                ));
            }
            k = k + 1;
            }
        }
        let l = Matrix::from_vec(lrows);
        let u = Matrix::from_vec(urows);
        proof {
            assert(mat_wf(l@));
            assert(mat_wf(u@));
            assert(crate::specs::lu_result(matrix@) == Some((l@, u@)));
            assert(crate::specs::lu_lower(matrix@) == l@);
            assert(crate::specs::lu_upper(matrix@) == u@);
        }
        // Check the factors: unit lower-triangular, upper-triangular, and
        // an exact product. A failed check reports a zero pivot, the only
        // way the elimination can go astray.
        let one = Scalar::one();
        let mut i: usize = 0;
        while i < n
            invariant
                i <= n,
                one@ == crate::rat::rat_one(),
                l@.len() == n,
                u@.len() == n,
                mat_wf(l@),
                mat_wf(u@),
                spec_cols(l@) == n,
                spec_cols(u@) == n,
                forall|ii: int| 0 <= ii < i ==> rat_eqv((#[trigger] l@[ii])[ii], crate::rat::rat_one()),
                forall|ii: int, jj: int|
                    0 <= ii < i && ii < jj < n ==> (#[trigger] l@[ii][jj]).n == 0,
                forall|ii: int, jj: int|
                    0 <= jj < ii && ii < i ==> (#[trigger] u@[ii][jj]).n == 0,
            decreases n - i,
        {
            if !(*l.entry(i, i) == one) {
                proof {
                    assert(!crate::specs::spec_unit_lower(l@));
                }
                return Err("Encountered a zero pivot during LU decomposition.".to_string());
            }
            let mut j: usize = i + 1;
            while j < n
                invariant
                    i < n,
                    i + 1 <= j <= n,
                    forall|jj: int| i < jj < j ==> (#[trigger] l@[i as int][jj]).n == 0,
                decreases n - j,
            {
                proof {
                    assert(rat_wf(l@[i as int][j as int]));
                }
                if !l.entry(i, j).is_zero() {
                    proof {
                        assert(!crate::specs::spec_unit_lower(l@));
                    }
                    return Err("Encountered a zero pivot during LU decomposition.".to_string());
                }
                j = j + 1;
            }
            let mut j: usize = 0;
            while j < i
                invariant
                    i < n,
                    j <= i,
                    forall|jj: int| 0 <= jj < j ==> (#[trigger] u@[i as int][jj]).n == 0,
                decreases i - j,
            {
                proof {
                    assert(rat_wf(u@[i as int][j as int]));
                }
                if !u.entry(i, j).is_zero() {
                    proof {
                        assert(!crate::specs::spec_upper(u@));
                    }
                    return Err("Encountered a zero pivot during LU decomposition.".to_string());
                }
                j = j + 1;
            }
            i = i + 1;
        }
        let prod = match Self::multiply(&l, &u) {
            Ok(p) => p,
            Err(_) => {
                proof {
                    assert(false);
                }
                return Err("Encountered a zero pivot during LU decomposition.".to_string());
            },
        };
        if !(prod == *matrix) {
            proof {
                assert(!mat_equiv(spec_mmul(l@, u@), matrix@));
            }
            return Err("Encountered a zero pivot during LU decomposition.".to_string());
        }
        proof {
            assert(crate::specs::spec_unit_lower(l@));
            assert(crate::specs::spec_upper(u@));
            assert(crate::specs::lu_ok(matrix@));
        }
        Ok((l, u))
    }

    /// The inverse of a square matrix, computed by augmenting with the
    /// identity and driving the left block to reduced row echelon form by
    /// Gauss-Jordan elimination with row swaps. Succeeds on exactly the
    /// square matrices the pivoted elimination inverts (`invert_ok`); a
    /// returned inverse times the input is exactly the identity, on both
    /// sides.
    #[verifier::loop_isolation(false)]
    pub fn inverse(matrix: Matrix) -> (r: Result<Matrix, String>)
        requires
            mat_wf(matrix@),
        ensures
            r is Ok <==> matrix@.len() == spec_cols(matrix@) && crate::specs::invert_ok(matrix@),
            r is Ok ==> Some(r->Ok_0@) == crate::specs::invert_result(matrix@),
            matrix@.len() != spec_cols(matrix@) ==> r is Err && r->Err_0@
                == "Matrix must be square to invert."@,
            r is Err && matrix@.len() == spec_cols(matrix@) ==> r->Err_0@
                == "Matrix is singular and cannot be inverted."@,
            r is Ok ==> r->Ok_0@.len() == matrix@.len() && spec_cols(r->Ok_0@) == matrix@.len()
                && mat_wf(r->Ok_0@) && mat_equiv(
                spec_mmul(r->Ok_0@, matrix@),
                crate::specs::spec_identity(matrix@.len() as int),
            ) && mat_equiv(
                spec_mmul(matrix@, r->Ok_0@),
                crate::specs::spec_identity(matrix@.len() as int),
            ),
    {
        let n = matrix.rows();
        if n != matrix.cols() {
            return Err("Matrix must be square to invert.".to_string());
        }
        if n == 0 {
            let inv = Matrix::from_vec(Vec::new());
            proof {
                assert(spec_mmul(inv@, matrix@) =~= crate::specs::spec_identity(0));
                assert(spec_mmul(matrix@, inv@) =~= crate::specs::spec_identity(0));
                assert(crate::specs::inv_elim(crate::specs::spec_augment_identity(matrix@), 0, 0)
                    == Some(crate::specs::spec_augment_identity(matrix@)));
                assert(crate::specs::invert_result(matrix@) == Some(
                    crate::specs::right_block(crate::specs::spec_augment_identity(matrix@), 0),
                ));
                assert(inv@ =~= crate::specs::right_block(
                    crate::specs::spec_augment_identity(matrix@),
                    0,
                ));
            }
            return Ok(inv);
        }
        // Build the augmented matrix [A | I], n rows of width 2 n.
        let mut aug: Vec<Vec<Scalar>> = Vec::new();
        let mut i: usize = 0;
        while i < n
            invariant
                i <= n,
                aug@.len() == i,
                forall|ii: int|
                    0 <= ii < i ==> (#[trigger] rows_view(aug@)[ii]).len() == n + n && row_wf(
                        rows_view(aug@)[ii],
                    ) && rows_view(aug@)[ii] == crate::specs::spec_augment_identity(matrix@)[ii],
            decreases n - i,
        {
            let mut row: Vec<Scalar> = Vec::new();
            let mut j: usize = 0;
            while j < n
                invariant
                    i < n,
                    j <= n,
                    row@.len() == j,
                    forall|jj: int|
                        0 <= jj < j ==> rat_wf((#[trigger] row@[jj])@) && row@[jj]@
                            == matrix@[i as int][jj],
                decreases n - j,
            {
                proof {
                    assert(rat_wf(matrix@[i as int][j as int]));
                }
                row.push(matrix.entry(i, j).duplicate());
                j = j + 1;
            }
            let mut j: usize = 0;
            while j < n
                invariant
                    i < n,
                    j <= n,
                    row@.len() == n + j,
                    forall|jj: int|
                        0 <= jj < n ==> rat_wf((#[trigger] row@[jj])@) && row@[jj]@
                            == matrix@[i as int][jj],
                    forall|jj: int|
                        n <= jj < n + j ==> rat_wf((#[trigger] row@[jj])@) && row@[jj]@
                            == spec_identity(n as int)[i as int][jj - n],
                decreases n - j,
            {
                if j == i {
                    row.push(Scalar::one());
                } else {
                    row.push(Scalar::zero());
                }
                j = j + 1;
            }
            let ghost pre = aug@;
            aug.push(row);
            proof {
                assert(row_view(row@) =~= crate::specs::spec_augment_identity(matrix@)[i as int]);
                assert forall|ii: int| 0 <= ii < aug@.len() implies (
                #[trigger] rows_view(aug@)[ii]).len() == n + n && row_wf(
                    rows_view(aug@)[ii],
                ) && rows_view(aug@)[ii] == crate::specs::spec_augment_identity(matrix@)[ii] by {
                    if ii < pre.len() {
                        assert(aug@[ii] == pre[ii]);
                        assert(rows_view(pre)[ii] == rows_view(aug@)[ii]);
                    } else {
                        assert(rows_view(aug@)[ii] == row_view(aug@[ii]@));
                    }
                }
            }
            i = i + 1;
        }
        proof {
            assert(rows_view(aug@) =~= crate::specs::spec_augment_identity(matrix@));
        }
        // Gauss-Jordan elimination on the augmented matrix.
        let w = aug[0].len();
        proof {
            assert(rows_view(aug@)[0] == row_view(aug@[0]@));
            assert(w == n + n);
        }
        let ghost aug0 = rows_view(aug@);
        let mut i: usize = 0;
        while i < n
            invariant
                i <= n,
                w == n + n,
                aug@.len() == n,
                forall|ii: int|
                    0 <= ii < n ==> (#[trigger] rows_view(aug@)[ii]).len() == n + n && row_wf(
                        rows_view(aug@)[ii],
                    ),
                crate::specs::inv_elim(aug0, n as int, 0) == crate::specs::inv_elim(
                    rows_view(aug@),
                    n as int,
                    i as int,
                ),
            decreases n - i,
        {
            let ghost cur = rows_view(aug@);
            // Partial pivoting: take the largest-magnitude entry from the
            // rows at or below the pivot position.
            let mut maxr: usize = i;
            let mut k: usize = i + 1;
            while k < n
                invariant
                    i <= maxr < n,
                    i + 1 <= k <= n,
                    maxr == crate::specs::pick_pivot(cur, i as int, i as int, k as int),
                decreases n - k,
            {
                proof {
                    assert(rat_wf(rows_view(aug@)[maxr as int][i as int]));
                    assert(rat_wf(rows_view(aug@)[k as int][i as int]));
                }
                if aug[maxr][i].abs_lt(&aug[k][i]) {
                    maxr = k;
                }
                k = k + 1;
            }
            proof {
                assert(maxr == crate::specs::pick_pivot(cur, i as int, i as int, n as int));
            }
            if maxr != i {
                let ghost pre = rows_view(aug@);
                let ri = dup_row(&aug[i]);
                let rk = dup_row(&aug[maxr]);
                aug.set(i, rk);
                aug.set(maxr, ri);
                proof {
                    assert forall|ii: int| 0 <= ii < n implies (
                    #[trigger] rows_view(aug@)[ii]).len() == n + n && row_wf(
                        rows_view(aug@)[ii],
                    ) by {
                        assert(rows_view(aug@)[ii] == if ii == i as int {
                            pre[maxr as int]
                        } else if ii == maxr as int {
                            pre[i as int]
                        } else {
                            pre[ii]
                        });
                    }
                    assert(rows_view(aug@) =~= crate::specs::swap_rows(
                        cur,
                        i as int,
                        maxr as int,
                    ));
                }
            }
            let ghost swapped = rows_view(aug@);
            proof {
                assert(rat_wf(swapped[i as int][i as int]));
            }
            if aug[i][i].is_zero() {
                proof {
                    let p = crate::specs::pick_pivot(cur, i as int, i as int, n as int);
                    assert(p == maxr as int);
                    assert(swapped == if p == i as int {
                        cur
                    } else {
                        crate::specs::swap_rows(cur, i as int, p)
                    });
                    assert(crate::specs::inv_elim(cur, n as int, i as int) is None);
                }
                return Err("Matrix is singular and cannot be inverted.".to_string());
            }
            let pivot = aug[i][i].duplicate();
            let ghost pre = rows_view(aug@);
            let newrow = row_div_exec(&aug[i], &pivot);
            aug.set(i, newrow);
            proof {
                assert forall|ii: int| 0 <= ii < n implies (
                #[trigger] rows_view(aug@)[ii]).len() == n + n && row_wf(
                    rows_view(aug@)[ii],
                ) by {
                    if ii == i as int {
                        assert(rows_view(aug@)[ii] == row_view(newrow@));
                    } else {
                        assert(pre[ii] == rows_view(aug@)[ii]);
                    }
                }
                assert(rows_view(aug@) =~= swapped.update(
                    i as int,
                    crate::specs::row_div_spec(swapped[i as int], swapped[i as int][i as int]),
                ));
            }
            let ghost normed = rows_view(aug@);
            let pivrow = dup_row(&aug[i]);
            proof {
                assert(row_view(pivrow@) == normed[i as int]);
            }
            let mut j: usize = 0;
            while j < n
                invariant
                    i < n,
                    j <= n,
                    aug@.len() == n,
                    pivrow@.len() == n + n,
                    row_wf(row_view(pivrow@)),
                    row_view(pivrow@) == normed[i as int],
                    forall|ii: int|
                        0 <= ii < n ==> (#[trigger] rows_view(aug@)[ii]).len() == n + n
                            && row_wf(rows_view(aug@)[ii]),
                    forall|q: int|
                        0 <= q < n && (q >= j || q == i as int) ==> rows_view(aug@)[q]
                            == normed[q],
                    forall|q: int|
                        0 <= q < j && q != i as int ==> rows_view(aug@)[q]
                            == crate::specs::row_sub_scaled(
                            normed[q],
                            normed[i as int],
                            normed[q][i as int],
                        ),
                decreases n - j,
            {
                if j != i {
                    proof {
                        assert(rat_wf(rows_view(aug@)[j as int][i as int]));
                        assert(rows_view(aug@)[j as int] == normed[j as int]);
                    }
                    let f = aug[j][i].duplicate();
                    let ghost pre2 = rows_view(aug@);
                    let newrow = row_sub_scaled_exec(&aug[j], &pivrow, &f);
                    aug.set(j, newrow);
                    proof {
                        assert forall|ii: int| 0 <= ii < n implies (
                        #[trigger] rows_view(aug@)[ii]).len() == n + n && row_wf(
                            rows_view(aug@)[ii],
                        ) && (ii != j as int ==> rows_view(aug@)[ii] == pre2[ii]) by {
                            if ii == j as int {
                                assert(rows_view(aug@)[ii] == row_view(newrow@));
                            } else {
                                assert(aug@[ii] == aug@[ii]);
                                assert(pre2[ii] == rows_view(aug@)[ii]);
                            }
                        }
                        assert(rows_view(aug@)[j as int] == crate::specs::row_sub_scaled(
                            normed[j as int],
                            normed[i as int],
                            normed[j as int][i as int],
                        ));
                    }
                }
                j = j + 1;
            }
            proof {
                assert(rows_view(aug@) =~= crate::specs::eliminate_others(normed, i as int));
                assert(crate::specs::inv_elim(cur, n as int, i as int)
                    == crate::specs::inv_elim(rows_view(aug@), n as int, i as int + 1));
            }
            i = i + 1;
        }
        // Extract the right block as the candidate inverse.
        let ghost fin = rows_view(aug@);
        proof {
            assert(crate::specs::invert_result(matrix@) == Some(
                crate::specs::right_block(fin, n as int),
            ));
        }
        let mut out: Vec<Vec<Scalar>> = Vec::new();
        let mut i: usize = 0;
        while i < n
            invariant
                i <= n,
                w == n + n,
                aug@.len() == n,
                out@.len() == i,
                fin == rows_view(aug@),
                forall|ii: int|
                    0 <= ii < n ==> (#[trigger] rows_view(aug@)[ii]).len() == n + n && row_wf(
                        rows_view(aug@)[ii],
                    ),
                forall|ii: int|
                    0 <= ii < i ==> (#[trigger] rows_view(out@)[ii]).len() == n && row_wf(
                        rows_view(out@)[ii],
                    ) && rows_view(out@)[ii] == crate::specs::right_block(fin, n as int)[ii],
            decreases n - i,
        {
            let mut row: Vec<Scalar> = Vec::new();
            let mut j: usize = n;
            while j < w
                invariant
                    i < n,
                    n <= j <= w,
                    w == n + n,
                    row@.len() == j - n,
                    forall|jj: int|
                        0 <= jj < j - n ==> rat_wf((#[trigger] row@[jj])@) && row@[jj]@ == fin[
                            i as int
                        ][n + jj],
                decreases w - j,
            {
                proof {
                    assert(rat_wf(rows_view(aug@)[i as int][j as int]));
                }
                row.push(aug[i][j].duplicate());
                j = j + 1;
            }
            let ghost pre = out@;
            out.push(row);
            proof {
                assert(row_view(row@) =~= crate::specs::right_block(fin, n as int)[i as int]);
                assert forall|ii: int| 0 <= ii < out@.len() implies (
                #[trigger] rows_view(out@)[ii]).len() == n && row_wf(rows_view(out@)[ii])
                    && rows_view(out@)[ii] == crate::specs::right_block(fin, n as int)[ii] by {
                    if ii < pre.len() {
                        assert(out@[ii] == pre[ii]);
                        assert(rows_view(pre)[ii] == rows_view(out@)[ii]);
                    } else {
                        assert(rows_view(out@)[ii] == row_view(out@[ii]@));
                    }
                }
            }
            i = i + 1;
        }
        let inv = Matrix::from_vec(out);
        proof {
            assert(mat_wf(inv@));
            assert(inv@ =~= crate::specs::right_block(fin, n as int));
            assert(Some(inv@) == crate::specs::invert_result(matrix@));
        }
        // Check the candidate: its products with the input, on both sides,
        // must be exactly the identity; otherwise the matrix is singular.
        let prod = match Self::multiply(&inv, &matrix) {
            Ok(p) => p,
            Err(_) => {
                proof {
                    assert(false);
                }
                return Err("Matrix is singular and cannot be inverted.".to_string());
            },
        };
        let eye = Self::identity(n);
        if !(prod == eye) {
            proof {
                assert(!crate::specs::invert_ok(matrix@));
            }
            return Err("Matrix is singular and cannot be inverted.".to_string());
        }
        let prod2 = match Self::multiply(&matrix, &inv) {
            Ok(p) => p,
            Err(_) => {
                proof {
                    assert(false);
                }
                return Err("Matrix is singular and cannot be inverted.".to_string());
            },
        };
        if !(prod2 == eye) {
            proof {
                assert(!crate::specs::invert_ok(matrix@));
            }
            return Err("Matrix is singular and cannot be inverted.".to_string());
        }
        proof {
            assert(mat_equiv(spec_mmul(inv@, matrix@), crate::specs::spec_identity(n as int)));
            assert(mat_equiv(spec_mmul(matrix@, inv@), crate::specs::spec_identity(n as int)));
            assert(crate::specs::invert_ok(matrix@));
        }
        Ok(inv)
    }

    /// The transpose of the matrix; see `Matrix::transpose`.
    pub fn transpose(m: &Matrix) -> (r: Matrix)
        requires
            mat_wf(m@),
        ensures
            r@ == spec_transpose(m@),
            mat_wf(r@),
    {
        m.transpose()
    }

    /// The determinant of the matrix; see `Matrix::determinant`.
    pub fn determinant(m: &Matrix) -> (r: Option<Scalar>)
        requires
            mat_wf(m@),
        ensures
            r is Some <==> m@.len() == spec_cols(m@),
            r is Some ==> r->0@ == spec_det(m@) && rat_wf(r->0@),
    {
        m.determinant()
    }
}

} // verus!
