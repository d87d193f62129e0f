//! The matrix entity: an immutable-shape, row-major rectangular container
//! of rational scalars, with shape derivation, sub-matrix extraction,
//! transposition and determinant evaluation as intrinsic operations.

use vstd::prelude::*;

use crate::rat::{rat_eqv, rat_wf, Rat};
use crate::scalar::Scalar;
use crate::specs::{
    mat_equiv, mat_wf, row_equiv, rows_view, seg_len, spec_cols, spec_sub_matrix, spec_transpose,
};

verus! {

/// A dense rectangular matrix of exact rational scalars, stored row by row.
/// An empty matrix has no shape: zero rows and zero columns.
#[derive(Debug)]
pub struct Matrix {
    mat: Vec<Vec<Scalar>>,
}

impl View for Matrix {
    type V = Seq<Seq<Rat>>;

    closed spec fn view(&self) -> Seq<Seq<Rat>> {
        rows_view(self.mat@)
    }
}

impl Default for Matrix {
    /// The empty matrix.
    fn default() -> (r: Matrix)
        ensures
            r@.len() == 0,
            mat_wf(r@),
    {
        Matrix { mat: Vec::new() }
    }
}

impl Matrix {
    /// Builds a matrix from its rows, which must all have the same length
    /// and hold well-formed scalars.
    pub fn from_rows(rows: Vec<Vec<Scalar>>) -> (m: Matrix)
        requires
            mat_wf(rows_view(rows@)),
        ensures
            m@ == rows_view(rows@),
            mat_wf(m@),
    {
        Matrix { mat: rows }
    }

    /// Wraps a row vector without any shape demand; crate-internal.
    pub(crate) fn from_vec(rows: Vec<Vec<Scalar>>) -> (m: Matrix)
        ensures
            m@ == rows_view(rows@),
    {
        Matrix { mat: rows }
    }

    /// Surrenders the rows; crate-internal.
    pub(crate) fn into_vec(self) -> (r: Vec<Vec<Scalar>>)
        ensures
            rows_view(r@) == self@,
    {
        self.mat
    }

    /// The number of rows.
    pub fn rows(&self) -> (r: usize)
        ensures
            r == self@.len(),
    {
        self.mat.len()
    }

    /// The number of columns, read off the first row.
    pub fn cols(&self) -> (r: usize)
        ensures
            r == spec_cols(self@),
    {
        if self.mat.len() > 0 {
            self.mat[0].len()
        } else {
            0
        }
    }

    /// The entry in row `i`, column `j`.
    pub fn entry(&self, i: usize, j: usize) -> (r: &Scalar)
        requires
            i < self@.len(),
            j < self@[i as int].len(),
        ensures
            r@ == self@[i as int][j as int],
    {
        &self.mat[i][j]
    }

    /// A borrow of row `i`; crate-internal.
    pub(crate) fn row(&self, i: usize) -> (r: &Vec<Scalar>)
        requires
            i < self@.len(),
        ensures
            crate::specs::row_view(r@) == self@[i as int],
    {
        &self.mat[i]
    }

    /// The shape `(rows, columns)`, recomputed from the stored rows.
    pub fn shape(&self) -> (r: (usize, usize))
        ensures
            r.0 == self@.len(),
            r.1 == spec_cols(self@),
    {
        (self.rows(), self.cols())
    }

    /// The transpose: rows and columns swapped, so the result has entry
    /// `(j, i)` where this matrix has entry `(i, j)`.
    pub fn transpose(&self) -> (m: Matrix)
        requires
            mat_wf(self@),
        ensures
            m@ == spec_transpose(self@),
            mat_wf(m@),
    {
        let r = self.rows();
        let c = self.cols();
        let mut out: Vec<Vec<Scalar>> = Vec::new();
        let mut j: usize = 0;
        while j < c
            invariant
                mat_wf(self@),
                r == self@.len(),
                c == spec_cols(self@),
                j <= c,
                out@.len() == j,
                forall|jj: int|
                    0 <= jj < j ==> rows_view(out@)[jj] == spec_transpose(self@)[jj],
            decreases c - j,
        {
            let mut row: Vec<Scalar> = Vec::new();
            let mut i: usize = 0;
            while i < r
                invariant
                    mat_wf(self@),
                    r == self@.len(),
                    c == spec_cols(self@),
                    j < c,
                    i <= r,
                    row@.len() == i,
                    forall|ii: int|
                        0 <= ii < i ==> (#[trigger] row@[ii])@ == self@[ii][j as int],
                decreases r - i,
            {
                row.push(self.entry(i, j).duplicate());
                i = i + 1;
            }
            proof {
                assert(row@.map_values(|s: Scalar| s@) =~= spec_transpose(self@)[j as int]);
            }
            out.push(row);
            j = j + 1;
        }
        let m = Matrix::from_vec(out);
        proof {
            assert(m@ =~= spec_transpose(self@));
            assert forall|i: int| 0 <= i < m@.len() implies (#[trigger] m@[i]).len() == spec_cols(
                m@,
            ) && crate::specs::row_wf(m@[i]) by {
                assert(m@[i].len() == self@.len());
            }
        }
        m
    }

    /// The determinant, by cofactor expansion along the first row; `None`
    /// exactly when the matrix is not square. A matrix with no rows has
    /// determinant one (the empty product).
    #[verifier::loop_isolation(false)]
    pub fn determinant(&self) -> (r: Option<Scalar>)
        requires
            mat_wf(self@),
        ensures
            r is Some <==> self@.len() == spec_cols(self@),
            r is Some ==> r->0@ == crate::specs::spec_det(self@) && rat_wf(r->0@),
        decreases self@.len(),
    {
        let n = self.rows();
        if n != self.cols() {
            return None;
        }
        if n == 0 {
            return Some(Scalar::one());
        }
        if n == 1 {
            return Some(self.entry(0, 0).duplicate());
        }
        let mut sum = Scalar::zero();
        let mut c: usize = 0;
        while c < n
            invariant
                sum@ == crate::specs::det_expand(self@, c as int),
                rat_wf(sum@),
                c <= n,
            decreases n - c,
        {
            let mut rows: Vec<Vec<Scalar>> = Vec::new();
            let mut i: usize = 1;
            while i < n
                invariant
                    c < n,
                    1 <= i <= n,
                    rows@.len() == i - 1,
                    forall|ii: int|
                        0 <= ii < i - 1 ==> rows_view(rows@)[ii] == crate::specs::spec_minor(
                            self@,
                            c as int,
                        )[ii],
                decreases n - i,
            {
                let mut row: Vec<Scalar> = Vec::new();
                let mut j: usize = 0;
                while j < n
                    invariant
                        c < n,
                        1 <= i < n,
                        j <= n,
                        row@.len() == if j <= c {
                            j as int
                        } else {
                            j - 1
                        },
                        forall|jj: int|
                            0 <= jj < row@.len() ==> (#[trigger] row@[jj])@ == (if jj < c {
                                self@[i as int][jj]
                            } else {
                                self@[i as int][jj + 1]
                            }),
                    decreases n - j,
                {
                    if j != c {
                        row.push(self.entry(i, j).duplicate());
                    }
                    j = j + 1;
                }
                proof {
                    assert(row@.map_values(|s: Scalar| s@) =~= crate::specs::spec_minor(
                        self@,
                        c as int,
                    )[i - 1]);
                }
                let ghost pre = rows@;
                rows.push(row);
                proof {
                    assert forall|ii: int| 0 <= ii < i implies rows_view(rows@)[ii]
                        == crate::specs::spec_minor(self@, c as int)[ii] by {
                        if ii < i - 1 {
                            assert(rows@[ii] == pre[ii]);
                            assert(rows_view(pre)[ii] == crate::specs::spec_minor(
                                self@,
                                c as int,
                            )[ii]);
                        } else {
                            assert(rows@[ii] == row);
                        }
                    }
                }
                i = i + 1;
            }
            let minor = Matrix::from_vec(rows);
            proof {
                assert(minor@ =~= crate::specs::spec_minor(self@, c as int));
                assert forall|ii: int| 0 <= ii < minor@.len() implies (#[trigger] minor@[ii]).len()
                    == spec_cols(minor@) && crate::specs::row_wf(minor@[ii]) by {
                    assert(minor@[ii].len() == n - 1);
                    assert forall|jj: int| 0 <= jj < minor@[ii].len() implies rat_wf(
                        #[trigger] minor@[ii][jj],
                    ) by {
                        assert(crate::specs::row_wf(self@[ii + 1]));
                    }
                }
            }
            let sub = minor.determinant();
            let d = match sub {
                Some(d) => d,
                None => {
                    proof {
                        assert(minor@.len() == spec_cols(minor@));
                        assert(false);
                    }
                    return None;
                },
            };
            let term = self.entry(0, c).mul(&d);
            if c % 2 == 0 {
                sum = sum.add(&term);
            } else {
                proof {
                    let t = term@;
                    let s = sum@;
                    assert((-t.n) * s.d == -(t.n * s.d)) by (nonlinear_arith);
                }
                sum = sum.sub(&term);
            }
            proof {
                assert(crate::specs::det_term(self@, c as int) == if (c as int) % 2 == 0 {
                    crate::rat::rat_mul(self@[0][c as int], crate::specs::spec_det(minor@))
                } else {
                    crate::rat::rat_neg(
                        crate::rat::rat_mul(self@[0][c as int], crate::specs::spec_det(minor@)),
                    )
                });
            }
            c = c + 1;
        }
        proof {
            assert(sum@ == crate::specs::spec_det(self@));
        }
        Some(sum)
    }

    /// The sub-matrix cut out by the given half-open row and column ranges.
    /// Fails exactly when a range reaches past the matrix's shape.
    #[verifier::loop_isolation(false)]
    pub fn sub_matrix(
        &self,
        row_range: core::ops::Range<usize>,
        col_range: core::ops::Range<usize>,
    ) -> (r: Result<Matrix, String>)
        requires
            mat_wf(self@),
        ensures
            r is Err <==> row_range.end > self@.len() || col_range.end > spec_cols(self@),
            r is Err ==> r->Err_0@ == "Range out of bounds!"@,
            r is Ok ==> r->Ok_0@ == spec_sub_matrix(
                self@,
                row_range.start as int,
                row_range.end as int,
                col_range.start as int,
                col_range.end as int,
            ) && mat_wf(r->Ok_0@),
    {
        if row_range.end > self.rows() || col_range.end > self.cols() {
            return Err("Range out of bounds!".to_string());
        }
        let ghost gv = spec_sub_matrix(
            self@,
            row_range.start as int,
            row_range.end as int,
            col_range.start as int,
            col_range.end as int,
        );
        let mut out: Vec<Vec<Scalar>> = Vec::new();
        let mut i: usize = row_range.start;
        while i < row_range.end
            invariant
                mat_wf(self@),
                row_range.end <= self@.len(),
                col_range.end <= spec_cols(self@),
                row_range.start <= i <= row_range.end || (i == row_range.start && row_range.start
                    > row_range.end),
                out@.len() == seg_len(row_range.start as int, i as int),
                forall|ii: int|
                    0 <= ii < out@.len() ==> rows_view(out@)[ii] == gv[ii],
            decreases row_range.end - i,
        {
            let mut row: Vec<Scalar> = Vec::new();
            let mut j: usize = col_range.start;
            while j < col_range.end
                invariant
                    mat_wf(self@),
                    row_range.end <= self@.len(),
                    col_range.end <= spec_cols(self@),
                    i < row_range.end,
                    row_range.start <= i,
                    col_range.start <= j <= col_range.end || (j == col_range.start
                        && col_range.start > col_range.end),
                    row@.len() == seg_len(col_range.start as int, j as int),
                    forall|jj: int|
                        0 <= jj < row@.len() ==> (#[trigger] row@[jj])@ == self@[i as int].index(
                            col_range.start + jj,
                        ),
                decreases col_range.end - j,
            {
                row.push(self.entry(i, j).duplicate());
                j = j + 1;
            }
            proof {
                assert(out@.len() < gv.len());
                assert(i as int == row_range.start + out@.len());
                assert(row@.map_values(|s: Scalar| s@) =~= gv[out@.len() as int]);
            }
            out.push(row);
            i = i + 1;
        }
        let m = Matrix::from_vec(out);
        proof {
            assert(m@ =~= gv);
            assert forall|ii: int| 0 <= ii < gv.len() implies (#[trigger] gv[ii]).len()
                == spec_cols(gv) && crate::specs::row_wf(gv[ii]) by {}
        }
        Ok(m)
    }
}

impl PartialEq for Matrix {
    /// Matrices are equal when they have the same shape, row by row, and
    /// corresponding entries stand for the same rational.
    fn eq(&self, other: &Matrix) -> (r: bool) {
        if self.mat.len() != other.mat.len() {
            proof {
                assert(!mat_equiv(self@, other@));
            }
            return false;
        }
        let n = self.mat.len();
        let mut i: usize = 0;
        while i < n
            invariant
                n == self@.len(),
                n == other@.len(),
                i <= n,
                forall|ii: int| 0 <= ii < i ==> row_equiv(#[trigger] self@[ii], other@[ii]),
            decreases n - i,
        {
            if self.mat[i].len() != other.mat[i].len() {
                proof {
                    assert(!row_equiv(self@[i as int], other@[i as int]));
                }
                return false;
            }
            let w = self.mat[i].len();
            let mut j: usize = 0;
            while j < w
                invariant
                    n == self@.len(),
                    n == other@.len(),
                    i < n,
                    w == self@[i as int].len(),
                    w == other@[i as int].len(),
                    j <= w,
                    forall|jj: int|
                        0 <= jj < j ==> rat_eqv(
                            #[trigger] self@[i as int][jj],
                            other@[i as int][jj],
                        ),
                decreases w - j,
            {
                if !(self.mat[i][j] == other.mat[i][j]) {
                    proof {
                        assert(!rat_eqv(self@[i as int][j as int], other@[i as int][j as int]));
                        assert(!row_equiv(self@[i as int], other@[i as int]));
                    }
                    return false;
                }
                j = j + 1;
            }
            proof {
                assert(row_equiv(self@[i as int], other@[i as int]));
            }
            i = i + 1;
        }
        true
    }
}

impl vstd::std_specs::cmp::PartialEqSpecImpl for Matrix {
    open spec fn obeys_eq_spec() -> bool {
        true
    }

    open spec fn eq_spec(&self, other: &Matrix) -> bool {
        mat_equiv(self@, other@)
    }
}

} // verus!
