//! The linear-system solver: Gaussian elimination with partial pivoting
//! and back-substitution over an augmented matrix. The contract pins the
//! call to a ghost mirror of the same elimination, so success is promised
//! on exactly the systems the algorithm solves, and a returned solution
//! satisfies every equation exactly.

use vstd::prelude::*;

use crate::matrix::Matrix;
use crate::matrix_utilities::{dup_row, row_sub_scaled_exec};
use crate::rat::{rat_eqv, rat_wf, Rat};
use crate::scalar::Scalar;
use crate::specs::{dot_prefix, mat_wf, row_view, row_wf, rows_view, spec_cols};

verus! {

/// A linear system: a square coefficient matrix, the variables, and the
/// constants on the right-hand side.
pub struct System {
    /// The n-by-n coefficient matrix.
    pub coefficients: Matrix,
    /// The solved variable values, if the caller stores them.
    pub variables: Vec<Scalar>,
    /// The right-hand-side constants, one per equation.
    pub constants: Vec<Scalar>,
}

impl System {
    /// Solves the system by Gaussian elimination with partial pivoting and
    /// back-substitution. Succeeds on exactly the well-shaped systems the
    /// pivoted elimination solves (`solve_ok`): a zero pivot surviving
    /// pivoting (a singular system) fails the call. A returned vector
    /// solves every equation of the system exactly.
    #[verifier::loop_isolation(false)]
    pub fn gaussian_elimination(system: &System) -> (r: Result<Vec<Scalar>, String>)
        requires
            mat_wf(system.coefficients@),
            row_wf(row_view(system.constants@)),
        ensures
            r is Ok <==> system.coefficients@.len() == system.constants@.len() && spec_cols(
                system.coefficients@,
            ) == system.coefficients@.len() && crate::specs::solve_ok(
                system.coefficients@,
                row_view(system.constants@),
            ),
            r is Ok ==> Some(row_view(r->Ok_0@)) == crate::specs::solve_result(
                system.coefficients@,
                row_view(system.constants@),
            ),
            system.coefficients@.len() != system.constants@.len() || spec_cols(
                system.coefficients@,
            ) != system.coefficients@.len() ==> r is Err,
            r is Ok ==> r->Ok_0@.len() == system.coefficients@.len() && row_wf(
                row_view(r->Ok_0@),
            ) && forall|q: int|
                0 <= q < system.coefficients@.len() ==> rat_eqv(
                    dot_prefix(
                        #[trigger] system.coefficients@[q],
                        row_view(r->Ok_0@),
                        system.coefficients@.len() as int,
                    ),
                    row_view(system.constants@)[q],
                ),
            system.coefficients@.len() != system.constants@.len() || spec_cols(
                system.coefficients@,
            ) != system.coefficients@.len() ==> r->Err_0@
                == "The number of rows in this coefficient matrix must equal the number of rows in the constants matrix, and the coefficient matrix must be square."@,
            r is Err && system.coefficients@.len() == system.constants@.len() && spec_cols(
                system.coefficients@,
            ) == system.coefficients@.len() ==> r->Err_0@
                == "Encountered a zero pivot while solving the system."@,
    {
        let a = &system.coefficients;
        let n = a.rows();
        if n != system.constants.len() || a.cols() != n {
            return Err(
                "The number of rows in this coefficient matrix must equal the number of rows in the constants matrix, and the coefficient matrix must be square.".to_string(),
            );
        }
        // Build the augmented matrix [A | b].
        let ghost bv = row_view(system.constants@);
        let mut aug: Vec<Vec<Scalar>> = Vec::new();
        let mut i: usize = 0;
        while i < n
            invariant
                i <= n,
                aug@.len() == i,
                forall|ii: int|
                    0 <= ii < i ==> (#[trigger] rows_view(aug@)[ii]).len() == n + 1
                        && row_wf(rows_view(aug@)[ii]) && rows_view(aug@)[ii]
                        == crate::specs::spec_augment(a@, bv)[ii],
            decreases n - i,
        {
            let mut row: Vec<Scalar> = Vec::new();
            let mut j: usize = 0;
            while j < n
                invariant
                    i < n,
                    j <= n,
                    row@.len() == j,
                    forall|jj: int|
                        0 <= jj < j ==> (#[trigger] row@[jj])@ == a@[i as int][jj] && rat_wf(
                            row@[jj]@,
                        ),
                decreases n - j,
            {
                row.push(a.entry(i, j).duplicate());
                j = j + 1;
            }
            proof {
                assert(rat_wf(row_view(system.constants@)[i as int]));
            }
            row.push(system.constants[i].duplicate());
            let ghost pre = aug@;
            aug.push(row);
            proof {
                assert(row_view(row@) =~= a@[i as int].push(bv[i as int]));
                assert forall|ii: int| 0 <= ii < aug@.len() implies (
                #[trigger] rows_view(aug@)[ii]).len() == n + 1 && row_wf(
                    rows_view(aug@)[ii],
                ) && rows_view(aug@)[ii] == crate::specs::spec_augment(a@, bv)[ii] by {
                    if ii < pre.len() {
                        assert(aug@[ii] == pre[ii]);
                        assert(rows_view(pre)[ii] == rows_view(aug@)[ii]);
                    } else {
                        assert(rows_view(aug@)[ii] == row_view(aug@[ii]@));
                    }
                }
            }
            i = i + 1;
        }
        let ghost aug0 = crate::specs::spec_augment(a@, bv);
        proof {
            assert(rows_view(aug@) =~= aug0);
        }
        // Forward elimination with partial pivoting.
        let mut i: usize = 0;
        while i < n
            invariant
                i <= n,
                aug@.len() == n,
                forall|ii: int|
                    0 <= ii < n ==> (#[trigger] rows_view(aug@)[ii]).len() == n + 1
                        && row_wf(rows_view(aug@)[ii]),
                forall|ii: int|
                    0 <= ii < i ==> (#[trigger] rows_view(aug@)[ii])[ii].n != 0,
                crate::specs::solve_fwd(aug0, n as int, 0) == crate::specs::solve_fwd(
                    rows_view(aug@),
                    n as int,
                    i as int,
                ),
            decreases n - i,
        {
            let ghost start = rows_view(aug@);
            // Scan for the row with the largest-magnitude entry in column i.
            let mut maxr: usize = i;
            let mut k: usize = i + 1;
            while k < n
                invariant
                    i <= maxr < n,
                    i < k <= n,
                    maxr == crate::specs::pick_pivot(start, i as int, i as int, k as int),
                decreases n - k,
            {
                proof {
                    assert(rat_wf(rows_view(aug@)[maxr as int][i as int]));
                    assert(rat_wf(rows_view(aug@)[k as int][i as int]));
                }
                if aug[maxr][i].abs_lt(&aug[k][i]) {
                    maxr = k;
                }
                k = k + 1;
            }
            if maxr != i {
                let ghost pre = rows_view(aug@);
                let ri = dup_row(&aug[i]);
                let rk = dup_row(&aug[maxr]);
                aug.set(i, rk);
                aug.set(maxr, ri);
                proof {
                    assert forall|ii: int| 0 <= ii < n implies (
                    #[trigger] rows_view(aug@)[ii]).len() == n + 1 && row_wf(
                        rows_view(aug@)[ii],
                    ) by {
                        assert(rows_view(aug@)[ii] == if ii == i as int {
                            pre[maxr as int]
                        } else if ii == maxr as int {
                            pre[i as int]
                        } else {
                            pre[ii]
                        });
                    }
                    assert forall|ii: int| 0 <= ii < i implies (
                    #[trigger] rows_view(aug@)[ii])[ii].n != 0 by {
                        assert(rows_view(aug@)[ii] == pre[ii]);
                    }
                    assert(rows_view(aug@) =~= crate::specs::swap_rows(
                        start,
                        i as int,
                        maxr as int,
                    ));
                }
            }
            proof {
                assert(maxr == crate::specs::pick_pivot(start, i as int, i as int, n as int));
                assert(rows_view(aug@) == if maxr as int == i as int {
                    start
                } else {
                    crate::specs::swap_rows(start, i as int, maxr as int)
                });
                assert(rat_wf(rows_view(aug@)[i as int][i as int]));
            }
            if aug[i][i].is_zero() {
                proof {
                    assert(crate::specs::solve_fwd(start, n as int, i as int) is None);
                    assert(crate::specs::solve_result(a@, bv) is None);
                }
                return Err("Encountered a zero pivot while solving the system.".to_string());
            }
            let pivot = aug[i][i].duplicate();
            let pivrow = dup_row(&aug[i]);
            let ghost mid = rows_view(aug@);
            let mut k: usize = i + 1;
            while k < n
                invariant
                    i < n,
                    i + 1 <= k <= n,
                    aug@.len() == n,
                    pivot@ == mid[i as int][i as int],
                    pivot@.n != 0,
                    rat_wf(pivot@),
                    row_view(pivrow@) == mid[i as int],
                    forall|ii: int|
                        0 <= ii < n ==> (#[trigger] rows_view(aug@)[ii]).len() == n + 1
                            && row_wf(rows_view(aug@)[ii]),
                    forall|ii: int|
                        0 <= ii < n && !(i < ii < k) ==> rows_view(aug@)[ii] == mid[ii],
                    forall|ii: int|
                        i < ii < k ==> rows_view(aug@)[ii] == crate::specs::row_sub_scaled(
                            mid[ii],
                            mid[i as int],
                            crate::rat::rat_div(mid[ii][i as int], mid[i as int][i as int]),
                        ),
                    forall|ii: int|
                        0 <= ii < i ==> (#[trigger] rows_view(aug@)[ii])[ii].n != 0,
                decreases n - k,
            {
                let ghost prevec = aug@;
                let ghost pre = rows_view(aug@);
                proof {
                    assert(pre[k as int] == row_view(prevec[k as int]@));
                    assert(rat_wf(pre[k as int][i as int]));
                    assert(pivrow@.len() == n + 1);
                }
                let f = aug[k][i].div(&pivot);
                let newrow = row_sub_scaled_exec(&aug[k], &pivrow, &f);
                aug.set(k, newrow);
                proof {
                    assert(aug@ == prevec.update(k as int, newrow));
                    assert forall|ii: int| 0 <= ii < n implies (
                    #[trigger] rows_view(aug@)[ii]).len() == n + 1 && row_wf(
                        rows_view(aug@)[ii],
                    ) && (ii != k as int ==> rows_view(aug@)[ii] == pre[ii]) by {
                        if ii == k as int {
                            assert(aug@[ii] == newrow);
                            assert(rows_view(aug@)[ii] == row_view(newrow@));
                            assert(row_view(newrow@).len() == n + 1);
                        } else {
                            assert(aug@[ii] == prevec[ii]);
                            assert(rows_view(aug@)[ii] == row_view(prevec[ii]@));
                            assert(pre[ii] == row_view(prevec[ii]@));
                        }
                    }
                    assert(rows_view(aug@)[k as int] == crate::specs::row_sub_scaled(
                        mid[k as int],
                        mid[i as int],
                        crate::rat::rat_div(mid[k as int][i as int], mid[i as int][i as int]),
                    ));
                }
                k = k + 1;
            }
            proof {
                assert(rows_view(aug@) =~= crate::specs::elim_div_below(mid, i as int));
                assert(crate::specs::solve_fwd(start, n as int, i as int)
                    == crate::specs::solve_fwd(rows_view(aug@), n as int, i as int + 1));
            }
            i = i + 1;
        }
        let ghost fin = rows_view(aug@);
        proof {
            assert(crate::specs::solve_fwd(aug0, n as int, 0) == Some(fin));
        }
        // Back-substitution, from the last row upward.
        let mut xs: Vec<Scalar> = Vec::new();
        let mut i: usize = 0;
        while i < n
            invariant
                i <= n,
                xs@.len() == i,
                forall|ii: int|
                    0 <= ii < i ==> rat_wf((#[trigger] xs@[ii])@) && xs@[ii]@
                        == crate::rat::rat_zero(),
            decreases n - i,
        {
            xs.push(Scalar::zero());
            i = i + 1;
        }
        proof {
            assert(row_view(xs@) =~= crate::specs::zero_row(n as int));
        }
        let mut k: usize = n;
        while k > 0
            invariant
                k <= n,
                xs@.len() == n,
                aug@.len() == n,
                fin == rows_view(aug@),
                forall|ii: int|
                    0 <= ii < n ==> (#[trigger] rows_view(aug@)[ii]).len() == n + 1
                        && row_wf(rows_view(aug@)[ii]),
                forall|ii: int|
                    0 <= ii < n ==> (#[trigger] rows_view(aug@)[ii])[ii].n != 0,
                forall|ii: int| 0 <= ii < n ==> rat_wf((#[trigger] xs@[ii])@),
                crate::specs::back_solve(fin, n as int, n as int, crate::specs::zero_row(n as int))
                    == crate::specs::back_solve(fin, n as int, k as int, row_view(xs@)),
            decreases k,
        {
            k = k - 1;
            let ghost xpre = row_view(xs@);
            proof {
                assert(rat_wf(rows_view(aug@)[k as int][n as int]));
                assert(fin[k as int] == row_view(aug@[k as int]@));
            }
            let mut sum = aug[k][n].duplicate();
            let mut j: usize = k + 1;
            while j < n
                invariant
                    k < n,
                    k + 1 <= j <= n,
                    rat_wf(sum@),
                    xs@.len() == n,
                    xpre == row_view(xs@),
                    forall|ii: int| 0 <= ii < n ==> rat_wf((#[trigger] xs@[ii])@),
                    sum@ == crate::specs::back_acc(fin[k as int], xpre, n as int, k as int, j as int),
                decreases n - j,
            {
                proof {
                    assert(rat_wf(rows_view(aug@)[k as int][j as int]));
                    assert(xs@[j as int]@ == xpre[j as int]);
                }
                sum = sum.sub(&aug[k][j].mul(&xs[j]));
                j = j + 1;
            }
            let piv = aug[k][k].duplicate();
            let val = sum.div(&piv);
            xs.set(k, val);
            proof {
                assert(row_view(xs@) =~= crate::specs::back_set(fin, xpre, n as int, k as int));
                assert(crate::specs::back_solve(fin, n as int, k as int + 1, xpre)
                    == crate::specs::back_solve(fin, n as int, k as int, row_view(xs@)));
            }
        }
        proof {
            assert(Some(row_view(xs@)) == crate::specs::solve_result(a@, bv));
        }
        // Check the solution against the original system, equation by
        // equation; reject it if any equation is not met exactly.
        let ghost xv = row_view(xs@);
        let mut q: usize = 0;
        while q < n
            invariant
                q <= n,
                xs@.len() == n,
                xv == row_view(xs@),
                forall|ii: int| 0 <= ii < n ==> rat_wf((#[trigger] xs@[ii])@),
                forall|qq: int|
                    0 <= qq < q ==> rat_eqv(
                        dot_prefix(#[trigger] a@[qq], xv, n as int),
                        row_view(system.constants@)[qq],
                    ),
            decreases n - q,
        {
            let mut sum = Scalar::zero();
            let mut j: usize = 0;
            while j < n
                invariant
                    q < n,
                    j <= n,
                    rat_wf(sum@),
                    sum@ == dot_prefix(a@[q as int], xv, j as int),
                decreases n - j,
            {
                proof {
                    row_wf_entry(a, q, j);
                }
                sum = sum.add(&a.entry(q, j).mul(&xs[j]));
                j = j + 1;
            }
            proof {
                assert(rat_wf(row_view(system.constants@)[q as int]));
            }
            if !(sum == system.constants[q]) {
                proof {
                    assert(!rat_eqv(dot_prefix(a@[q as int], xv, n as int), bv[q as int]));
                    assert(!crate::specs::solve_ok(a@, bv));
                }
                return Err("Encountered a zero pivot while solving the system.".to_string());
            }
            q = q + 1;
        }
        proof {
            assert(crate::specs::solve_ok(a@, bv));
        }
        Ok(xs)
    }
}

/// Notes in the proof context that entry `(i, j)` of a well-formed matrix
/// is a well-formed rational.
proof fn row_wf_entry(m: &Matrix, i: usize, j: usize)
    requires
        mat_wf(m@),
        i < m@.len(),
        j < m@[i as int].len(),
    ensures
        rat_wf(m@[i as int][j as int]),
{
}

} // verus!
