//! Ghost-level linear algebra: the mathematical meaning of a matrix as a
//! sequence of rows of rationals, and the operations the contracts speak of.

use vstd::prelude::*;

use crate::rat::{
    rat_abs, rat_add, rat_div, rat_eqv, rat_lt, rat_mul, rat_neg, rat_one, rat_sub, rat_wf,
    rat_zero, Rat,
};
use crate::scalar::Scalar;

verus! {

/// The number of columns: the first row's length, zero for an empty matrix.
pub open spec fn spec_cols(v: Seq<Seq<Rat>>) -> int {
    if v.len() == 0 {
        0
    } else {
        v[0].len() as int
    }
}

/// Every entry of the row is a well-formed rational.
pub open spec fn row_wf(r: Seq<Rat>) -> bool {
    forall|j: int| 0 <= j < r.len() ==> rat_wf(#[trigger] r[j])
}

/// The matrix is rectangular and every entry is well formed.
pub open spec fn mat_wf(v: Seq<Seq<Rat>>) -> bool {
    forall|i: int|
        0 <= i < v.len() ==> (#[trigger] v[i]).len() == spec_cols(v) && row_wf(v[i])
}

/// Rows of equal length holding pairwise equivalent rationals.
pub open spec fn row_equiv(r: Seq<Rat>, s: Seq<Rat>) -> bool {
    r.len() == s.len() && forall|j: int| 0 <= j < r.len() ==> rat_eqv(#[trigger] r[j], s[j])
}

/// Matrices of equal shape holding pairwise equivalent rationals.
pub open spec fn mat_equiv(a: Seq<Seq<Rat>>, b: Seq<Seq<Rat>>) -> bool {
    a.len() == b.len() && forall|i: int| 0 <= i < a.len() ==> row_equiv(#[trigger] a[i], b[i])
}

/// The ghost row held by a vector of scalars.
pub open spec fn row_view(r: Seq<Scalar>) -> Seq<Rat> {
    r.map_values(|s: Scalar| s@)
}

/// The ghost matrix held by a vector of rows of scalars.
pub open spec fn rows_view(rs: Seq<Vec<Scalar>>) -> Seq<Seq<Rat>> {
    rs.map_values(|row: Vec<Scalar>| row_view(row@))
}

/// The transpose: entry `(i, j)` becomes entry `(j, i)`.
pub open spec fn spec_transpose(v: Seq<Seq<Rat>>) -> Seq<Seq<Rat>> {
    Seq::new(spec_cols(v) as nat, |j: int| Seq::new(v.len(), |i: int| v[i][j]))
}

/// The identity matrix of size `n`.
pub open spec fn spec_identity(n: int) -> Seq<Seq<Rat>> {
    Seq::new(n as nat, |i: int| Seq::new(n as nat, |j: int| if i == j {
        rat_one()
    } else {
        rat_zero()
    }))
}

/// Elementwise sum of two equal-shape matrices.
pub open spec fn spec_madd(a: Seq<Seq<Rat>>, b: Seq<Seq<Rat>>) -> Seq<Seq<Rat>> {
    Seq::new(a.len(), |i: int| Seq::new(a[i].len(), |j: int| rat_add(a[i][j], b[i][j])))
}

/// Elementwise difference of two equal-shape matrices.
pub open spec fn spec_msub(a: Seq<Seq<Rat>>, b: Seq<Seq<Rat>>) -> Seq<Seq<Rat>> {
    Seq::new(a.len(), |i: int| Seq::new(a[i].len(), |j: int| rat_sub(a[i][j], b[i][j])))
}

/// Every entry multiplied by the constant `k`.
pub open spec fn spec_mscale(a: Seq<Seq<Rat>>, k: Rat) -> Seq<Seq<Rat>> {
    Seq::new(a.len(), |i: int| Seq::new(a[i].len(), |j: int| rat_mul(a[i][j], k)))
}

/// The sum of the first `k` products of corresponding entries, folded from
/// the left starting at zero.
pub open spec fn dot_prefix(u: Seq<Rat>, w: Seq<Rat>, k: int) -> Rat
    decreases k,
{
    if k <= 0 {
        rat_zero()
    } else {
        rat_add(dot_prefix(u, w, k - 1), rat_mul(u[k - 1], w[k - 1]))
    }
}

/// The full dot product of two equal-length rows.
pub open spec fn spec_dot(u: Seq<Rat>, w: Seq<Rat>) -> Rat {
    dot_prefix(u, w, u.len() as int)
}

/// Column `c` of a matrix.
pub open spec fn spec_col(v: Seq<Seq<Rat>>, c: int) -> Seq<Rat> {
    Seq::new(v.len(), |i: int| v[i][c])
}

/// The matrix product: entry `(r, c)` is the dot product of row `r` of `a`
/// with column `c` of `b`.
pub open spec fn spec_mmul(a: Seq<Seq<Rat>>, b: Seq<Seq<Rat>>) -> Seq<Seq<Rat>> {
    Seq::new(a.len(), |r: int| Seq::new(spec_cols(b) as nat, |c: int| spec_dot(a[r], spec_col(b, c))))
}

/// The minor of a matrix: delete row zero and column `c`.
pub open spec fn spec_minor(v: Seq<Seq<Rat>>, c: int) -> Seq<Seq<Rat>> {
    Seq::new((v.len() - 1) as nat, |i: int| Seq::new(
        (v[i + 1].len() - 1) as nat,
        |j: int| if j < c {
            v[i + 1][j]
        } else {
            v[i + 1][j + 1]
        },
    ))
}

/// The determinant by cofactor expansion along the first row. The terms are
/// summed from the left starting at zero; column `c` contributes its entry
/// times the minor's determinant, negated for odd `c`.
pub open spec fn spec_det(v: Seq<Seq<Rat>>) -> Rat
    decreases v.len(), 2int, 0int,
{
    if v.len() == 0 {
        rat_one()
    } else if v.len() == 1 {
        v[0][0]
    } else {
        det_expand(v, v.len() as int)
    }
}

/// The sum of the first `k` cofactor terms of the expansion along row zero.
pub open spec fn det_expand(v: Seq<Seq<Rat>>, k: int) -> Rat
    decreases v.len(), 1int, k,
{
    if k <= 0 || v.len() < 2 {
        rat_zero()
    } else {
        rat_add(det_expand(v, k - 1), det_term(v, k - 1))
    }
}

/// The cofactor term of column `c` in the expansion along row zero.
pub open spec fn det_term(v: Seq<Seq<Rat>>, c: int) -> Rat
    decreases v.len(), 0int, 0int,
{
    if v.len() < 2 {
        rat_zero()
    } else if c % 2 == 0 {
        rat_mul(v[0][c], spec_det(spec_minor(v, c)))
    } else {
        rat_neg(rat_mul(v[0][c], spec_det(spec_minor(v, c))))
    }
}

/// A row with every entry divided by the pivot `p`.
pub open spec fn row_div_spec(r: Seq<Rat>, p: Rat) -> Seq<Rat> {
    Seq::new(r.len(), |c: int| rat_div(r[c], p))
}

/// A row minus `f` times the pivot row `p`.
pub open spec fn row_sub_scaled(r: Seq<Rat>, p: Seq<Rat>, f: Rat) -> Seq<Rat> {
    Seq::new(r.len(), |c: int| rat_sub(r[c], rat_mul(f, p[c])))
}

/// Normalizes pivot row `i`: divides it by its diagonal entry so the pivot
/// becomes one, unless that entry is zero, in which case the row is left as
/// it stands.
pub open spec fn ref_normalize(v: Seq<Seq<Rat>>, i: int) -> Seq<Seq<Rat>> {
    if v[i][i].n == 0 {
        v
    } else {
        v.update(i, row_div_spec(v[i], v[i][i]))
    }
}

/// Subtracts from every row below `i` that row's column-`i` entry times the
/// pivot row `i`.
pub open spec fn eliminate_below(v: Seq<Seq<Rat>>, i: int) -> Seq<Seq<Rat>> {
    Seq::new(v.len(), |j: int| if j > i {
        row_sub_scaled(v[j], v[i], v[j][i])
    } else {
        v[j]
    })
}

/// Subtracts from every row above `i` that row's column-`i` entry times the
/// pivot row `i`.
pub open spec fn eliminate_above(v: Seq<Seq<Rat>>, i: int) -> Seq<Seq<Rat>> {
    Seq::new(v.len(), |j: int| if j < i {
        row_sub_scaled(v[j], v[i], v[j][i])
    } else {
        v[j]
    })
}

/// One forward-elimination step: normalize pivot row `i`, then clear the
/// column-`i` entries below it.
pub open spec fn ref_step(v: Seq<Seq<Rat>>, i: int) -> Seq<Seq<Rat>> {
    eliminate_below(ref_normalize(v, i), i)
}

/// The forward pass from pivot `i` upward through the last row.
pub open spec fn fwd_go(v: Seq<Seq<Rat>>, i: int) -> Seq<Seq<Rat>>
    decreases v.len() - i,
{
    if i < 0 || i >= v.len() {
        v
    } else {
        fwd_go(ref_step(v, i), i + 1)
    }
}

/// Row echelon form: the forward pass over every pivot row.
pub open spec fn spec_ref(v: Seq<Seq<Rat>>) -> Seq<Seq<Rat>> {
    fwd_go(v, 0)
}

/// The backward pass from pivot `i` downward through the first row.
pub open spec fn back_go(v: Seq<Seq<Rat>>, i: int) -> Seq<Seq<Rat>>
    decreases i + 1,
{
    if i < 0 {
        v
    } else {
        back_go(eliminate_above(v, i), i - 1)
    }
}

/// Reduced row echelon form: the forward pass, then the backward pass.
pub open spec fn spec_rref(v: Seq<Seq<Rat>>) -> Seq<Seq<Rat>> {
    back_go(spec_ref(v), v.len() - 1)
}

/// Every entry of the row is the rational zero.
pub open spec fn row_all_zero(r: Seq<Rat>) -> bool {
    forall|j: int| 0 <= j < r.len() ==> (#[trigger] r[j]).n == 0
}

/// The reduced system is inconsistent: some row has a zero pivot but a
/// nonzero constant in the last column.
pub open spec fn gj_no_solution(v: Seq<Seq<Rat>>) -> bool {
    exists|i: int|
        0 <= i < v.len() && (#[trigger] v[i])[i].n == 0 && v[i][spec_cols(v) - 1].n != 0
}

/// The reduced system is under-determined: some row is entirely zero.
pub open spec fn gj_underdetermined(v: Seq<Seq<Rat>>) -> bool {
    exists|i: int| 0 <= i < v.len() && row_all_zero(#[trigger] v[i])
}

/// The variable name of pivot row `i`: letters from `a` in row order.
pub open spec fn var_name(i: int) -> char {
    ((97 + i) as u8) as char
}

/// The solution set read off the first `k` rows of the reduced matrix: for
/// each row with a nonzero pivot, its variable is bound to the row's last
/// column.
pub open spec fn gj_solution(v: Seq<Seq<Rat>>, k: int) -> Seq<(char, Rat)>
    decreases k,
{
    if k <= 0 {
        Seq::empty()
    } else if v[k - 1][k - 1].n != 0 {
        gj_solution(v, k - 1).push((var_name(k - 1), v[k - 1][spec_cols(v) - 1]))
    } else {
        gj_solution(v, k - 1)
    }
}

/// Rows `i` and `p` exchanged.
pub open spec fn swap_rows(v: Seq<Seq<Rat>>, i: int, p: int) -> Seq<Seq<Rat>> {
    v.update(i, v[p]).update(p, v[i])
}

/// The row holding the largest-magnitude entry of column `c` among rows
/// `i` up to `hi`, scanning upward; on ties the earlier row wins.
pub open spec fn pick_pivot(v: Seq<Seq<Rat>>, c: int, i: int, hi: int) -> int
    decreases hi - i,
{
    if hi <= i + 1 {
        i
    } else {
        let p = pick_pivot(v, c, i, hi - 1);
        if rat_lt(rat_abs(v[p][c]), rat_abs(v[hi - 1][c])) {
            hi - 1
        } else {
            p
        }
    }
}

/// Every row below `i` cleared in column `i`: each has the multiple of
/// row `i` given by its own column-`i` entry over the pivot subtracted.
pub open spec fn elim_div_below(v: Seq<Seq<Rat>>, i: int) -> Seq<Seq<Rat>> {
    Seq::new(v.len(), |j: int| if j > i {
        row_sub_scaled(v[j], v[i], rat_div(v[j][i], v[i][i]))
    } else {
        v[j]
    })
}

/// Every row other than `i` cleared in column `i` the same way.
pub open spec fn eliminate_others(v: Seq<Seq<Rat>>, i: int) -> Seq<Seq<Rat>> {
    Seq::new(v.len(), |j: int| if j != i {
        row_sub_scaled(v[j], v[i], v[j][i])
    } else {
        v[j]
    })
}

/// A row of `n` zeros.
pub open spec fn zero_row(n: int) -> Seq<Rat> {
    Seq::new(n as nat, |i: int| rat_zero())
}

/// The coefficient matrix with the constants appended as a last column.
pub open spec fn spec_augment(a: Seq<Seq<Rat>>, b: Seq<Rat>) -> Seq<Seq<Rat>> {
    Seq::new(a.len(), |i: int| a[i].push(b[i]))
}

/// The pivoted forward pass over `n` rows from pivot `i` on: swap the
/// best pivot row into place, stop if its pivot is zero, else clear the
/// column below and move on.
pub open spec fn solve_fwd(v: Seq<Seq<Rat>>, n: int, i: int) -> Option<Seq<Seq<Rat>>>
    decreases n - i,
{
    if i < 0 || i >= n {
        Some(v)
    } else {
        let p = pick_pivot(v, i, i, n);
        let w = if p == i {
            v
        } else {
            swap_rows(v, i, p)
        };
        if w[i][i].n == 0 {
            None
        } else {
            solve_fwd(elim_div_below(w, i), n, i + 1)
        }
    }
}

/// The back-substitution accumulator for row `i`: the row's last entry
/// minus the products of its entries `i+1 .. j` with the corresponding
/// solution entries.
pub open spec fn back_acc(row: Seq<Rat>, xs: Seq<Rat>, n: int, i: int, j: int) -> Rat
    decreases j - i,
{
    if j <= i + 1 {
        row[n]
    } else {
        rat_sub(back_acc(row, xs, n, i, j - 1), rat_mul(row[j - 1], xs[j - 1]))
    }
}

/// One back-substitution assignment: solve row `i` for its variable.
pub open spec fn back_set(v: Seq<Seq<Rat>>, xs: Seq<Rat>, n: int, i: int) -> Seq<Rat> {
    xs.update(i, rat_div(back_acc(v[i], xs, n, i, n), v[i][i]))
}

/// The back-substitution pass, from row `k - 1` down to row zero.
pub open spec fn back_solve(v: Seq<Seq<Rat>>, n: int, k: int, xs: Seq<Rat>) -> Seq<Rat>
    decreases k,
{
    if k <= 0 {
        xs
    } else {
        back_solve(v, n, k - 1, back_set(v, xs, n, k - 1))
    }
}

/// The vector the solver computes for `a x = b`, when the pivoted
/// elimination finds a nonzero pivot in every column.
pub open spec fn solve_result(a: Seq<Seq<Rat>>, b: Seq<Rat>) -> Option<Seq<Rat>> {
    match solve_fwd(spec_augment(a, b), a.len() as int, 0) {
        None => None,
        Some(w) => Some(back_solve(w, a.len() as int, a.len() as int, zero_row(a.len() as int))),
    }
}

/// The solver succeeds on exactly these inputs: elimination finds every
/// pivot, and the computed vector satisfies every equation exactly.
pub open spec fn solve_ok(a: Seq<Seq<Rat>>, b: Seq<Rat>) -> bool {
    &&& solve_result(a, b) is Some
    &&& forall|q: int|
        0 <= q < a.len() ==> rat_eqv(
            dot_prefix(#[trigger] a[q], solve_result(a, b)->0, a.len() as int),
            b[q],
        )
}

/// The matrix with the identity of its own size appended on the right.
pub open spec fn spec_augment_identity(a: Seq<Seq<Rat>>) -> Seq<Seq<Rat>> {
    Seq::new(a.len(), |i: int| a[i] + spec_identity(a.len() as int)[i])
}

/// The Gauss-Jordan pass of the inversion over `n` rows from pivot `i`
/// on: swap the best pivot row into place, stop if its pivot is zero,
/// else normalize it, clear the column everywhere else, and move on.
pub open spec fn inv_elim(v: Seq<Seq<Rat>>, n: int, i: int) -> Option<Seq<Seq<Rat>>>
    decreases n - i,
{
    if i < 0 || i >= n {
        Some(v)
    } else {
        let p = pick_pivot(v, i, i, n);
        let w = if p == i {
            v
        } else {
            swap_rows(v, i, p)
        };
        if w[i][i].n == 0 {
            None
        } else {
            inv_elim(eliminate_others(w.update(i, row_div_spec(w[i], w[i][i])), i), n, i + 1)
        }
    }
}

/// The right `n`-column block of an augmented matrix.
pub open spec fn right_block(w: Seq<Seq<Rat>>, n: int) -> Seq<Seq<Rat>> {
    Seq::new(n as nat, |i: int| Seq::new(n as nat, |j: int| w[i][n + j]))
}

/// The candidate inverse: the right block left by the Gauss-Jordan pass
/// over `[a | identity]`, if every pivot was found.
pub open spec fn invert_result(a: Seq<Seq<Rat>>) -> Option<Seq<Seq<Rat>>> {
    match inv_elim(spec_augment_identity(a), a.len() as int, 0) {
        None => None,
        Some(w) => Some(right_block(w, a.len() as int)),
    }
}

/// Inversion succeeds on exactly these inputs: every pivot is found, and
/// the candidate multiplies with the input to the identity on both sides.
pub open spec fn invert_ok(a: Seq<Seq<Rat>>) -> bool {
    &&& invert_result(a) is Some
    &&& mat_equiv(spec_mmul(invert_result(a)->0, a), spec_identity(a.len() as int))
    &&& mat_equiv(spec_mmul(a, invert_result(a)->0), spec_identity(a.len() as int))
}

/// One Doolittle step: record the multipliers of column `k` in the lower
/// factor, then clear the column below the pivot in the upper factor. A
/// zero pivot stops the decomposition unless no rows remain below it.
pub open spec fn lu_go(l: Seq<Seq<Rat>>, u: Seq<Seq<Rat>>, k: int) -> Option<
    (Seq<Seq<Rat>>, Seq<Seq<Rat>>),
>
    decreases u.len() - k,
{
    if k < 0 || k >= u.len() {
        Some((l, u))
    } else if u[k][k].n == 0 {
        if k + 1 < u.len() {
            None
        } else {
            lu_go(l, u, k + 1)
        }
    } else {
        lu_go(lu_l_step(l, u, k), elim_div_below(u, k), k + 1)
    }
}

/// The lower factor after recording column `k`'s multipliers.
pub open spec fn lu_l_step(l: Seq<Seq<Rat>>, u: Seq<Seq<Rat>>, k: int) -> Seq<Seq<Rat>> {
    Seq::new(l.len(), |r: int| if r > k {
        l[r].update(k, rat_div(u[r][k], u[k][k]))
    } else {
        l[r]
    })
}

/// The LU pair the decomposition computes, if no zero pivot stops it.
pub open spec fn lu_result(a: Seq<Seq<Rat>>) -> Option<(Seq<Seq<Rat>>, Seq<Seq<Rat>>)> {
    lu_go(spec_identity(a.len() as int), a, 0)
}

/// A unit lower-triangular matrix: ones on the diagonal, zeros above it.
pub open spec fn spec_unit_lower(l: Seq<Seq<Rat>>) -> bool {
    (forall|i: int| 0 <= i < l.len() ==> rat_eqv(#[trigger] l[i][i], rat_one())) && (forall|
        i: int,
        j: int,
    |
        0 <= i < l.len() && i < j < l.len() ==> (#[trigger] l[i][j]).n == 0)
}

/// An upper-triangular matrix: zeros below the diagonal.
pub open spec fn spec_upper(u: Seq<Seq<Rat>>) -> bool {
    forall|i: int, j: int| 0 <= j < i < u.len() ==> (#[trigger] u[i][j]).n == 0
}

/// The lower factor the decomposition computes (empty if it stops).
pub open spec fn lu_lower(a: Seq<Seq<Rat>>) -> Seq<Seq<Rat>> {
    match lu_result(a) {
        Some(p) => p.0,
        None => Seq::empty(),
    }
}

/// The upper factor the decomposition computes (empty if it stops).
pub open spec fn lu_upper(a: Seq<Seq<Rat>>) -> Seq<Seq<Rat>> {
    match lu_result(a) {
        Some(p) => p.1,
        None => Seq::empty(),
    }
}

/// The decomposition succeeds on exactly these inputs: no zero pivot
/// stops it, and the pair it computes is a unit lower-triangular and an
/// upper-triangular factor whose product is the input.
pub open spec fn lu_ok(a: Seq<Seq<Rat>>) -> bool {
    &&& lu_result(a) is Some
    &&& spec_unit_lower(lu_lower(a))
    &&& spec_upper(lu_upper(a))
    &&& mat_equiv(spec_mmul(lu_lower(a), lu_upper(a)), a)
}

/// The sub-matrix cut out by the half-open row range `[r0, r1)` and column
/// range `[c0, c1)`; an inverted range contributes nothing.
pub open spec fn spec_sub_matrix(v: Seq<Seq<Rat>>, r0: int, r1: int, c0: int, c1: int) -> Seq<
    Seq<Rat>,
> {
    Seq::new(seg_len(r0, r1), |i: int| Seq::new(seg_len(c0, c1), |j: int| v[r0 + i][c0 + j]))
}

/// The length of the half-open segment `[a, b)`, zero when inverted.
pub open spec fn seg_len(a: int, b: int) -> nat {
    if a <= b {
        (b - a) as nat
    } else {
        0
    }
}

} // verus!
