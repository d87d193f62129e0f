//! Proof support for the elimination algorithms: facts about dot products
//! and about rows under elementary operations.

use vstd::prelude::*;

use crate::rat::{
    lemma_add_congruence, lemma_add_wf, rat_add, rat_eqv, rat_mul, rat_wf, rat_zero, Rat,
};
use crate::specs::{dot_prefix, row_wf};

verus! {

/// A prefix sum of products of well-formed entries is well formed.
pub proof fn lemma_dot_prefix_wf(u: Seq<Rat>, w: Seq<Rat>, k: int)
    requires
        row_wf(u),
        row_wf(w),
        k <= u.len(),
        k <= w.len(),
    ensures
        rat_wf(dot_prefix(u, w, k)),
    decreases k,
{
    if k <= 0 {
    } else {
        lemma_dot_prefix_wf(u, w, k - 1);
        lemma_add_wf(u[k - 1], w[k - 1]);
        lemma_add_wf(dot_prefix(u, w, k - 1), rat_mul(u[k - 1], w[k - 1]));
    }
}

/// The sum of the first `k` values of `f`, folded from the left starting
/// at zero.
pub open spec fn rsum(f: spec_fn(int) -> Rat, k: int) -> Rat
    decreases k,
{
    if k <= 0 {
        rat_zero()
    } else {
        rat_add(rsum(f, k - 1), f(k - 1))
    }
}

/// Sums of pointwise equal terms are equal.
pub proof fn lemma_rsum_congruence(f: spec_fn(int) -> Rat, g: spec_fn(int) -> Rat, k: int)
    requires
        forall|j: int| 0 <= j < k ==> #[trigger] f(j) == g(j),
    ensures
        rsum(f, k) == rsum(g, k),
    decreases k,
{
    if k > 0 {
        lemma_rsum_congruence(f, g, k - 1);
    }
}

/// A sum of well-formed terms is well formed.
pub proof fn lemma_rsum_wf(f: spec_fn(int) -> Rat, k: int)
    requires
        forall|j: int| 0 <= j < k ==> rat_wf(#[trigger] f(j)),
    ensures
        rat_wf(rsum(f, k)),
    decreases k,
{
    if k > 0 {
        lemma_rsum_wf(f, k - 1);
        lemma_add_wf(rsum(f, k - 1), f(k - 1));
    }
}

/// Sums of pointwise equivalent, well-formed terms are equivalent.
pub proof fn lemma_rsum_eqv(f: spec_fn(int) -> Rat, g: spec_fn(int) -> Rat, k: int)
    requires
        forall|j: int| 0 <= j < k ==> rat_wf(#[trigger] f(j)),
        forall|j: int| 0 <= j < k ==> rat_wf(#[trigger] g(j)),
        forall|j: int| 0 <= j < k ==> rat_eqv(#[trigger] f(j), g(j)),
    ensures
        rat_eqv(rsum(f, k), rsum(g, k)),
    decreases k,
{
    if k <= 0 {
    } else {
        lemma_rsum_eqv(f, g, k - 1);
        lemma_rsum_wf(f, k - 1);
        lemma_rsum_wf(g, k - 1);
        lemma_add_congruence(rsum(f, k - 1), rsum(g, k - 1), f(k - 1), g(k - 1));
    }
}

/// A sum of zero terms is the zero rational itself.
pub proof fn lemma_rsum_zero(f: spec_fn(int) -> Rat, k: int)
    requires
        forall|j: int| 0 <= j < k ==> #[trigger] f(j) == rat_zero(),
    ensures
        rsum(f, k) == rat_zero(),
    decreases k,
{
    if k > 0 {
        lemma_rsum_zero(f, k - 1);
    }
}

/// A sum of pointwise sums is the sum of the two sums, on the nose.
pub proof fn lemma_rsum_add(
    f: spec_fn(int) -> Rat,
    g: spec_fn(int) -> Rat,
    h: spec_fn(int) -> Rat,
    k: int,
)
    requires
        forall|j: int| 0 <= j < k ==> #[trigger] h(j) == rat_add(f(j), g(j)),
    ensures
        rsum(h, k) == rat_add(rsum(f, k), rsum(g, k)),
    decreases k,
{
    if k <= 0 {
    } else {
        lemma_rsum_add(f, g, h, k - 1);
        crate::rat::lemma_add_rearrange(rsum(f, k - 1), rsum(g, k - 1), f(k - 1), g(k - 1));
    }
}

/// A common right factor may be pulled out of a sum, up to equivalence.
pub proof fn lemma_rsum_mul_right(f: spec_fn(int) -> Rat, z: Rat, k: int)
    requires
        rat_wf(z),
        forall|j: int| 0 <= j < k ==> rat_wf(#[trigger] f(j)),
    ensures
        rat_eqv(rat_mul(rsum(f, k), z), rsum(|j: int| rat_mul(f(j), z), k)),
    decreases k,
{
    let g = |j: int| rat_mul(f(j), z);
    if k <= 0 {
        assert(rat_eqv(rat_mul(rat_zero(), z), rat_zero()));
    } else {
        lemma_rsum_mul_right(f, z, k - 1);
        lemma_rsum_wf(f, k - 1);
        crate::rat::lemma_add_distrib_right(rsum(f, k - 1), f(k - 1), z);
        lemma_add_wf(rsum(f, k - 1), f(k - 1));
        lemma_add_wf(rsum(f, k - 1), z);
        lemma_add_wf(f(k - 1), z);
        assert forall|j: int| 0 <= j < k implies rat_wf(#[trigger] g(j)) by {
            lemma_add_wf(f(j), z);
        }
        lemma_rsum_wf(g, k - 1);
        lemma_add_congruence(
            rat_mul(rsum(f, k - 1), z),
            rsum(g, k - 1),
            rat_mul(f(k - 1), z),
            rat_mul(f(k - 1), z),
        );
        lemma_add_wf(rat_mul(rsum(f, k - 1), z), rat_mul(f(k - 1), z));
        lemma_add_wf(rsum(g, k - 1), g(k - 1));
        lemma_rsum_wf(f, k);
        lemma_rsum_wf(g, k);
        lemma_add_wf(rsum(f, k), z);
        crate::rat::lemma_eqv_trans(
            rat_mul(rsum(f, k), z),
            rat_add(rat_mul(rsum(f, k - 1), z), rat_mul(f(k - 1), z)),
            rsum(g, k),
        );
    }
}

/// The order of a double summation may be exchanged, up to equivalence.
pub proof fn lemma_rsum_swap(f2: spec_fn(int, int) -> Rat, kk: int, jj: int)
    requires
        forall|k: int, j: int| 0 <= k < kk && 0 <= j < jj ==> rat_wf(#[trigger] f2(k, j)),
    ensures
        rat_eqv(
            rsum(|k: int| rsum(|j: int| f2(k, j), jj), kk),
            rsum(|j: int| rsum(|k: int| f2(k, j), kk), jj),
        ),
    decreases kk,
{
    let left = |k: int| rsum(|j: int| f2(k, j), jj);
    let right = |j: int| rsum(|k: int| f2(k, j), kk);
    if kk <= 0 {
        assert forall|j: int| 0 <= j < jj implies #[trigger] right(j) == rat_zero() by {}
        lemma_rsum_zero(right, jj);
    } else {
        let rightp = |j: int| rsum(|k: int| f2(k, j), kk - 1);
        let last = |j: int| f2(kk - 1, j);
        lemma_rsum_swap(f2, kk - 1, jj);
        assert forall|j: int| 0 <= j < jj implies #[trigger] right(j) == rat_add(
            rightp(j),
            last(j),
        ) by {}
        lemma_rsum_add(rightp, last, right, jj);
        assert forall|j: int| 0 <= j < jj implies rat_wf(#[trigger] rightp(j)) by {
            let col = |k2: int| f2(k2, j);
            assert forall|k2: int| 0 <= k2 < kk - 1 implies rat_wf(#[trigger] col(k2)) by {}
            lemma_rsum_wf(col, kk - 1);
        }
        assert forall|k: int| 0 <= k < kk implies rat_wf(#[trigger] left(k)) by {
            let rowf = |j2: int| f2(k, j2);
            assert forall|j2: int| 0 <= j2 < jj implies rat_wf(#[trigger] rowf(j2)) by {}
            lemma_rsum_wf(rowf, jj);
        }
        lemma_rsum_wf(left, kk - 1);
        lemma_rsum_wf(rightp, jj);
        assert forall|j: int| 0 <= j < jj implies rat_wf(#[trigger] last(j)) by {}
        lemma_rsum_wf(last, jj);
        lemma_add_congruence(
            rsum(left, kk - 1),
            rsum(rightp, jj),
            left(kk - 1),
            rsum(last, jj),
        );
        assert(left(kk - 1) == rsum(last, jj)) by {
            lemma_rsum_congruence(|j: int| f2(kk - 1, j), last, jj);
        }
        lemma_add_wf(rsum(left, kk - 1), left(kk - 1));
        lemma_add_wf(rsum(rightp, jj), rsum(last, jj));
        crate::rat::lemma_eqv_trans(
            rsum(left, kk),
            rat_add(rsum(rightp, jj), rsum(last, jj)),
            rsum(right, jj),
        );
    }
}

/// A prefix dot product written as a generic sum.
pub proof fn lemma_dot_prefix_as_rsum(u: Seq<Rat>, w: Seq<Rat>, f: spec_fn(int) -> Rat, k: int)
    requires
        forall|j: int| 0 <= j < k ==> #[trigger] f(j) == rat_mul(u[j], w[j]),
    ensures
        dot_prefix(u, w, k) == rsum(f, k),
    decreases k,
{
    if k > 0 {
        lemma_dot_prefix_as_rsum(u, w, f, k - 1);
    }
}

/// The forward pass keeps the number of rows.
pub proof fn lemma_fwd_go_len(v: Seq<Seq<Rat>>, i: int)
    ensures
        crate::specs::fwd_go(v, i).len() == v.len(),
    decreases v.len() - i,
{
    if i < 0 || i >= v.len() {
    } else {
        lemma_fwd_go_len(crate::specs::ref_step(v, i), i + 1);
    }
}


} // verus!
