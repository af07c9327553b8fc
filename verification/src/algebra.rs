//! Laws of matrix arithmetic
//!
//! What holds of every matrix: the identity matrix is neutral for the
//! product, transposing twice and negating twice change nothing, taking an
//! addend away again gives the other addend back, the trace of an identity
//! matrix counts its rows, and over a `Ring` two matrices compare equal
//! exactly where they are the same.

use crate::common::{Ring, Signed};
use crate::matrix_view::{lemma_from_fn_at, lemma_from_fn_unique, lemma_view_ext, MatrixView};
use crate::vector::seq_eq;
use vstd::prelude::*;
use vstd::std_specs::cmp::PartialEqSpec;
use vstd::std_specs::ops::{AddSpec, NegSpec, SubSpec};

verus! {

/// A type that holds the natural number `n` holds every `k <= n`.
pub proof fn lemma_holds_nat_below<T: Ring>(k: nat, n: nat)
    requires
        k <= n,
        T::holds_nat(n),
    ensures
        T::holds_nat(k),
    decreases n - k,
{
    if k < n {
        lemma_holds_nat_below::<T>(k + 1, n);
        T::lemma_from_nat_succ(k);
    }
}

/// Two sequences compare equal exactly where they are the same sequence.
pub proof fn lemma_seq_eq_is_equality<T: Ring>(a: Seq<T>, b: Seq<T>)
    ensures
        seq_eq(a, b) == (a == b),
{
    if seq_eq(a, b) {
        assert forall|i: int| 0 <= i < a.len() implies a[i] == b[i] by {
            assert(a[i].eq_spec(&b[i]));
            T::lemma_eq_is_equality(a[i], b[i]);
        }
        assert(a =~= b);
    }
    if a == b {
        assert forall|i: int| 0 <= i < a.len() implies (#[trigger] a[i]).eq_spec(&b[i]) by {
            T::lemma_eq_is_equality(a[i], b[i]);
        }
    }
}

/// Two matrices compare equal exactly where they are the same matrix.
pub proof fn lemma_equals_is_equality<T: Ring>(a: MatrixView<T>, b: MatrixView<T>)
    requires
        a.wf(),
        b.wf(),
    ensures
        a.equals(b) == (a == b),
{
    if a.equals(b) {
        assert forall|i: int, j: int| a.in_bounds(i, j) implies a.at(i, j) == b.at(i, j) by {
            assert(a.at(i, j).eq_spec(&b.at(i, j)));
            T::lemma_eq_is_equality(a.at(i, j), b.at(i, j));
        }
        lemma_view_ext(a, b);
    }
    if a == b {
        assert forall|i: int, j: int| a.in_bounds(i, j) implies (#[trigger] a.at(i, j)).eq_spec(
            &b.at(i, j),
        ) by {
            T::lemma_eq_is_equality(a.at(i, j), b.at(i, j));
        }
    }
}

/// In row `i` of the product of the identity matrix with `m`, the sum for
/// column `j` is `zero` up to the diagonal and `m[i][j]` from there on, and
/// all its arithmetic is defined.
proof fn lemma_identity_dot_left<T: Ring>(m: MatrixView<T>, i: int, j: int, k: nat)
    requires
        m.wf(),
        m.in_bounds(i, j),
        k <= m.rows,
    ensures
        MatrixView::<T>::identity(m.rows).dot_req(m, i, j, k),
        MatrixView::<T>::identity(m.rows).dot(m, i, j, k) == if k <= i {
            T::zero_spec()
        } else {
            m.at(i, j)
        },
    decreases k,
{
    if k > 0 {
        lemma_identity_dot_left(m, i, j, (k - 1) as nat);
        lemma_from_fn_at(
            m.rows,
            m.rows,
            |a: int, b: int|
                if a == b {
                    T::one_spec()
                } else {
                    T::zero_spec()
                },
            i,
            k - 1,
        );
        let term = m.at(k - 1, j);
        T::lemma_one_neutral(term);
        T::lemma_zero_absorbs(term);
        T::lemma_zero_neutral(term);
        T::lemma_zero_neutral(T::zero_spec());
        T::lemma_zero_neutral(m.at(i, j));
    }
}

/// In row `i` of the product of `m` with the identity matrix, the sum for
/// column `j` is `zero` up to the diagonal and `m[i][j]` from there on, and
/// all its arithmetic is defined.
proof fn lemma_identity_dot_right<T: Ring>(m: MatrixView<T>, i: int, j: int, k: nat)
    requires
        m.wf(),
        m.in_bounds(i, j),
        k <= m.cols,
    ensures
        m.dot_req(MatrixView::<T>::identity(m.cols), i, j, k),
        m.dot(MatrixView::<T>::identity(m.cols), i, j, k) == if k <= j {
            T::zero_spec()
        } else {
            m.at(i, j)
        },
    decreases k,
{
    if k > 0 {
        lemma_identity_dot_right(m, i, j, (k - 1) as nat);
        lemma_from_fn_at(
            m.cols,
            m.cols,
            |a: int, b: int|
                if a == b {
                    T::one_spec()
                } else {
                    T::zero_spec()
                },
            k - 1,
            j,
        );
        let term = m.at(i, k - 1);
        T::lemma_one_neutral(term);
        T::lemma_zero_absorbs(term);
        T::lemma_zero_neutral(term);
        T::lemma_zero_neutral(T::zero_spec());
        T::lemma_zero_neutral(m.at(i, j));
    }
}

/// The identity matrix on the left leaves a matrix as it is: the product of
/// the identity matrix of `m.rows` rows with `m` is defined and is `m`.
pub proof fn lemma_identity_product_left<T: Ring>(m: MatrixView<T>)
    requires
        m.wf(),
    ensures
        MatrixView::<T>::identity(m.rows).product_req(m),
        MatrixView::<T>::identity(m.rows).product(m) == m,
{
    let id = MatrixView::<T>::identity(m.rows);
    assert forall|i: int, j: int| 0 <= i < id.rows && 0 <= j < m.cols implies #[trigger] id.dot_req(
        m,
        i,
        j,
        id.cols,
    ) by {
        lemma_identity_dot_left(m, i, j, m.rows);
    }
    assert forall|i: int, j: int| m.in_bounds(i, j) implies m.at(i, j) == id.dot(
        m,
        i,
        j,
        id.cols,
    ) by {
        lemma_identity_dot_left(m, i, j, m.rows);
    }
    lemma_from_fn_unique(m, |i: int, j: int| id.dot(m, i, j, id.cols));
}

/// The identity matrix on the right leaves a matrix as it is: the product of
/// `m` with the identity matrix of `m.cols` rows is defined and is `m`.
pub proof fn lemma_identity_product_right<T: Ring>(m: MatrixView<T>)
    requires
        m.wf(),
    ensures
        m.product_req(MatrixView::<T>::identity(m.cols)),
        m.product(MatrixView::<T>::identity(m.cols)) == m,
{
    let id = MatrixView::<T>::identity(m.cols);
    assert forall|i: int, j: int| 0 <= i < m.rows && 0 <= j < id.cols implies #[trigger] m.dot_req(
        id,
        i,
        j,
        m.cols,
    ) by {
        lemma_identity_dot_right(m, i, j, m.cols);
    }
    assert forall|i: int, j: int| m.in_bounds(i, j) implies m.at(i, j) == m.dot(
        id,
        i,
        j,
        m.cols,
    ) by {
        lemma_identity_dot_right(m, i, j, m.cols);
    }
    lemma_from_fn_unique(m, |i: int, j: int| m.dot(id, i, j, m.cols));
}

/// Transposing twice gives the matrix back.
pub proof fn lemma_transpose_involution<T>(m: MatrixView<T>)
    requires
        m.wf(),
    ensures
        m.transposed().wf(),
        m.transposed().transposed() == m,
{
    let t = m.transposed();
    assert(t.wf()) by (nonlinear_arith)
        requires
            t.elems.len() == m.cols * m.rows,
            t.rows == m.cols,
            t.cols == m.rows,
    ;
    assert forall|i: int, j: int| m.in_bounds(i, j) implies m.at(i, j) == t.at(j, i) by {
        lemma_from_fn_at(m.cols, m.rows, |j: int, i: int| m.at(i, j), j, i);
    }
    lemma_from_fn_unique(m, |j: int, i: int| t.at(i, j));
}

/// The sum of the first `k` elements on the diagonal of an identity matrix
/// is the number `k`.
proof fn lemma_identity_diag_sum<T: Ring>(n: nat, k: nat)
    requires
        k <= n,
        T::holds_nat(n),
    ensures
        MatrixView::<T>::identity(n).diag_sum_req(k),
        MatrixView::<T>::identity(n).diag_sum(k) == T::from_nat(k),
    decreases k,
{
    if k == 0 {
        T::lemma_from_nat_zero();
    } else {
        lemma_identity_diag_sum::<T>(n, (k - 1) as nat);
        lemma_from_fn_at(
            n,
            n,
            |a: int, b: int|
                if a == b {
                    T::one_spec()
                } else {
                    T::zero_spec()
                },
            k - 1,
            k - 1,
        );
        lemma_holds_nat_below::<T>(k, n);
        T::lemma_from_nat_succ((k - 1) as nat);
    }
}

/// The trace of the identity matrix of `n` rows is the number `n`, wherever
/// the element type holds `n`.
pub proof fn lemma_trace_identity<T: Ring>(n: nat)
    requires
        T::holds_nat(n),
    ensures
        MatrixView::<T>::identity(n).diag_sum_req(n),
        MatrixView::<T>::identity(n).diag_sum(n) == T::from_nat(n),
{
    lemma_identity_diag_sum::<T>(n, n);
}

/// Adding a matrix and taking it away again gives the first matrix back:
/// where `a + b` is defined, so is `(a + b) - b`, and it is `a`.
pub proof fn lemma_sum_then_difference<T: Ring>(a: MatrixView<T>, b: MatrixView<T>)
    requires
        a.wf(),
        a.same_shape(b),
        a.sum_req(b),
    ensures
        a.sum(b).difference_req(b),
        a.sum(b).difference(b) == a,
{
    let s = a.sum(b);
    assert forall|i: int, j: int| s.in_bounds(i, j) implies #[trigger] s.at(i, j).sub_req(
        b.at(i, j),
    ) by {
        lemma_from_fn_at(a.rows, a.cols, |i: int, j: int| a.at(i, j).add_spec(b.at(i, j)), i, j);
        assert(a.at(i, j).add_req(b.at(i, j)));
        T::lemma_add_then_sub(a.at(i, j), b.at(i, j));
    }
    assert forall|i: int, j: int| a.in_bounds(i, j) implies a.at(i, j) == s.at(i, j).sub_spec(
        b.at(i, j),
    ) by {
        lemma_from_fn_at(a.rows, a.cols, |i: int, j: int| a.at(i, j).add_spec(b.at(i, j)), i, j);
        assert(a.at(i, j).add_req(b.at(i, j)));
        T::lemma_add_then_sub(a.at(i, j), b.at(i, j));
    }
    lemma_from_fn_unique(a, |i: int, j: int| s.at(i, j).sub_spec(b.at(i, j)));
}

/// Negating twice gives the matrix back: where `-m` is defined, so is
/// `-(-m)`, and it is `m`.
pub proof fn lemma_negation_involution<T: Signed>(m: MatrixView<T>)
    requires
        m.wf(),
        m.negated_req(),
    ensures
        m.negated().negated_req(),
        m.negated().negated() == m,
{
    let n = m.negated();
    assert forall|i: int, j: int| n.in_bounds(i, j) implies (#[trigger] n.at(i, j)).neg_req() by {
        lemma_from_fn_at(m.rows, m.cols, |i: int, j: int| m.at(i, j).neg_spec(), i, j);
        assert(m.at(i, j).neg_req());
        T::lemma_neg_neg(m.at(i, j));
    }
    assert forall|i: int, j: int| m.in_bounds(i, j) implies m.at(i, j) == n.at(i, j).neg_spec() by {
        lemma_from_fn_at(m.rows, m.cols, |i: int, j: int| m.at(i, j).neg_spec(), i, j);
        assert(m.at(i, j).neg_req());
        T::lemma_neg_neg(m.at(i, j));
    }
    lemma_from_fn_unique(m, |i: int, j: int| n.at(i, j).neg_spec());
}

} // verus!
