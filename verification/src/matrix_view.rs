//! What a matrix is: its two dimensions and its elements in row-major order.
//!
//! The contracts of `Matrix` are stated over `MatrixView`. The functions here
//! say what the element at a position is, what the transpose, the product and
//! the trace of a matrix are, and which arithmetic a computation performs.

use crate::common::{Number, Signed};
use vstd::arithmetic::div_mod::{lemma_fundamental_div_mod, lemma_fundamental_div_mod_converse};
use vstd::prelude::*;
use vstd::std_specs::cmp::PartialEqSpec;
use vstd::std_specs::ops::{AddSpec, MulSpec, NegSpec, SubSpec};

verus! {

/// A matrix of `rows` rows and `cols` columns. The element in row `i` and
/// column `j` is `elems[i * cols + j]`.
pub struct MatrixView<T> {
    pub rows: nat,
    pub cols: nat,
    pub elems: Seq<T>,
}

impl<T> MatrixView<T> {
    /// There is exactly one element for each position.
    pub open spec fn wf(self) -> bool {
        self.elems.len() == self.rows * self.cols
    }

    /// Whether `(i, j)` is a position of the matrix.
    pub open spec fn in_bounds(self, i: int, j: int) -> bool {
        0 <= i < self.rows && 0 <= j < self.cols
    }

    /// The element in row `i` and column `j`.
    pub open spec fn at(self, i: int, j: int) -> T {
        self.elems[i * self.cols + j]
    }

    /// Row `i`, from its first column to its last.
    pub open spec fn row(self, i: int) -> Seq<T> {
        self.elems.subrange(i * self.cols, i * self.cols + self.cols)
    }

    /// The matrix with `value` in row `i` and column `j`, and otherwise as
    /// `self`.
    pub open spec fn updated(self, i: int, j: int, value: T) -> Self {
        MatrixView { elems: self.elems.update(i * self.cols + j, value), ..self }
    }

    /// Whether the two matrices have as many rows and as many columns.
    pub open spec fn same_shape(self, other: Self) -> bool {
        self.rows == other.rows && self.cols == other.cols
    }

    /// The same elements in the same order, read as `rows` by `cols`.
    pub open spec fn reshaped(self, rows: nat, cols: nat) -> Self {
        MatrixView { rows, cols, elems: self.elems }
    }

    /// The matrix of `rows` by `cols` whose element at `(i, j)` is `f(i, j)`.
    pub open spec fn from_fn(rows: nat, cols: nat, f: spec_fn(int, int) -> T) -> Self {
        MatrixView {
            rows,
            cols,
            elems: Seq::new(rows * cols, |p: int| f(p / (cols as int), p % (cols as int))),
        }
    }

    /// The matrix of `rows` by `cols` that holds `value` everywhere.
    pub open spec fn filled(rows: nat, cols: nat, value: T) -> Self {
        Self::from_fn(rows, cols, |i: int, j: int| value)
    }

    /// The matrix whose element at `(j, i)` is the element of `self` at
    /// `(i, j)`.
    pub open spec fn transposed(self) -> Self {
        Self::from_fn(self.cols, self.rows, |j: int, i: int| self.at(i, j))
    }
}

impl<T: Number> MatrixView<T> {
    /// The `n` by `n` matrix with `one` on the diagonal and `zero` elsewhere.
    pub open spec fn identity(n: nat) -> Self {
        Self::from_fn(
            n,
            n,
            |i: int, j: int|
                if i == j {
                    T::one_spec()
                } else {
                    T::zero_spec()
                },
        )
    }

    /// Whether `self[i][j] + rhs[i][j]` is defined at every position.
    pub open spec fn sum_req(self, rhs: Self) -> bool {
        forall|i: int, j: int|
            self.in_bounds(i, j) ==> #[trigger] self.at(i, j).add_req(rhs.at(i, j))
    }

    /// The matrix of the sums `self[i][j] + rhs[i][j]`.
    pub open spec fn sum(self, rhs: Self) -> Self {
        Self::from_fn(self.rows, self.cols, |i: int, j: int| self.at(i, j).add_spec(rhs.at(i, j)))
    }

    /// Whether `self[i][j] - rhs[i][j]` is defined at every position.
    pub open spec fn difference_req(self, rhs: Self) -> bool {
        forall|i: int, j: int|
            self.in_bounds(i, j) ==> #[trigger] self.at(i, j).sub_req(rhs.at(i, j))
    }

    /// The matrix of the differences `self[i][j] - rhs[i][j]`.
    pub open spec fn difference(self, rhs: Self) -> Self {
        Self::from_fn(self.rows, self.cols, |i: int, j: int| self.at(i, j).sub_spec(rhs.at(i, j)))
    }

    /// Whether `c * self[i][j]` is defined at every position.
    pub open spec fn scaled_req(self, c: T) -> bool {
        forall|i: int, j: int| self.in_bounds(i, j) ==> c.mul_req(#[trigger] self.at(i, j))
    }

    /// The matrix of the products `c * self[i][j]`.
    pub open spec fn scaled(self, c: T) -> Self {
        Self::from_fn(self.rows, self.cols, |i: int, j: int| c.mul_spec(self.at(i, j)))
    }

    /// Whether the two matrices have one shape and compare equal at every
    /// position.
    pub open spec fn equals(self, other: Self) -> bool {
        &&& self.same_shape(other)
        &&& forall|i: int, j: int|
            self.in_bounds(i, j) ==> (#[trigger] self.at(i, j)).eq_spec(&other.at(i, j))
    }

    /// The sum of the first `k` products `self[i][0] * rhs[0][j]`,
    /// `self[i][1] * rhs[1][j]`, ..., added up from `zero` in that order.
    pub open spec fn dot(self, rhs: Self, i: int, j: int, k: nat) -> T
        decreases k,
    {
        if k == 0 {
            T::zero_spec()
        } else {
            self.dot(rhs, i, j, (k - 1) as nat).add_spec(
                self.at(i, k - 1).mul_spec(rhs.at(k - 1, j)),
            )
        }
    }

    /// Whether every product and every sum that `dot` takes is defined.
    pub open spec fn dot_req(self, rhs: Self, i: int, j: int, k: nat) -> bool
        decreases k,
    {
        k == 0 || {
            &&& self.dot_req(rhs, i, j, (k - 1) as nat)
            &&& self.at(i, k - 1).mul_req(rhs.at(k - 1, j))
            &&& self.dot(rhs, i, j, (k - 1) as nat).add_req(
                self.at(i, k - 1).mul_spec(rhs.at(k - 1, j)),
            )
        }
    }

    /// The matrix product: the element at `(i, j)` is the sum over `k` of
    /// `self[i][k] * rhs[k][j]`.
    pub open spec fn product(self, rhs: Self) -> Self {
        Self::from_fn(self.rows, rhs.cols, |i: int, j: int| self.dot(rhs, i, j, self.cols))
    }

    /// Whether the arithmetic of every element of the product is defined.
    pub open spec fn product_req(self, rhs: Self) -> bool {
        forall|i: int, j: int|
            0 <= i < self.rows && 0 <= j < rhs.cols ==> #[trigger] self.dot_req(
                rhs,
                i,
                j,
                self.cols,
            )
    }

    /// The sum of the first `k` elements on the diagonal, added up from
    /// `zero` in that order.
    pub open spec fn diag_sum(self, k: nat) -> T
        decreases k,
    {
        if k == 0 {
            T::zero_spec()
        } else {
            self.diag_sum((k - 1) as nat).add_spec(self.at(k - 1, k - 1))
        }
    }

    /// Whether every sum that `diag_sum` takes is defined.
    pub open spec fn diag_sum_req(self, k: nat) -> bool
        decreases k,
    {
        k == 0 || {
            &&& self.diag_sum_req((k - 1) as nat)
            &&& self.diag_sum((k - 1) as nat).add_req(self.at(k - 1, k - 1))
        }
    }
}

impl<T: Signed> MatrixView<T> {
    /// Whether `-self[i][j]` is defined at every position.
    pub open spec fn negated_req(self) -> bool {
        forall|i: int, j: int| self.in_bounds(i, j) ==> (#[trigger] self.at(i, j)).neg_req()
    }

    /// The matrix of the negations `-self[i][j]`.
    pub open spec fn negated(self) -> Self {
        Self::from_fn(self.rows, self.cols, |i: int, j: int| self.at(i, j).neg_spec())
    }
}

/// A position of a `rows` by `cols` matrix has a place among its elements,
/// and the place gives the position back.
pub proof fn lemma_flat_index(rows: nat, cols: nat, i: int, j: int)
    requires
        0 <= i < rows,
        0 <= j < cols,
    ensures
        0 <= i * cols + j < rows * cols,
        (i * cols + j) / (cols as int) == i,
        (i * cols + j) % (cols as int) == j,
{
    assert(0 <= i * cols + j < rows * cols) by (nonlinear_arith)
        requires
            0 <= i < rows,
            0 <= j < cols,
    ;
    lemma_fundamental_div_mod_converse(i * cols + j, cols as int, i, j);
}

/// A place among the elements of a `rows` by `cols` matrix is that of exactly
/// one position.
pub proof fn lemma_split_index(rows: nat, cols: nat, p: int)
    requires
        0 <= p < rows * cols,
    ensures
        0 <= p / (cols as int) < rows,
        0 <= p % (cols as int) < cols,
        p == (p / (cols as int)) * cols + p % (cols as int),
{
    assert(cols > 0) by (nonlinear_arith)
        requires
            0 <= p < rows * cols,
    ;
    lemma_fundamental_div_mod(p, cols as int);
    let q = p / (cols as int);
    let r = p % (cols as int);
    assert(0 <= q < rows) by (nonlinear_arith)
        requires
            p == (cols as int) * q + r,
            0 <= r < cols,
            0 <= p < rows * cols,
    ;
    assert(q * cols == (cols as int) * q) by (nonlinear_arith);
}

/// The element of `from_fn(rows, cols, f)` at a position `(i, j)` is `f(i, j)`.
pub proof fn lemma_from_fn_at<T>(rows: nat, cols: nat, f: spec_fn(int, int) -> T, i: int, j: int)
    requires
        0 <= i < rows,
        0 <= j < cols,
    ensures
        MatrixView::from_fn(rows, cols, f).at(i, j) == f(i, j),
{
    lemma_flat_index(rows, cols, i, j);
}

/// Two matrices of one shape that agree at every position are equal.
pub proof fn lemma_view_ext<T>(a: MatrixView<T>, b: MatrixView<T>)
    requires
        a.wf(),
        b.wf(),
        a.rows == b.rows,
        a.cols == b.cols,
        forall|i: int, j: int| a.in_bounds(i, j) ==> a.at(i, j) == b.at(i, j),
    ensures
        a == b,
{
    assert forall|p: int| 0 <= p < a.elems.len() implies a.elems[p] == b.elems[p] by {
        lemma_split_index(a.rows, a.cols, p);
        let i = p / (a.cols as int);
        let j = p % (a.cols as int);
        assert(a.in_bounds(i, j));
        assert(a.at(i, j) == b.at(i, j));
    }
    assert(a.elems =~= b.elems);
}

/// A matrix made by `from_fn` is the one matrix of its shape with those
/// elements.
pub proof fn lemma_from_fn_unique<T>(m: MatrixView<T>, f: spec_fn(int, int) -> T)
    requires
        m.wf(),
        forall|i: int, j: int| m.in_bounds(i, j) ==> m.at(i, j) == f(i, j),
    ensures
        m == MatrixView::from_fn(m.rows, m.cols, f),
{
    let g = MatrixView::from_fn(m.rows, m.cols, f);
    assert forall|i: int, j: int| m.in_bounds(i, j) implies m.at(i, j) == g.at(i, j) by {
        lemma_from_fn_at(m.rows, m.cols, f, i, j);
    }
    lemma_view_ext(m, g);
}

/// After `updated(i, j, value)` the position `(i, j)` holds `value` and every
/// other position holds what it held.
pub proof fn lemma_updated_at<T>(m: MatrixView<T>, i: int, j: int, value: T, a: int, b: int)
    requires
        m.wf(),
        m.in_bounds(i, j),
        m.in_bounds(a, b),
    ensures
        m.updated(i, j, value).at(a, b) == if a == i && b == j {
            value
        } else {
            m.at(a, b)
        },
{
    lemma_flat_index(m.rows, m.cols, i, j);
    lemma_flat_index(m.rows, m.cols, a, b);
}

/// Where the arithmetic of the first `n` terms of a `dot` is defined, so is
/// that of the first `k <= n`.
pub proof fn lemma_dot_req_prefix<T: Number>(
    a: MatrixView<T>,
    b: MatrixView<T>,
    i: int,
    j: int,
    k: nat,
    n: nat,
)
    requires
        k <= n,
        a.dot_req(b, i, j, n),
    ensures
        a.dot_req(b, i, j, k),
    decreases n,
{
    if k < n {
        lemma_dot_req_prefix(a, b, i, j, k, (n - 1) as nat);
    }
}

/// Where the sums of the first `n` elements of the diagonal are defined, so
/// are those of the first `k <= n`.
pub proof fn lemma_diag_sum_req_prefix<T: Number>(m: MatrixView<T>, k: nat, n: nat)
    requires
        k <= n,
        m.diag_sum_req(n),
    ensures
        m.diag_sum_req(k),
    decreases n,
{
    if k < n {
        lemma_diag_sum_req_prefix(m, k, (n - 1) as nat);
    }
}

} // verus!
