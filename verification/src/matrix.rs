//! A 2D Matrix type
//!
//! A `Matrix` owns `rows * cols` numbers in row-major order. `set`,
//! `reshape` and `transpose` change it in place; the arithmetic returns a new
//! `Matrix`. Operands whose shapes do not fit, and positions outside the
//! matrix, are refused with an error.

use crate::common::{Number, Signed};
use crate::matrix_view::{
    lemma_diag_sum_req_prefix,
    lemma_dot_req_prefix,
    lemma_flat_index,
    lemma_from_fn_unique,
    lemma_split_index,
    lemma_updated_at,
    MatrixView,
};
use crate::vector;
use crate::vector::Vector;
use std::ops::{Add, Mul};
use vstd::prelude::*;
use vstd::slice::slice_subrange;
use vstd::std_specs::cmp::{PartialEqSpec, PartialEqSpecImpl};
use vstd::std_specs::ops::{AddSpec, MulSpec, NegSpec, SubSpec};

verus! {

/// Why an operation on a `Matrix` was refused.
#[derive(Clone, Copy, Debug, PartialEq, Eq)]
pub enum MatrixError {
    /// The shapes of the operands do not fit the operation.
    ShapeMismatch,
    /// There is no row `row` or no column `col`.
    IndexOutOfBounds { row: usize, col: usize },
    /// The matrix has not as many rows as columns.
    NotSquare,
}

/// 2D Matrix: `rows x cols` numbers, held row by row.
#[derive(Debug)]
pub struct Matrix<T: Number> {
    rows: usize,
    cols: usize,
    data: Vector<T>,
}

impl<T: Number> View for Matrix<T> {
    type V = MatrixView<T>;

    closed spec fn view(&self) -> MatrixView<T> {
        if self.inv() {
            MatrixView { rows: self.rows as nat, cols: self.cols as nat, elems: self.data@ }
        } else {
            MatrixView { rows: 0, cols: 0, elems: Seq::empty() }
        }
    }
}

impl<T: Number> Matrix<T> {
    /// The buffer holds one element for each position. Every `Matrix` that
    /// executable code can hold keeps this.
    #[verifier::type_invariant]
    spec fn inv(&self) -> bool {
        self.data@.len() == self.rows * self.cols
    }

    /// Whatever matrix it is, there is exactly one element for each of its
    /// positions.
    pub proof fn lemma_view_wf(&self)
        ensures
            self@.wf(),
    {
    }

    /// The element at a position that the matrix has.
    pub(crate) fn at(&self, i: usize, j: usize) -> (v: T)
        requires
            self@.in_bounds(i as int, j as int),
        ensures
            v == self@.at(i as int, j as int),
    {
        proof {
            use_type_invariant(self);
            lemma_flat_index(self.rows as nat, self.cols as nat, i as int, j as int);
            assert(self.data.data.len() == self.rows * self.cols);
        }
        self.data.data[i * self.cols + j]
    }

    /// Puts `num` at a position that the matrix has.
    pub(crate) fn put(&mut self, i: usize, j: usize, num: T)
        requires
            old(self)@.in_bounds(i as int, j as int),
        ensures
            final(self)@ == old(self)@.updated(i as int, j as int, num),
            final(self)@.wf(),
    {
        proof {
            use_type_invariant(&*self);
            lemma_flat_index(self.rows as nat, self.cols as nat, i as int, j as int);
            assert(self.data.data.len() == self.rows * self.cols);
        }
        let cols = self.cols;
        self.data.data[i * cols + j] = num;
    }

    /// Returns the number of rows in the matrix.
    #[inline]
    pub fn num_rows(&self) -> (n: usize)
        ensures
            n == self@.rows,
    {
        proof {
            use_type_invariant(self);
        }
        self.rows
    }

    /// Returns the number of columns in the matrix.
    #[inline]
    pub fn num_cols(&self) -> (n: usize)
        ensures
            n == self@.cols,
    {
        proof {
            use_type_invariant(self);
        }
        self.cols
    }

    /// Returns the element at `i`th row and `j`th column of the matrix.
    /// The row, column indexing is 0-based.
    #[inline]
    pub fn get(&self, i: usize, j: usize) -> (r: Result<T, MatrixError>)
        ensures
            r == if self@.in_bounds(i as int, j as int) {
                Ok::<T, MatrixError>(self@.at(i as int, j as int))
            } else {
                Err::<T, MatrixError>(MatrixError::IndexOutOfBounds { row: i, col: j })
            },
    {
        if i < self.num_rows() && j < self.num_cols() {
            Ok(self.at(i, j))
        } else {
            Err(MatrixError::IndexOutOfBounds { row: i, col: j })
        }
    }

    /// Sets the element at `i`th row and `j`th column of the matrix as `num`.
    /// The row, column indexing is 0-based. Where the matrix has no such
    /// position it stays as it is.
    #[inline]
    pub fn set(&mut self, i: usize, j: usize, num: T) -> (r: Result<(), MatrixError>)
        ensures
            final(self)@.wf(),
            match r {
                Ok(_) => {
                    &&& old(self)@.in_bounds(i as int, j as int)
                    &&& final(self)@ == old(self)@.updated(i as int, j as int, num)
                },
                Err(e) => {
                    &&& !old(self)@.in_bounds(i as int, j as int)
                    &&& e == (MatrixError::IndexOutOfBounds { row: i, col: j })
                    &&& final(self)@ == old(self)@
                },
            },
    {
        proof {
            self.lemma_view_wf();
        }
        let (rows, cols) = (self.num_rows(), self.num_cols());
        if i < rows && j < cols {
            self.put(i, j, num);
            Ok(())
        } else {
            Err(MatrixError::IndexOutOfBounds { row: i, col: j })
        }
    }

    /// Creates a new `Matrix` with dimensions as `rows x cols` with all values
    /// instantiated to `default`.
    pub fn new(rows: usize, cols: usize, default: T) -> (m: Matrix<T>)
        requires
            rows * cols <= usize::MAX,
        ensures
            m@ == MatrixView::filled(rows as nat, cols as nat, default),
            m@.wf(),
            forall|i: int, j: int| m@.in_bounds(i, j) ==> m@.at(i, j) == default,
    {
        let m = Matrix::<T> { rows: rows, cols: cols, data: Vector::new(rows * cols, default) };
        proof {
            assert forall|i: int, j: int| m@.in_bounds(i, j) implies m@.at(i, j) == default by {
                lemma_flat_index(m@.rows, m@.cols, i, j);
            }
            lemma_from_fn_unique(m@, |i: int, j: int| default);
        }
        m
    }

    /// The matrix product of `self` and `rhs`: the element at `(i, j)` is the
    /// sum over `k` of `self[i][k] * rhs[k][j]`, taken in the element type.
    /// `self` must have as many columns as `rhs` has rows.
    pub fn mul(self, rhs: Matrix<T>) -> (r: Result<Matrix<T>, MatrixError>)
        requires
            self@.cols == rhs@.rows ==> self@.rows * rhs@.cols <= usize::MAX && self@.product_req(
                rhs@,
            ),
        ensures
            match r {
                Ok(m) => {
                    &&& self@.cols == rhs@.rows
                    &&& m@ == self@.product(rhs@)
                    &&& m@.wf()
                    &&& forall|i: int, j: int|
                        m@.in_bounds(i, j) ==> m@.at(i, j) == self@.dot(rhs@, i, j, self@.cols)
                },
                Err(e) => self@.cols != rhs@.rows && e == MatrixError::ShapeMismatch,
            },
    {
        if self.num_cols() == rhs.num_rows() {
            let rows = self.num_rows();
            let cols = rhs.num_cols();
            let inner = self.num_cols();
            let mut new_mat = Matrix::<T>::new(rows, cols, T::zero());
            for i in 0..rows
                invariant
                    rows == self@.rows,
                    cols == rhs@.cols,
                    inner == self@.cols,
                    inner == rhs@.rows,
                    new_mat@.rows == rows,
                    new_mat@.cols == cols,
                    new_mat@.wf(),
                    self@.product_req(rhs@),
                    forall|a: int, b: int|
                        0 <= a < i && 0 <= b < cols ==> new_mat@.at(a, b) == self@.dot(
                            rhs@,
                            a,
                            b,
                            inner as nat,
                        ),
            {
                for j in 0..cols
                    invariant
                        i < rows,
                        rows == self@.rows,
                        cols == rhs@.cols,
                        inner == self@.cols,
                        inner == rhs@.rows,
                        new_mat@.rows == rows,
                        new_mat@.cols == cols,
                        new_mat@.wf(),
                        self@.product_req(rhs@),
                        forall|a: int, b: int|
                            (0 <= a < i && 0 <= b < cols) || (a == i && 0 <= b < j)
                                ==> new_mat@.at(a, b) == self@.dot(rhs@, a, b, inner as nat),
                {
                    let mut sum: T = T::zero();
                    for k in 0..inner
                        invariant
                            i < rows,
                            j < cols,
                            rows == self@.rows,
                            cols == rhs@.cols,
                            inner == self@.cols,
                            inner == rhs@.rows,
                            self@.dot_req(rhs@, i as int, j as int, inner as nat),
                            sum == self@.dot(rhs@, i as int, j as int, k as nat),
                    {
                        proof {
                            T::lemma_exact_arithmetic();
                            lemma_dot_req_prefix(
                                self@,
                                rhs@,
                                i as int,
                                j as int,
                                (k + 1) as nat,
                                inner as nat,
                            );
                        }
                        sum = sum.add(self.at(i, k).mul(rhs.at(k, j)));
                    }
                    let ghost before = new_mat@;
                    new_mat.put(i, j, sum);
                    proof {
                        assert forall|a: int, b: int|
                            (0 <= a < i && 0 <= b < cols) || (a == i && 0 <= b < j + 1)
                                implies new_mat@.at(a, b) == self@.dot(
                            rhs@,
                            a,
                            b,
                            inner as nat,
                        ) by {
                            lemma_updated_at(before, i as int, j as int, sum, a, b);
                        }
                    }
                }
            }
            proof {
                lemma_from_fn_unique(
                    new_mat@,
                    |i: int, j: int| self@.dot(rhs@, i, j, self@.cols),
                );
            }
            Ok(new_mat)
        } else {
            Err(MatrixError::ShapeMismatch)
        }
    }

    /// The sums `self[i][j] + rhs[i][j]`. The operands must have one shape:
    /// as many rows and as many columns.
    pub fn add(self, rhs: Matrix<T>) -> (r: Result<Matrix<T>, MatrixError>)
        requires
            self@.same_shape(rhs@) ==> self@.sum_req(rhs@),
        ensures
            match r {
                Ok(m) => {
                    &&& self@.same_shape(rhs@)
                    &&& m@ == self@.sum(rhs@)
                    &&& m@.wf()
                    &&& forall|i: int, j: int|
                        m@.in_bounds(i, j) ==> m@.at(i, j) == self@.at(i, j).add_spec(
                            rhs@.at(i, j),
                        )
                },
                Err(e) => !self@.same_shape(rhs@) && e == MatrixError::ShapeMismatch,
            },
    {
        if self.num_rows() == rhs.num_rows() && self.num_cols() == rhs.num_cols() {
            proof {
                use_type_invariant(&self);
                use_type_invariant(&rhs);
                assert(self@.elems == self.data@ && rhs@.elems == rhs.data@);
                assert forall|p: int| 0 <= p < self@.elems.len() implies (
                #[trigger] self@.elems[p]).add_req(rhs@.elems[p]) by {
                    lemma_split_index(self@.rows, self@.cols, p);
                    let i = p / (self@.cols as int);
                    let j = p % (self@.cols as int);
                    assert(self@.at(i, j).add_req(rhs@.at(i, j)));
                }
            }
            match self.data.add(rhs.data) {
                Ok(data) => {
                    let m = Matrix::<T> { rows: self.rows, cols: self.cols, data };
                    proof {
                        assert forall|i: int, j: int| m@.in_bounds(i, j) implies m@.at(i, j)
                            == self@.at(i, j).add_spec(rhs@.at(i, j)) by {
                            lemma_flat_index(m@.rows, m@.cols, i, j);
                        }
                        lemma_from_fn_unique(
                            m@,
                            |i: int, j: int| self@.at(i, j).add_spec(rhs@.at(i, j)),
                        );
                    }
                    Ok(m)
                },
                // operands of one shape hold as many elements
                Err(_) => Err(MatrixError::ShapeMismatch),
            }
        } else {
            Err(MatrixError::ShapeMismatch)
        }
    }

    /// The differences `self[i][j] - rhs[i][j]`. The operands must have one
    /// shape: as many rows and as many columns.
    pub fn sub(self, rhs: Matrix<T>) -> (r: Result<Matrix<T>, MatrixError>)
        requires
            self@.same_shape(rhs@) ==> self@.difference_req(rhs@),
        ensures
            match r {
                Ok(m) => {
                    &&& self@.same_shape(rhs@)
                    &&& m@ == self@.difference(rhs@)
                    &&& m@.wf()
                    &&& forall|i: int, j: int|
                        m@.in_bounds(i, j) ==> m@.at(i, j) == self@.at(i, j).sub_spec(
                            rhs@.at(i, j),
                        )
                },
                Err(e) => !self@.same_shape(rhs@) && e == MatrixError::ShapeMismatch,
            },
    {
        if self.num_rows() == rhs.num_rows() && self.num_cols() == rhs.num_cols() {
            proof {
                use_type_invariant(&self);
                use_type_invariant(&rhs);
                assert(self@.elems == self.data@ && rhs@.elems == rhs.data@);
                assert forall|p: int| 0 <= p < self@.elems.len() implies (
                #[trigger] self@.elems[p]).sub_req(rhs@.elems[p]) by {
                    lemma_split_index(self@.rows, self@.cols, p);
                    let i = p / (self@.cols as int);
                    let j = p % (self@.cols as int);
                    assert(self@.at(i, j).sub_req(rhs@.at(i, j)));
                }
            }
            match self.data.sub(rhs.data) {
                Ok(data) => {
                    let m = Matrix::<T> { rows: self.rows, cols: self.cols, data };
                    proof {
                        assert forall|i: int, j: int| m@.in_bounds(i, j) implies m@.at(i, j)
                            == self@.at(i, j).sub_spec(rhs@.at(i, j)) by {
                            lemma_flat_index(m@.rows, m@.cols, i, j);
                        }
                        lemma_from_fn_unique(
                            m@,
                            |i: int, j: int| self@.at(i, j).sub_spec(rhs@.at(i, j)),
                        );
                    }
                    Ok(m)
                },
                // operands of one shape hold as many elements
                Err(_) => Err(MatrixError::ShapeMismatch),
            }
        } else {
            Err(MatrixError::ShapeMismatch)
        }
    }

    /// The products `rhs * self[i][j]` of every element with one number.
    pub fn scale(self, rhs: T) -> (m: Matrix<T>)
        requires
            self@.scaled_req(rhs),
        ensures
            m@ == self@.scaled(rhs),
            m@.wf(),
            forall|i: int, j: int|
                m@.in_bounds(i, j) ==> m@.at(i, j) == rhs.mul_spec(self@.at(i, j)),
    {
        proof {
            use_type_invariant(&self);
            assert forall|p: int| 0 <= p < self@.elems.len() implies rhs.mul_req(
                #[trigger] self@.elems[p],
            ) by {
                lemma_split_index(self@.rows, self@.cols, p);
                let i = p / (self@.cols as int);
                let j = p % (self@.cols as int);
                assert(rhs.mul_req(self@.at(i, j)));
            }
            assert(self@.elems == self.data@);
        }
        let m = Matrix::<T> { rows: self.rows, cols: self.cols, data: self.data.scale(rhs) };
        proof {
            assert forall|i: int, j: int| m@.in_bounds(i, j) implies m@.at(i, j) == rhs.mul_spec(
                self@.at(i, j),
            ) by {
                lemma_flat_index(m@.rows, m@.cols, i, j);
            }
            lemma_from_fn_unique(m@, |i: int, j: int| rhs.mul_spec(self@.at(i, j)));
        }
        m
    }

    /// Resizes the dimensions of the matrix with the new dimensions as
    /// `newrows x newcols`. The elements stay as they are, in row-major
    /// order; the new shape must have room for exactly as many.
    pub fn reshape(&mut self, newrows: usize, newcols: usize) -> (r: Result<(), MatrixError>)
        ensures
            final(self)@.wf(),
            match r {
                Ok(_) => {
                    &&& newrows * newcols == old(self)@.rows * old(self)@.cols
                    &&& final(self)@ == old(self)@.reshaped(newrows as nat, newcols as nat)
                },
                Err(e) => {
                    &&& newrows * newcols != old(self)@.rows * old(self)@.cols
                    &&& e == MatrixError::ShapeMismatch
                    &&& final(self)@ == old(self)@
                },
            },
    {
        proof {
            use_type_invariant(&*self);
        }
        let len = self.data.len();
        match newrows.checked_mul(newcols) {
            Some(total) => {
                if total == len {
                    assign_shape(&mut self.rows, &mut self.cols, newrows, newcols);
                    Ok(())
                } else {
                    Err(MatrixError::ShapeMismatch)
                }
            },
            None => Err(MatrixError::ShapeMismatch),
        }
    }

    /// Returns the matrix as a cloned vector in row major order.
    pub fn get_vec(&self) -> (v: Vec<T>)
        ensures
            v@ == self@.elems,
    {
        proof {
            use_type_invariant(self);
        }
        self.data.clone().data
    }

    /// Returns row `index` of the matrix, from its first column to its last,
    /// as a slice of the matrix's own elements.
    pub fn row(&self, index: usize) -> (r: Result<&[T], MatrixError>)
        ensures
            match r {
                Ok(s) => index < self@.rows && s@ == self@.row(index as int),
                Err(e) => index >= self@.rows && e == (MatrixError::IndexOutOfBounds {
                    row: index,
                    col: 0,
                }),
            },
    {
        proof {
            use_type_invariant(self);
        }
        if index < self.rows {
            proof {
                assert(0 <= index * self.cols && index * self.cols + self.cols <= self.rows
                    * self.cols) by (nonlinear_arith)
                    requires
                        0 <= index < self.rows,
                        0 <= self.cols,
                ;
                assert(self.data.data.len() == self.rows * self.cols);
            }
            let start = index * self.cols;
            Ok(slice_subrange(self.data.data.as_slice(), start, start + self.cols))
        } else {
            Err(MatrixError::IndexOutOfBounds { row: index, col: 0 })
        }
    }

    /// Transposes the matrix: what was at `(i, j)` is at `(j, i)` afterwards,
    /// and the numbers of rows and columns change places.
    pub fn transpose(&mut self)
        ensures
            final(self)@ == old(self)@.transposed(),
            final(self)@.wf(),
            forall|i: int, j: int|
                old(self)@.in_bounds(i, j) ==> final(self)@.at(j, i) == old(self)@.at(i, j),
    {
        proof {
            use_type_invariant(&*self);
        }
        let rows = self.rows;
        let cols = self.cols;
        let mut v = self.data.clone();
        for i in 0..rows
            invariant
                *self == *old(self),
                rows == self@.rows,
                cols == self@.cols,
                self@.wf(),
                v@.len() == rows * cols,
                forall|a: int, b: int|
                    0 <= a < i && 0 <= b < cols ==> v@[b * rows + a] == self@.at(a, b),
        {
            for j in 0..cols
                invariant
                    *self == *old(self),
                    i < rows,
                    rows == self@.rows,
                    cols == self@.cols,
                    self@.wf(),
                    v@.len() == rows * cols,
                    forall|a: int, b: int|
                        (0 <= a < i && 0 <= b < cols) || (a == i && 0 <= b < j) ==> v@[b * rows
                            + a] == self@.at(a, b),
            {
                let ghost before = v@;
                proof {
                    lemma_flat_index(cols as nat, rows as nat, j as int, i as int);
                    assert(cols * rows == rows * cols) by (nonlinear_arith);
                    assert(v.data.len() == rows * cols);
                }
                v.data[j * rows + i] = self.at(i, j);
                proof {
                    assert forall|a: int, b: int|
                        (0 <= a < i && 0 <= b < cols) || (a == i && 0 <= b < j + 1) implies v@[b
                        * rows + a] == self@.at(a, b) by {
                        lemma_flat_index(cols as nat, rows as nat, b, a);
                        assert(before[b * rows + a] == self@.at(a, b) || (a == i && b == j));
                    }
                }
            }
        }
        let ghost was = self@;
        *self = Matrix::<T> { rows: cols, cols: rows, data: v };
        proof {
            assert(cols * rows == rows * cols) by (nonlinear_arith);
            assert forall|j: int, i: int| self@.in_bounds(j, i) implies self@.at(j, i) == was.at(
                i,
                j,
            ) by {
                lemma_flat_index(cols as nat, rows as nat, j, i);
            }
            lemma_from_fn_unique(self@, |j: int, i: int| was.at(i, j));
        }
    }

    /// Trace of the matrix: the sum of the elements on its diagonal, for a
    /// matrix with as many rows as columns.
    pub fn trace(&self) -> (r: Result<T, MatrixError>)
        requires
            self@.rows == self@.cols ==> self@.diag_sum_req(self@.rows),
        ensures
            r == if self@.rows == self@.cols {
                Ok::<T, MatrixError>(self@.diag_sum(self@.rows))
            } else {
                Err::<T, MatrixError>(MatrixError::NotSquare)
            },
    {
        if self.num_rows() == self.num_cols() {
            let n = self.num_rows();
            let mut sum: T = T::zero();
            for i in 0..n
                invariant
                    n == self@.rows,
                    n == self@.cols,
                    self@.diag_sum_req(n as nat),
                    sum == self@.diag_sum(i as nat),
            {
                proof {
                    T::lemma_exact_arithmetic();
                    lemma_diag_sum_req_prefix(self@, (i + 1) as nat, n as nat);
                }
                sum = sum.add(self.at(i, i));
            }
            return Ok(sum);
        }
        Err(MatrixError::NotSquare)
    }
}

impl<T: Signed> Matrix<T> {
    /// The negations `-self[i][j]`.
    pub fn neg(self) -> (m: Matrix<T>)
        requires
            self@.negated_req(),
        ensures
            m@ == self@.negated(),
            m@.wf(),
            forall|i: int, j: int| m@.in_bounds(i, j) ==> m@.at(i, j) == self@.at(i, j).neg_spec(),
    {
        proof {
            use_type_invariant(&self);
            assert forall|p: int| 0 <= p < self@.elems.len() implies (
            #[trigger] self@.elems[p]).neg_req() by {
                lemma_split_index(self@.rows, self@.cols, p);
                let i = p / (self@.cols as int);
                let j = p % (self@.cols as int);
                assert(self@.at(i, j).neg_req());
            }
            assert(self@.elems == self.data@);
        }
        let m = Matrix::<T> { rows: self.rows, cols: self.cols, data: self.data.neg() };
        proof {
            assert forall|i: int, j: int| m@.in_bounds(i, j) implies m@.at(i, j) == self@.at(
                i,
                j,
            ).neg_spec() by {
                lemma_flat_index(m@.rows, m@.cols, i, j);
            }
            lemma_from_fn_unique(m@, |i: int, j: int| self@.at(i, j).neg_spec());
        }
        m
    }
}

/// Gives a matrix its new numbers of rows and columns in one step.
fn assign_shape(rows: &mut usize, cols: &mut usize, newrows: usize, newcols: usize)
    ensures
        *final(rows) == newrows,
        *final(cols) == newcols,
    no_unwind
{
    *rows = newrows;
    *cols = newcols;
}

impl<T: Number> Clone for Matrix<T> {
    fn clone(&self) -> (m: Matrix<T>)
        ensures
            m@ == self@,
            m@.wf(),
    {
        proof {
            use_type_invariant(self);
        }
        Matrix::<T> { rows: self.num_rows(), cols: self.num_cols(), data: self.data.clone() }
    }
}

impl<T: Number> PartialEq for Matrix<T> {
    fn eq(&self, other: &Matrix<T>) -> (r: bool) {
        proof {
            use_type_invariant(self);
            use_type_invariant(other);
            assert(self@.elems == self.data@ && other@.elems == other.data@);
        }
        if self.num_rows() != other.num_rows() || self.num_cols() != other.num_cols() {
            return false;
        }
        let r = self.data == other.data;
        proof {
            if r {
                assert forall|i: int, j: int| self@.in_bounds(i, j) implies (#[trigger] self@.at(
                    i,
                    j,
                )).eq_spec(&other@.at(i, j)) by {
                    lemma_flat_index(self@.rows, self@.cols, i, j);
                }
            } else {
                if self@.equals(other@) {
                    assert forall|p: int| 0 <= p < self@.elems.len() implies (
                    #[trigger] self@.elems[p]).eq_spec(&other@.elems[p]) by {
                        lemma_split_index(self@.rows, self@.cols, p);
                        let i = p / (self@.cols as int);
                        let j = p % (self@.cols as int);
                        assert(self@.at(i, j).eq_spec(&other@.at(i, j)));
                    }
                }
            }
        }
        r
    }
}

impl<T: Number> PartialEqSpecImpl for Matrix<T> {
    open spec fn obeys_eq_spec() -> bool {
        true
    }

    open spec fn eq_spec(&self, other: &Matrix<T>) -> bool {
        self@.equals(other@)
    }
}

impl<T: Number> Eq for Matrix<T> {

}

/// Creates a `Matrix` with dimensions `rows x cols` from the elements of the
/// slice `elems`, which holds the rows one after the other. The slice must
/// hold exactly `rows * cols` elements.
pub fn from_elems<T: Number>(rows: usize, cols: usize, elems: &[T]) -> (r: Result<
    Matrix<T>,
    MatrixError,
>)
    ensures
        match r {
            Ok(m) => {
                &&& elems@.len() == rows * cols
                &&& m@ == (MatrixView { rows: rows as nat, cols: cols as nat, elems: elems@ })
                &&& m@.wf()
            },
            Err(e) => elems@.len() != rows * cols && e == MatrixError::ShapeMismatch,
        },
{
    let len = elems.len();
    match rows.checked_mul(cols) {
        Some(total) => {
            if total == len {
                Ok(Matrix::<T> { rows: rows, cols: cols, data: vector::from_elems(elems) })
            } else {
                Err(MatrixError::ShapeMismatch)
            }
        },
        None => Err(MatrixError::ShapeMismatch),
    }
}

/// Creates an identity matrix of dimension `n x n`.
pub fn identity<T: Number>(n: usize) -> (m: Matrix<T>)
    requires
        n * n <= usize::MAX,
    ensures
        m@ == MatrixView::<T>::identity(n as nat),
        m@.wf(),
        forall|i: int, j: int|
            m@.in_bounds(i, j) ==> m@.at(i, j) == if i == j {
                T::one_spec()
            } else {
                T::zero_spec()
            },
{
    let mut m = Matrix::<T>::new(n, n, T::zero());
    for i in 0..n
        invariant
            m@.rows == n,
            m@.cols == n,
            m@.wf(),
            forall|a: int, b: int|
                m@.in_bounds(a, b) ==> m@.at(a, b) == if a == b && a < i {
                    T::one_spec()
                } else {
                    T::zero_spec()
                },
    {
        let ghost before = m@;
        m.put(i, i, T::one());
        proof {
            assert forall|a: int, b: int| m@.in_bounds(a, b) implies m@.at(a, b) == if a == b && a
                < i + 1 {
                T::one_spec()
            } else {
                T::zero_spec()
            } by {
                lemma_updated_at(before, i as int, i as int, T::one_spec(), a, b);
            }
        }
    }
    proof {
        lemma_from_fn_unique(
            m@,
            |i: int, j: int|
                if i == j {
                    T::one_spec()
                } else {
                    T::zero_spec()
                },
        );
    }
    m
}

} // verus!
