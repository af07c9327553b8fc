//! An iterative solver for linear systems
//!
//! `gauss_seidel` improves a guess at the solution of `a * x = b` by a fixed
//! number of sweeps. In a sweep each row of `x` is replaced in turn, and a
//! row that was replaced is used at once for the rows after it.

use crate::common::Number;
use crate::matrix::{Matrix, MatrixError};
use crate::matrix_view::MatrixView;
use std::ops::{Div, Mul, Sub};
use vstd::prelude::*;
use vstd::std_specs::ops::{DivSpec, MulSpec, SubSpec};

verus! {

/// What is left of `b[j]` after the products `a[j][c] * x[c]` have been taken
/// away from it, one after the other, for the columns `c < k` other than `j`.
pub open spec fn residual<T: Number>(
    a: MatrixView<T>,
    b: MatrixView<T>,
    x: MatrixView<T>,
    j: int,
    k: nat,
) -> T
    decreases k,
{
    if k == 0 {
        b.at(j, 0)
    } else if k - 1 == j {
        residual(a, b, x, j, (k - 1) as nat)
    } else {
        residual(a, b, x, j, (k - 1) as nat).sub_spec(a.at(j, k - 1).mul_spec(x.at(k - 1, 0)))
    }
}

/// Whether every product and every difference that `residual` takes is
/// defined.
pub open spec fn residual_req<T: Number>(
    a: MatrixView<T>,
    b: MatrixView<T>,
    x: MatrixView<T>,
    j: int,
    k: nat,
) -> bool
    decreases k,
{
    k == 0 || {
        &&& residual_req(a, b, x, j, (k - 1) as nat)
        &&& k - 1 != j ==> {
            &&& a.at(j, k - 1).mul_req(x.at(k - 1, 0))
            &&& residual(a, b, x, j, (k - 1) as nat).sub_req(
                a.at(j, k - 1).mul_spec(x.at(k - 1, 0)),
            )
        }
    }
}

/// The guess `x` after the first `j` rows of one sweep: row `j - 1` becomes
/// its residual, taken with the rows before it already replaced, divided by
/// the pivot `a[j - 1][j - 1]`.
pub open spec fn sweep<T: Number>(
    a: MatrixView<T>,
    b: MatrixView<T>,
    x: MatrixView<T>,
    j: nat,
) -> MatrixView<T>
    decreases j,
{
    if j == 0 {
        x
    } else {
        let before = sweep(a, b, x, (j - 1) as nat);
        before.updated(
            j - 1,
            0,
            residual(a, b, before, j - 1, x.rows).div_spec(a.at(j - 1, j - 1)),
        )
    }
}

/// Whether the arithmetic of the first `j` rows of a sweep is defined.
pub open spec fn sweep_req<T: Number>(
    a: MatrixView<T>,
    b: MatrixView<T>,
    x: MatrixView<T>,
    j: nat,
) -> bool
    decreases j,
{
    j == 0 || {
        let before = sweep(a, b, x, (j - 1) as nat);
        &&& sweep_req(a, b, x, (j - 1) as nat)
        &&& residual_req(a, b, before, j - 1, x.rows)
        &&& residual(a, b, before, j - 1, x.rows).div_req(a.at(j - 1, j - 1))
    }
}

/// The guess `x` after `n` sweeps over all its rows.
pub open spec fn sweeps<T: Number>(
    a: MatrixView<T>,
    b: MatrixView<T>,
    x: MatrixView<T>,
    n: nat,
) -> MatrixView<T>
    decreases n,
{
    if n == 0 {
        x
    } else {
        sweep(a, b, sweeps(a, b, x, (n - 1) as nat), x.rows)
    }
}

/// Whether the arithmetic of `n` sweeps is defined.
pub open spec fn sweeps_req<T: Number>(
    a: MatrixView<T>,
    b: MatrixView<T>,
    x: MatrixView<T>,
    n: nat,
) -> bool
    decreases n,
{
    n == 0 || {
        &&& sweeps_req(a, b, x, (n - 1) as nat)
        &&& sweep_req(a, b, sweeps(a, b, x, (n - 1) as nat), x.rows)
    }
}

/// The first of the farthest entries that a sweep reads, `b[n - 1][0]`,
/// `a[n - 1][n - 1]` and `x[n - 1][0]` for a guess of `n` rows, that its
/// matrix does not have; `None` where each matrix has its entry, and with it
/// every entry that a sweep reads.
pub open spec fn missing_entry<T>(a: MatrixView<T>, b: MatrixView<T>, x: MatrixView<T>) -> Option<
    (int, int),
> {
    let last = x.rows - 1;
    if !b.in_bounds(last, 0) {
        Some((last, 0int))
    } else if !a.in_bounds(last, last) {
        Some((last, last))
    } else if !x.in_bounds(last, 0) {
        Some((last, 0int))
    } else {
        None
    }
}

/// Where the arithmetic of the first `n` columns of a residual is defined, so
/// is that of the first `k <= n`.
proof fn lemma_residual_req_prefix<T: Number>(
    a: MatrixView<T>,
    b: MatrixView<T>,
    x: MatrixView<T>,
    j: int,
    k: nat,
    n: nat,
)
    requires
        k <= n,
        residual_req(a, b, x, j, n),
    ensures
        residual_req(a, b, x, j, k),
    decreases n,
{
    if k < n {
        lemma_residual_req_prefix(a, b, x, j, k, (n - 1) as nat);
    }
}

/// Where the arithmetic of the first `n` rows of a sweep is defined, so is
/// that of the first `j <= n`.
proof fn lemma_sweep_req_prefix<T: Number>(
    a: MatrixView<T>,
    b: MatrixView<T>,
    x: MatrixView<T>,
    j: nat,
    n: nat,
)
    requires
        j <= n,
        sweep_req(a, b, x, n),
    ensures
        sweep_req(a, b, x, j),
    decreases n,
{
    if j < n {
        lemma_sweep_req_prefix(a, b, x, j, (n - 1) as nat);
    }
}

/// Where the arithmetic of `n` sweeps is defined, so is that of the first
/// `k <= n`.
proof fn lemma_sweeps_req_prefix<T: Number>(
    a: MatrixView<T>,
    b: MatrixView<T>,
    x: MatrixView<T>,
    k: nat,
    n: nat,
)
    requires
        k <= n,
        sweeps_req(a, b, x, n),
    ensures
        sweeps_req(a, b, x, k),
    decreases n,
{
    if k < n {
        lemma_sweeps_req_prefix(a, b, x, k, (n - 1) as nat);
    }
}

/// A sweep keeps the shape of the guess.
pub proof fn lemma_sweep_shape<T: Number>(
    a: MatrixView<T>,
    b: MatrixView<T>,
    x: MatrixView<T>,
    j: nat,
)
    ensures
        sweep(a, b, x, j).rows == x.rows,
        sweep(a, b, x, j).cols == x.cols,
    decreases j,
{
    if j > 0 {
        lemma_sweep_shape(a, b, x, (j - 1) as nat);
    }
}

/// Any number of sweeps keeps the shape of the guess.
pub proof fn lemma_sweeps_shape<T: Number>(
    a: MatrixView<T>,
    b: MatrixView<T>,
    x: MatrixView<T>,
    n: nat,
)
    ensures
        sweeps(a, b, x, n).rows == x.rows,
        sweeps(a, b, x, n).cols == x.cols,
    decreases n,
{
    if n > 0 {
        lemma_sweeps_shape(a, b, x, (n - 1) as nat);
        lemma_sweep_shape(a, b, sweeps(a, b, x, (n - 1) as nat), x.rows);
    }
}

/// Runs `iter` Gauss-Seidel sweeps on the guess `x` for the system
/// `a * x = b` and returns the guess they end with. `x` has one row for each
/// unknown, in its first column; `b` holds the right-hand sides in its first
/// column.
///
/// In each sweep, and for each row `j` from the first to the last, `x[j]`
/// becomes `(b[j] - sum of a[j][k] * x[k] over k != j) / a[j][j]`, where the
/// rows of `x` before `j` are the ones that this sweep has already replaced.
/// The pivot `a[j][j]` is not tested: the division is the element type's.
///
/// Before the first sweep the farthest entries that the sweeps read are
/// fetched, so a system whose matrices are too small for the guess is
/// refused with the position of such an entry, and no arithmetic is done on
/// it. With no sweeps to run or no rows in `x`, nothing is read.
pub fn gauss_seidel<T: Number>(a: Matrix<T>, b: Matrix<T>, x: Matrix<T>, iter: usize) -> (r: Result<
    Matrix<T>,
    MatrixError,
>)
    requires
        iter > 0 && x@.rows > 0 && missing_entry(a@, b@, x@) is None ==> sweeps_req(
            a@,
            b@,
            x@,
            iter as nat,
        ),
    ensures
        match r {
            Ok(y) => {
                &&& iter == 0 || x@.rows == 0 || missing_entry(a@, b@, x@) is None
                &&& y@ == sweeps(a@, b@, x@, iter as nat)
                &&& y@.rows == x@.rows && y@.cols == x@.cols
                &&& y@.wf()
            },
            Err(e) => {
                &&& iter > 0 && x@.rows > 0
                &&& missing_entry(a@, b@, x@) matches Some((row, col)) && e == (
                MatrixError::IndexOutOfBounds { row: row as usize, col: col as usize })
            },
        },
{
    let ghost x0 = x@;
    proof {
        x.lemma_view_wf();
        lemma_sweeps_shape(a@, b@, x0, iter as nat);
    }
    let mut x = x;
    let n = x.num_rows();
    if iter == 0 || n == 0 {
        proof {
            if iter > 0 {
                lemma_sweeps_trivial(a@, b@, x0, iter as nat);
            }
        }
        return Ok(x);
    }
    match b.get(n - 1, 0) {
        Err(e) => {
            return Err(e);
        },
        Ok(_) => {},
    }
    match a.get(n - 1, n - 1) {
        Err(e) => {
            return Err(e);
        },
        Ok(_) => {},
    }
    match x.get(n - 1, 0) {
        Err(e) => {
            return Err(e);
        },
        Ok(_) => {},
    }
    for i in 0..iter
        invariant
            n == x0.rows,
            n > 0,
            a@.in_bounds(n - 1, n - 1),
            b@.in_bounds(n - 1, 0),
            x0.in_bounds(n - 1, 0),
            sweeps_req(a@, b@, x0, iter as nat),
            x@ == sweeps(a@, b@, x0, i as nat),
            x@.rows == x0.rows,
            x@.cols == x0.cols,
            x@.wf(),
    {
        let ghost start = x@;
        proof {
            lemma_sweeps_req_prefix(a@, b@, x0, (i + 1) as nat, iter as nat);
        }
        for j in 0..n
            invariant
                n == x0.rows,
                n > 0,
                a@.in_bounds(n - 1, n - 1),
                b@.in_bounds(n - 1, 0),
                x0.in_bounds(n - 1, 0),
                start.rows == x0.rows,
                sweep_req(a@, b@, start, n as nat),
                x@ == sweep(a@, b@, start, j as nat),
                x@.rows == x0.rows,
                x@.cols == x0.cols,
                x@.wf(),
        {
            proof {
                T::lemma_exact_arithmetic();
                lemma_sweep_req_prefix(a@, b@, start, (j + 1) as nat, n as nat);
            }
            let mut sum: T = b.at(j, 0);
            for k in 0..n
                invariant
                    j < n,
                    n == x0.rows,
                    a@.in_bounds(n - 1, n - 1),
                    x@.rows == x0.rows,
                    x@.cols == x0.cols,
                    x0.in_bounds(n - 1, 0),
                    residual_req(a@, b@, x@, j as int, n as nat),
                    sum == residual(a@, b@, x@, j as int, k as nat),
            {
                if j != k {
                    proof {
                        T::lemma_exact_arithmetic();
                        lemma_residual_req_prefix(
                            a@,
                            b@,
                            x@,
                            j as int,
                            (k + 1) as nat,
                            n as nat,
                        );
                    }
                    sum = sum.sub(a.at(j, k).mul(x.at(k, 0)));
                }
            }
            x.put(j, 0, sum.div(a.at(j, j)));
        }
    }
    Ok(x)
}

/// With no rows in the guess, sweeps change nothing.
proof fn lemma_sweeps_trivial<T: Number>(
    a: MatrixView<T>,
    b: MatrixView<T>,
    x: MatrixView<T>,
    n: nat,
)
    requires
        x.rows == 0,
    ensures
        sweeps(a, b, x, n) == x,
    decreases n,
{
    if n > 0 {
        lemma_sweeps_trivial(a, b, x, (n - 1) as nat);
    }
}

} // verus!
