use numrs::common::Number;
use numrs::matrix;
use numrs::matrix::{Matrix, MatrixError};
use numrs::solver;
use std::ops::{Add, Div, Mul, Sub};

/// A double-precision element type for the solver.
#[derive(Clone, Copy, Debug, PartialEq)]
struct Real(f64);

impl Add for Real {
    type Output = Real;

    fn add(self, rhs: Real) -> Real {
        Real(self.0 + rhs.0)
    }
}

impl Sub for Real {
    type Output = Real;

    fn sub(self, rhs: Real) -> Real {
        Real(self.0 - rhs.0)
    }
}

impl Mul for Real {
    type Output = Real;

    fn mul(self, rhs: Real) -> Real {
        Real(self.0 * rhs.0)
    }
}

impl Div for Real {
    type Output = Real;

    fn div(self, rhs: Real) -> Real {
        Real(self.0 / rhs.0)
    }
}

impl Number for Real {
    fn zero_spec() -> Real {
        Real(0.0)
    }

    fn one_spec() -> Real {
        Real(1.0)
    }

    fn zero() -> Real {
        Real(0.0)
    }

    fn one() -> Real {
        Real(1.0)
    }

    fn lemma_exact_arithmetic() {}
}

fn reals(values: &[f64]) -> Vec<Real> {
    values.iter().map(|v| Real(*v)).collect()
}

fn assert_nearby(lhs: Real, rhs: f64) {
    assert!((lhs.0 - rhs).abs() < 0.0001);
}

#[test]
fn solver_test_gauss_seidel() {
    let a_elems = reals(&[16.0, 3.0, 7.0, -11.0]);
    let b_elems = reals(&[11.0, 13.0]);
    let a = matrix::from_elems(2, 2, a_elems.as_slice()).unwrap();
    let b = matrix::from_elems(2, 1, b_elems.as_slice()).unwrap();
    let mut x = Matrix::new(2, 1, Real(1.0));
    x = solver::gauss_seidel(a, b, x, 1000).unwrap();
    assert_nearby(x.get(0, 0).unwrap(), 0.8122);
    assert_nearby(x.get(1, 0).unwrap(), -0.6650);
}

#[test]
fn gauss_seidel_one_sweep_uses_the_rows_already_replaced() {
    let a = matrix::from_elems(2, 2, reals(&[2.0, 1.0, 1.0, 3.0]).as_slice()).unwrap();
    let b = matrix::from_elems(2, 1, reals(&[5.0, 10.0]).as_slice()).unwrap();
    let x = Matrix::new(2, 1, Real(0.0));
    let x = solver::gauss_seidel(a, b, x, 1).unwrap();
    // x0 = (5 - 1 * 0) / 2, then x1 = (10 - 1 * x0) / 3 with the new x0
    assert_eq!(x.get(0, 0), Ok(Real(2.5)));
    assert_eq!(x.get(1, 0), Ok(Real(2.5)));
}

#[test]
fn gauss_seidel_two_sweeps_on_integers() {
    let a = matrix::from_elems(2, 2, &[2i64, 1, 1, 3]).unwrap();
    let b = matrix::from_elems(2, 1, &[5i64, 10]).unwrap();
    let x = Matrix::new(2, 1, 0i64);
    // sweep 1: x0 = 5 / 2 = 2, x1 = (10 - 2) / 3 = 2
    // sweep 2: x0 = (5 - 2) / 2 = 1, x1 = (10 - 1) / 3 = 3
    let x = solver::gauss_seidel(a, b, x, 2).unwrap();
    assert_eq!(x.get_vec(), vec![1, 3]);
}

#[test]
fn gauss_seidel_without_sweeps_returns_the_guess() {
    let a = Matrix::new(1, 1, 1i64);
    let b = Matrix::new(1, 1, 1i64);
    let x = matrix::from_elems(2, 1, &[4i64, 9]).unwrap();
    let x = solver::gauss_seidel(a, b, x, 0).unwrap();
    assert_eq!(x.get_vec(), vec![4, 9]);
}

#[test]
fn gauss_seidel_on_a_guess_without_rows_reads_nothing() {
    let a = Matrix::new(0, 0, 1i64);
    let b = Matrix::new(0, 0, 1i64);
    let x = Matrix::new(0, 1, 1i64);
    let x = solver::gauss_seidel(a, b, x, 5).unwrap();
    assert_eq!(x.num_rows(), 0);
    assert_eq!(x.num_cols(), 1);
}

#[test]
fn gauss_seidel_refuses_a_short_right_hand_side() {
    let a = Matrix::new(2, 2, 1i64);
    let b = Matrix::new(1, 1, 1i64);
    let x = Matrix::new(2, 1, 1i64);
    let r = solver::gauss_seidel(a, b, x, 3);
    assert_eq!(r.err(), Some(MatrixError::IndexOutOfBounds { row: 1, col: 0 }));
}

#[test]
fn gauss_seidel_refuses_a_small_coefficient_matrix() {
    let a = Matrix::new(2, 1, 1i64);
    let b = Matrix::new(2, 1, 1i64);
    let x = Matrix::new(2, 1, 1i64);
    let r = solver::gauss_seidel(a, b, x, 3);
    assert_eq!(r.err(), Some(MatrixError::IndexOutOfBounds { row: 1, col: 1 }));
}

#[test]
fn gauss_seidel_refuses_a_guess_without_columns() {
    let a = Matrix::new(2, 2, 1i64);
    let b = Matrix::new(2, 1, 1i64);
    let x = Matrix::new(2, 0, 1i64);
    let r = solver::gauss_seidel(a, b, x, 3);
    assert_eq!(r.err(), Some(MatrixError::IndexOutOfBounds { row: 1, col: 0 }));
}

#[test]
fn gauss_seidel_reads_only_the_first_columns_of_larger_matrices() {
    // a is 2 x 3 and b is 3 x 2: more than a guess of two rows needs
    let a = matrix::from_elems(2, 3, reals(&[2.0, 1.0, 99.0, 1.0, 3.0, 99.0]).as_slice()).unwrap();
    let b = matrix::from_elems(3, 2, reals(&[5.0, 99.0, 10.0, 99.0, 99.0, 99.0]).as_slice())
        .unwrap();
    let x = Matrix::new(2, 1, Real(0.0));
    let x = solver::gauss_seidel(a, b, x, 1).unwrap();
    assert_eq!(x.get(0, 0), Ok(Real(2.5)));
    assert_eq!(x.get(1, 0), Ok(Real(2.5)));
}
