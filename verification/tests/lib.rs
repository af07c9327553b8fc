use numrs::common::Number;
use numrs::matrix;
use numrs::matrix::Matrix;
use numrs::solver;
use std::ops::{Add, Div, Mul, Sub};

/// A double-precision element type.
#[derive(Clone, Copy, Debug, PartialEq)]
struct Real(f64);

impl Add for Real {
    type Output = Real;

    fn add(self, rhs: Real) -> Real {
        Real(self.0 + rhs.0)
    }
}

impl Sub for Real {
    type Output = Real;

    fn sub(self, rhs: Real) -> Real {
        Real(self.0 - rhs.0)
    }
}

impl Mul for Real {
    type Output = Real;

    fn mul(self, rhs: Real) -> Real {
        Real(self.0 * rhs.0)
    }
}

impl Div for Real {
    type Output = Real;

    fn div(self, rhs: Real) -> Real {
        Real(self.0 / rhs.0)
    }
}

impl Number for Real {
    fn zero_spec() -> Real {
        Real(0.0)
    }

    fn one_spec() -> Real {
        Real(1.0)
    }

    fn zero() -> Real {
        Real(0.0)
    }

    fn one() -> Real {
        Real(1.0)
    }

    fn lemma_exact_arithmetic() {}
}

fn assert_nearby(lhs: Real, rhs: f64) {
    assert!((lhs.0 - rhs).abs() < 0.0001);
}

#[test]
fn lib_test_basic_matrix() {
    let mut m = Matrix::new(2, 2, Real(0.0));
    // test is rows and columns are as expected
    assert_eq!(m.num_rows(), 2);
    assert_eq!(m.num_cols(), 2);

    // test for correctness of values
    for i in 0..m.num_rows() {
        for j in 0..m.num_cols() {
            m.set(i, j, Real((i + j) as f64)).unwrap();
        }
    }

    for i in 0..m.num_rows() {
        for j in 0..m.num_cols() {
            assert_eq!(m.get(i, j), Ok(Real((i + j) as f64)));
        }
    }
}

#[test]
fn lib_test_identity_matrix() {
    let m = matrix::identity::<Real>(5);
    for i in 0..5 {
        for j in 0..5 {
            if i == j {
                assert_eq!(m.get(i, j), Ok(Real(1.0)));
            } else {
                assert_eq!(m.get(i, j), Ok(Real(0.0)));
            }
        }
    }
}

#[test]
fn lib_test_matrix_add() {
    let mut m1 = Matrix::new(2, 2, Real(0.0));
    let mut m2 = Matrix::new(2, 2, Real(0.0));
    for i in 0..m1.num_rows() {
        for j in 0..m1.num_cols() {
            m1.set(i, j, Real((i + j) as f64)).unwrap();
            m2.set(i, j, Real((i + j) as f64)).unwrap();
        }
    }

    let res = m1.add(m2).unwrap();
    for i in 0..res.num_rows() {
        for j in 0..res.num_cols() {
            assert_eq!(res.get(i, j), Ok(Real(2.0 * ((i + j) as f64))));
        }
    }
}

#[test]
fn lib_test_matrix_multiply() {
    let mut m1 = Matrix::new(2, 2, Real(0.0));
    let mut m2 = Matrix::new(2, 2, Real(0.0));
    for i in 0..m1.num_rows() {
        for j in 0..m1.num_cols() {
            m1.set(i, j, Real((i + j) as f64)).unwrap();
            m2.set(i, j, Real((i + j) as f64)).unwrap();
        }
    }

    let res = m1.mul(m2).unwrap();
    assert_eq!(res.get(0, 0), Ok(Real(1.0)));
    assert_eq!(res.get(0, 1), Ok(Real(2.0)));
    assert_eq!(res.get(1, 0), Ok(Real(2.0)));
    assert_eq!(res.get(1, 1), Ok(Real(5.0)));
}

#[test]
fn lib_test_scalar_multiply() {
    let mut m = Matrix::new(2, 2, Real(0.0));
    for i in 0..m.num_rows() {
        for j in 0..m.num_cols() {
            m.set(i, j, Real((i + j) as f64)).unwrap();
        }
    }

    m = m.scale(Real(-1.0));
    for i in 0..m.num_rows() {
        for j in 0..m.num_cols() {
            assert_eq!(m.get(i, j), Ok(Real(-1.0 * ((i + j) as f64))));
        }
    }
}

#[test]
fn lib_test_gauss_seidel() {
    let mut a = Matrix::new(2, 2, Real(0.0));
    a.set(0, 0, Real(16.0)).unwrap();
    a.set(0, 1, Real(3.0)).unwrap();
    a.set(1, 0, Real(7.0)).unwrap();
    a.set(1, 1, Real(-11.0)).unwrap();
    let mut b = Matrix::new(2, 1, Real(0.0));
    b.set(0, 0, Real(11.0)).unwrap();
    b.set(1, 0, Real(13.0)).unwrap();
    let mut x = Matrix::new(2, 1, Real(1.0));
    x = solver::gauss_seidel(a, b, x, 1000).unwrap();
    assert_nearby(x.get(0, 0).unwrap(), 0.8122);
    assert_nearby(x.get(1, 0).unwrap(), -0.6650);
}
