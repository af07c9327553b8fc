use numrs::common::{Number, Signed};
use numrs::vector;
use numrs::vector::{Vector, VectorError};
use std::ops::{Add, Div, Mul, Neg, Sub};

/// A double-precision element type.
#[derive(Clone, Copy, Debug, PartialEq)]
struct Real(f64);

impl Add for Real {
    type Output = Real;

    fn add(self, rhs: Real) -> Real {
        Real(self.0 + rhs.0)
    }
}

impl Sub for Real {
    type Output = Real;

    fn sub(self, rhs: Real) -> Real {
        Real(self.0 - rhs.0)
    }
}

impl Mul for Real {
    type Output = Real;

    fn mul(self, rhs: Real) -> Real {
        Real(self.0 * rhs.0)
    }
}

impl Div for Real {
    type Output = Real;

    fn div(self, rhs: Real) -> Real {
        Real(self.0 / rhs.0)
    }
}

impl Neg for Real {
    type Output = Real;

    fn neg(self) -> Real {
        Real(-self.0)
    }
}

impl Number for Real {
    fn zero_spec() -> Real {
        Real(0.0)
    }

    fn one_spec() -> Real {
        Real(1.0)
    }

    fn zero() -> Real {
        Real(0.0)
    }

    fn one() -> Real {
        Real(1.0)
    }

    fn lemma_exact_arithmetic() {}
}

impl Signed for Real {
    fn lemma_exact_negation() {}

    fn lemma_neg_neg(_a: Real) {}
}

fn reals(values: &[f64]) -> Vec<Real> {
    values.iter().map(|v| Real(*v)).collect()
}

#[test]
fn test_basic_vector() {
    let mut v = Vector::new(4, Real(0.0));
    assert_eq!(v.len(), 4);
    v.set(3, Real(1.0)).unwrap();
    assert_eq!(v.get(0), Ok(Real(0.0)));
    assert_eq!(v.get(1), Ok(Real(0.0)));
    assert_eq!(v.get(2), Ok(Real(0.0)));
    assert_eq!(v.get(3), Ok(Real(1.0)));
}

#[test]
fn test_vector_add() {
    let elems = reals(&[1.0, 2.0, 3.0, 4.0]);
    let v1 = vector::from_elems(&elems);
    let v2 = vector::from_elems(&elems);
    let res = v1.add(v2).unwrap();

    assert_eq!(res.get(0), Ok(Real(2.0)));
    assert_eq!(res.get(1), Ok(Real(4.0)));
    assert_eq!(res.get(2), Ok(Real(6.0)));
    assert_eq!(res.get(3), Ok(Real(8.0)));
}

#[test]
fn test_vector_multiply() {
    let elems = reals(&[1.0, 2.0, 3.0, 4.0]);
    let v1 = vector::from_elems(&elems);
    let v2 = vector::from_elems(&elems);
    let res = v1.mul(v2).unwrap();

    assert_eq!(res.get(0), Ok(Real(1.0)));
    assert_eq!(res.get(1), Ok(Real(4.0)));
    assert_eq!(res.get(2), Ok(Real(9.0)));
    assert_eq!(res.get(3), Ok(Real(16.0)));
}

#[test]
fn vector_test_scalar_multiply() {
    let elems = reals(&[1.0, 2.0, 3.0, 4.0]);
    let v = vector::from_elems(&elems);

    let mut v_ = v.clone().neg();
    assert_eq!(v_.get(0), Ok(Real(-1.0)));
    assert_eq!(v_.get(1), Ok(Real(-2.0)));
    assert_eq!(v_.get(2), Ok(Real(-3.0)));
    assert_eq!(v_.get(3), Ok(Real(-4.0)));

    v_ = v.clone().scale(Real(2.0));
    assert_eq!(v_.get(0), Ok(Real(2.0)));
    assert_eq!(v_.get(1), Ok(Real(4.0)));
    assert_eq!(v_.get(2), Ok(Real(6.0)));
    assert_eq!(v_.get(3), Ok(Real(8.0)));
}

#[test]
fn test_vector_clone() {
    let elems = reals(&[16.0, 3.0, 7.0, -11.0]);
    let v1 = vector::from_elems(&elems);
    let v2 = v1.clone();
    assert_eq!(v2.get(0), Ok(Real(16.0)));
    assert_eq!(v2.get(1), Ok(Real(3.0)));
    assert_eq!(v2.get(2), Ok(Real(7.0)));
    assert_eq!(v2.get(3), Ok(Real(-11.0)));
}

#[test]
fn test_vector_eq() {
    let elem1 = reals(&[1.0, 2.0, 3.0, 4.0]);
    let v1 = vector::from_elems(&elem1);
    let elem2 = reals(&[1.0, 3.0, 3.0, 4.0]);
    let v2 = vector::from_elems(&elem2);
    assert!(v1 != v2)
}

#[test]
fn vector_equality_holds_of_equal_elements_only() {
    let v1 = vector::from_elems(&[1i32, 2, 3]);
    let v2 = vector::from_elems(&[1i32, 2, 3]);
    let shorter = vector::from_elems(&[1i32, 2]);
    assert!(v1 == v2);
    assert!(v1 != shorter);
    assert!(shorter != v1);
    assert!(Vector::<i32>::new(0, 0) == vector::from_elems::<i32>(&[]));
}

#[test]
fn vector_new_fills_with_the_default() {
    let v = Vector::new(3, 7u8);
    assert_eq!(v.len(), 3);
    assert_eq!(v.data, vec![7, 7, 7]);
    let empty = Vector::new(0, 7u8);
    assert_eq!(empty.len(), 0);
}

#[test]
fn vector_from_elems_copies_in_order() {
    let elems = [5u16, 4, 3];
    let v = vector::from_elems(&elems);
    assert_eq!(v.len(), 3);
    assert_eq!(v.data, vec![5, 4, 3]);
}

#[test]
fn vector_get_and_set_out_of_bounds() {
    let mut v = vector::from_elems(&[1i64, 2, 3]);
    assert_eq!(v.get(2), Ok(3));
    assert_eq!(v.get(3), Err(VectorError::IndexOutOfBounds { index: 3 }));
    assert_eq!(v.set(7, 9), Err(VectorError::IndexOutOfBounds { index: 7 }));
    assert_eq!(v.data, vec![1, 2, 3]);
    assert_eq!(v.set(0, 9), Ok(()));
    assert_eq!(v.data, vec![9, 2, 3]);
}

#[test]
fn vector_arithmetic_refuses_unequal_lengths() {
    let long = vector::from_elems(&[1i64, 2, 3]);
    let short = vector::from_elems(&[1i64, 2]);
    assert_eq!(long.clone().add(short.clone()).err(), Some(VectorError::ShapeMismatch));
    assert_eq!(long.clone().sub(short.clone()).err(), Some(VectorError::ShapeMismatch));
    assert_eq!(long.clone().mul(short.clone()).err(), Some(VectorError::ShapeMismatch));
    assert_eq!(short.add(long).err(), Some(VectorError::ShapeMismatch));
}

#[test]
fn vector_sub_takes_element_from_element() {
    let a = vector::from_elems(&[10u32, 20, 30]);
    let b = vector::from_elems(&[1u32, 2, 30]);
    assert_eq!(a.sub(b).unwrap().data, vec![9, 18, 0]);
}

#[test]
fn vector_arithmetic_leaves_clones_apart() {
    let a = vector::from_elems(&[1i8, -2, 3]);
    let mut b = a.clone();
    b.set(0, 100).unwrap();
    assert_eq!(a.data, vec![1, -2, 3]);
    assert_eq!(b.data, vec![100, -2, 3]);
    assert_eq!(a.clone().neg().data, vec![-1, 2, -3]);
    assert_eq!(a.scale(-3).data, vec![-3, 6, -9]);
}

#[test]
fn vector_add_then_sub_gives_the_first_back() {
    let a = vector::from_elems(&reals(&[1.0, 2.0, 3.0, 4.0]));
    let b = vector::from_elems(&reals(&[4.0, 3.0, 2.0, 1.0]));
    let back = a.clone().add(b.clone()).unwrap().sub(b).unwrap();
    assert!(back == a);
}
