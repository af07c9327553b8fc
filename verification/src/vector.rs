//! A 1D Vector type
//!
//! A `Vector` owns a sequence of numbers of fixed length. Its arithmetic
//! works element by element and returns a new `Vector`; operands of unequal
//! length are refused with an error.

use crate::common::{Number, Signed};
use std::ops::{Add, Mul, Neg, Sub};
use vstd::prelude::*;
use vstd::std_specs::cmp::{PartialEqSpec, PartialEqSpecImpl};
use vstd::std_specs::ops::{AddSpec, MulSpec, NegSpec, SubSpec};

verus! {

/// Why an operation on a `Vector` was refused.
#[derive(Clone, Copy, Debug, PartialEq, Eq)]
pub enum VectorError {
    /// The two operands differ in length.
    ShapeMismatch,
    /// The index is not below the length.
    IndexOutOfBounds { index: usize },
}

/// 1D Vector
#[derive(Debug)]
pub struct Vector<T: Number> {
    pub data: Vec<T>,
}

impl<T: Number> View for Vector<T> {
    type V = Seq<T>;

    open spec fn view(&self) -> Seq<T> {
        self.data@
    }
}

/// Whether `a[i] + b[i]` is defined at every index of `a`.
pub open spec fn seq_add_req<T: Number>(a: Seq<T>, b: Seq<T>) -> bool {
    forall|i: int| 0 <= i < a.len() ==> #[trigger] a[i].add_req(b[i])
}

/// The sequence of the sums `a[i] + b[i]`.
pub open spec fn seq_add<T: Number>(a: Seq<T>, b: Seq<T>) -> Seq<T> {
    Seq::new(a.len(), |i: int| a[i].add_spec(b[i]))
}

/// Whether `a[i] - b[i]` is defined at every index of `a`.
pub open spec fn seq_sub_req<T: Number>(a: Seq<T>, b: Seq<T>) -> bool {
    forall|i: int| 0 <= i < a.len() ==> #[trigger] a[i].sub_req(b[i])
}

/// The sequence of the differences `a[i] - b[i]`.
pub open spec fn seq_sub<T: Number>(a: Seq<T>, b: Seq<T>) -> Seq<T> {
    Seq::new(a.len(), |i: int| a[i].sub_spec(b[i]))
}

/// Whether `a[i] * b[i]` is defined at every index of `a`.
pub open spec fn seq_mul_req<T: Number>(a: Seq<T>, b: Seq<T>) -> bool {
    forall|i: int| 0 <= i < a.len() ==> #[trigger] a[i].mul_req(b[i])
}

/// The sequence of the products `a[i] * b[i]`.
pub open spec fn seq_mul<T: Number>(a: Seq<T>, b: Seq<T>) -> Seq<T> {
    Seq::new(a.len(), |i: int| a[i].mul_spec(b[i]))
}

/// Whether `c * a[i]` is defined at every index of `a`.
pub open spec fn seq_scale_req<T: Number>(c: T, a: Seq<T>) -> bool {
    forall|i: int| 0 <= i < a.len() ==> c.mul_req(#[trigger] a[i])
}

/// The sequence of the products `c * a[i]`.
pub open spec fn seq_scale<T: Number>(c: T, a: Seq<T>) -> Seq<T> {
    Seq::new(a.len(), |i: int| c.mul_spec(a[i]))
}

/// Whether `-a[i]` is defined at every index of `a`.
pub open spec fn seq_neg_req<T: Signed>(a: Seq<T>) -> bool {
    forall|i: int| 0 <= i < a.len() ==> (#[trigger] a[i]).neg_req()
}

/// The sequence of the negations `-a[i]`.
pub open spec fn seq_neg<T: Signed>(a: Seq<T>) -> Seq<T> {
    Seq::new(a.len(), |i: int| a[i].neg_spec())
}

/// Whether `a` and `b` have one length and compare equal at every index.
pub open spec fn seq_eq<T: Number>(a: Seq<T>, b: Seq<T>) -> bool {
    &&& a.len() == b.len()
    &&& forall|i: int| 0 <= i < a.len() ==> (#[trigger] a[i]).eq_spec(&b[i])
}

impl<T: Number> Vector<T> {
    /// Returns the number of elements in the vector.
    #[inline]
    pub fn len(&self) -> (n: usize)
        ensures
            n == self@.len(),
    {
        self.data.len()
    }

    /// Creates a `Vector` of `length` elements, each of them `default`.
    pub fn new(length: usize, default: T) -> (v: Vector<T>)
        ensures
            v@ == Seq::new(length as nat, |i: int| default),
    {
        let mut d: Vec<T> = Vec::with_capacity(length);
        while d.len() < length
            invariant
                d@.len() <= length,
                forall|i: int| 0 <= i < d@.len() ==> d@[i] == default,
            decreases length - d@.len(),
        {
            d.push(default);
        }
        assert(d@ =~= Seq::new(length as nat, |i: int| default));
        Vector::<T> { data: d }
    }

    /// The element at `index`, or an error where there is none.
    pub fn get(&self, index: usize) -> (r: Result<T, VectorError>)
        ensures
            r == if index < self@.len() {
                Ok::<T, VectorError>(self@[index as int])
            } else {
                Err::<T, VectorError>(VectorError::IndexOutOfBounds { index })
            },
    {
        if index < self.data.len() {
            Ok(self.data[index])
        } else {
            Err(VectorError::IndexOutOfBounds { index })
        }
    }

    /// Puts `value` at `index`, or leaves the vector as it is and returns an
    /// error where there is no such index.
    pub fn set(&mut self, index: usize, value: T) -> (r: Result<(), VectorError>)
        ensures
            match r {
                Ok(_) => {
                    &&& index < old(self)@.len()
                    &&& final(self)@ == old(self)@.update(index as int, value)
                },
                Err(e) => {
                    &&& index >= old(self)@.len()
                    &&& e == (VectorError::IndexOutOfBounds { index })
                    &&& final(self)@ == old(self)@
                },
            },
    {
        if index < self.data.len() {
            self.data[index] = value;
            Ok(())
        } else {
            Err(VectorError::IndexOutOfBounds { index })
        }
    }

    /// The sums `self[i] + rhs[i]`. The operands must have one length.
    pub fn add(self, rhs: Vector<T>) -> (r: Result<Vector<T>, VectorError>)
        requires
            self@.len() == rhs@.len() ==> seq_add_req(self@, rhs@),
        ensures
            match r {
                Ok(v) => self@.len() == rhs@.len() && v@ == seq_add(self@, rhs@),
                Err(e) => self@.len() != rhs@.len() && e == VectorError::ShapeMismatch,
            },
    {
        if self.len() == rhs.len() {
            let n = self.len();
            let mut new_vec = Vector::<T>::new(n, T::zero());
            for i in 0..n
                invariant
                    n == self@.len(),
                    self@.len() == rhs@.len(),
                    new_vec@.len() == self@.len(),
                    seq_add_req(self@, rhs@),
                    forall|k: int| 0 <= k < i ==> new_vec@[k] == self@[k].add_spec(rhs@[k]),
            {
                proof {
                    T::lemma_exact_arithmetic();
                }
                new_vec.data[i] = self.data[i].add(rhs.data[i]);
            }
            assert(new_vec@ =~= seq_add(self@, rhs@));
            Ok(new_vec)
        } else {
            Err(VectorError::ShapeMismatch)
        }
    }

    /// The differences `self[i] - rhs[i]`. The operands must have one length.
    pub fn sub(self, rhs: Vector<T>) -> (r: Result<Vector<T>, VectorError>)
        requires
            self@.len() == rhs@.len() ==> seq_sub_req(self@, rhs@),
        ensures
            match r {
                Ok(v) => self@.len() == rhs@.len() && v@ == seq_sub(self@, rhs@),
                Err(e) => self@.len() != rhs@.len() && e == VectorError::ShapeMismatch,
            },
    {
        if self.len() == rhs.len() {
            let n = self.len();
            let mut new_vec = Vector::<T>::new(n, T::zero());
            for i in 0..n
                invariant
                    n == self@.len(),
                    self@.len() == rhs@.len(),
                    new_vec@.len() == self@.len(),
                    seq_sub_req(self@, rhs@),
                    forall|k: int| 0 <= k < i ==> new_vec@[k] == self@[k].sub_spec(rhs@[k]),
            {
                proof {
                    T::lemma_exact_arithmetic();
                }
                new_vec.data[i] = self.data[i].sub(rhs.data[i]);
            }
            assert(new_vec@ =~= seq_sub(self@, rhs@));
            Ok(new_vec)
        } else {
            Err(VectorError::ShapeMismatch)
        }
    }

    /// The products `self[i] * rhs[i]`. The operands must have one length.
    pub fn mul(self, rhs: Vector<T>) -> (r: Result<Vector<T>, VectorError>)
        requires
            self@.len() == rhs@.len() ==> seq_mul_req(self@, rhs@),
        ensures
            match r {
                Ok(v) => self@.len() == rhs@.len() && v@ == seq_mul(self@, rhs@),
                Err(e) => self@.len() != rhs@.len() && e == VectorError::ShapeMismatch,
            },
    {
        if self.len() == rhs.len() {
            let n = self.len();
            let mut new_vec = Vector::<T>::new(n, T::zero());
            for i in 0..n
                invariant
                    n == self@.len(),
                    self@.len() == rhs@.len(),
                    new_vec@.len() == self@.len(),
                    seq_mul_req(self@, rhs@),
                    forall|k: int| 0 <= k < i ==> new_vec@[k] == self@[k].mul_spec(rhs@[k]),
            {
                proof {
                    T::lemma_exact_arithmetic();
                }
                new_vec.data[i] = self.data[i].mul(rhs.data[i]);
            }
            assert(new_vec@ =~= seq_mul(self@, rhs@));
            Ok(new_vec)
        } else {
            Err(VectorError::ShapeMismatch)
        }
    }

    /// The products `rhs * self[i]` of every element with one number.
    pub fn scale(self, rhs: T) -> (v: Vector<T>)
        requires
            seq_scale_req(rhs, self@),
        ensures
            v@ == seq_scale(rhs, self@),
    {
        let n = self.len();
        let mut v = self.clone();
        for i in 0..n
            invariant
                n == self@.len(),
                v@.len() == self@.len(),
                seq_scale_req(rhs, self@),
                forall|k: int| 0 <= k < i ==> v@[k] == rhs.mul_spec(self@[k]),
        {
            proof {
                T::lemma_exact_arithmetic();
            }
            v.data[i] = rhs.mul(self.data[i]);
        }
        assert(v@ =~= seq_scale(rhs, self@));
        v
    }
}

impl<T: Signed> Vector<T> {
    /// The negations `-self[i]`.
    pub fn neg(self) -> (v: Vector<T>)
        requires
            seq_neg_req(self@),
        ensures
            v@ == seq_neg(self@),
    {
        let n = self.len();
        let mut v = self.clone();
        for i in 0..n
            invariant
                n == self@.len(),
                v@.len() == self@.len(),
                seq_neg_req(self@),
                forall|k: int| 0 <= k < i ==> v@[k] == self@[k].neg_spec(),
        {
            proof {
                T::lemma_exact_negation();
            }
            v.data[i] = self.data[i].neg();
        }
        assert(v@ =~= seq_neg(self@));
        v
    }
}

impl<T: Number> Clone for Vector<T> {
    fn clone(&self) -> (v: Vector<T>)
        ensures
            v@ == self@,
    {
        from_elems(self.data.as_slice())
    }
}

impl<T: Number> PartialEq for Vector<T> {
    fn eq(&self, other: &Vector<T>) -> (r: bool) {
        if self.len() != other.len() {
            return false;
        }
        let n = self.len();
        for i in 0..n
            invariant
                n == self@.len(),
                self@.len() == other@.len(),
                forall|k: int| 0 <= k < i ==> (#[trigger] self@[k]).eq_spec(&other@[k]),
        {
            proof {
                T::lemma_exact_arithmetic();
            }
            if self.data[i] != other.data[i] {
                return false;
            }
        }
        true
    }
}

impl<T: Number> PartialEqSpecImpl for Vector<T> {
    open spec fn obeys_eq_spec() -> bool {
        true
    }

    open spec fn eq_spec(&self, other: &Vector<T>) -> bool {
        seq_eq(self@, other@)
    }
}

impl<T: Number> Eq for Vector<T> {

}

/// Creates a `Vector` that holds the elements of the slice `elems`, in order.
pub fn from_elems<T: Number>(elems: &[T]) -> (v: Vector<T>)
    ensures
        v@ == elems@,
{
    let mut d: Vec<T> = Vec::with_capacity(elems.len());
    let mut i: usize = 0;
    while i < elems.len()
        invariant
            i <= elems@.len(),
            d@ == elems@.take(i as int),
        decreases elems@.len() - i,
    {
        d.push(elems[i]);
        i = i + 1;
        assert(d@ =~= elems@.take(i as int));
    }
    assert(elems@.take(i as int) =~= elems@);
    Vector::<T> { data: d }
}

} // verus!
