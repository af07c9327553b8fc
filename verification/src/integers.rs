//! `Number`, `Ring` and `Signed` for the primitive integers.
//!
//! The operators of a primitive integer demand that the result fits the
//! type, so the arithmetic of vectors and matrices of integers never
//! overflows. Division demands a divisor other than zero and rounds toward
//! zero.

use crate::common::{Number, Ring, Signed};
use vstd::prelude::*;

verus! {

impl Number for i64 {
    open spec fn zero_spec() -> i64 {
        0
    }

    open spec fn one_spec() -> i64 {
        1
    }

    fn zero() -> i64 {
        0
    }

    fn one() -> i64 {
        1
    }

    proof fn lemma_exact_arithmetic() {
    }
}

impl Ring for i64 {
    open spec fn from_nat(n: nat) -> i64 {
        n as i64
    }

    open spec fn holds_nat(n: nat) -> bool {
        n <= i64::MAX
    }

    proof fn lemma_zero_neutral(a: i64) {
    }

    proof fn lemma_one_neutral(a: i64) {
    }

    proof fn lemma_zero_absorbs(a: i64) {
    }

    proof fn lemma_add_then_sub(a: i64, b: i64) {
    }

    proof fn lemma_eq_is_equality(a: i64, b: i64) {
    }

    proof fn lemma_from_nat_zero() {
    }

    proof fn lemma_from_nat_succ(n: nat) {
    }
}

impl Signed for i64 {
    proof fn lemma_exact_negation() {
    }

    proof fn lemma_neg_neg(a: i64) {
    }
}

impl Number for i32 {
    open spec fn zero_spec() -> i32 {
        0
    }

    open spec fn one_spec() -> i32 {
        1
    }

    fn zero() -> i32 {
        0
    }

    fn one() -> i32 {
        1
    }

    proof fn lemma_exact_arithmetic() {
    }
}

impl Ring for i32 {
    open spec fn from_nat(n: nat) -> i32 {
        n as i32
    }

    open spec fn holds_nat(n: nat) -> bool {
        n <= i32::MAX
    }

    proof fn lemma_zero_neutral(a: i32) {
    }

    proof fn lemma_one_neutral(a: i32) {
    }

    proof fn lemma_zero_absorbs(a: i32) {
    }

    proof fn lemma_add_then_sub(a: i32, b: i32) {
    }

    proof fn lemma_eq_is_equality(a: i32, b: i32) {
    }

    proof fn lemma_from_nat_zero() {
    }

    proof fn lemma_from_nat_succ(n: nat) {
    }
}

impl Signed for i32 {
    proof fn lemma_exact_negation() {
    }

    proof fn lemma_neg_neg(a: i32) {
    }
}

impl Number for i16 {
    open spec fn zero_spec() -> i16 {
        0
    }

    open spec fn one_spec() -> i16 {
        1
    }

    fn zero() -> i16 {
        0
    }

    fn one() -> i16 {
        1
    }

    proof fn lemma_exact_arithmetic() {
    }
}

impl Ring for i16 {
    open spec fn from_nat(n: nat) -> i16 {
        n as i16
    }

    open spec fn holds_nat(n: nat) -> bool {
        n <= i16::MAX
    }

    proof fn lemma_zero_neutral(a: i16) {
    }

    proof fn lemma_one_neutral(a: i16) {
    }

    proof fn lemma_zero_absorbs(a: i16) {
    }

    proof fn lemma_add_then_sub(a: i16, b: i16) {
    }

    proof fn lemma_eq_is_equality(a: i16, b: i16) {
    }

    proof fn lemma_from_nat_zero() {
    }

    proof fn lemma_from_nat_succ(n: nat) {
    }
}

impl Signed for i16 {
    proof fn lemma_exact_negation() {
    }

    proof fn lemma_neg_neg(a: i16) {
    }
}

impl Number for i8 {
    open spec fn zero_spec() -> i8 {
        0
    }

    open spec fn one_spec() -> i8 {
        1
    }

    fn zero() -> i8 {
        0
    }

    fn one() -> i8 {
        1
    }

    proof fn lemma_exact_arithmetic() {
    }
}

impl Ring for i8 {
    open spec fn from_nat(n: nat) -> i8 {
        n as i8
    }

    open spec fn holds_nat(n: nat) -> bool {
        n <= i8::MAX
    }

    proof fn lemma_zero_neutral(a: i8) {
    }

    proof fn lemma_one_neutral(a: i8) {
    }

    proof fn lemma_zero_absorbs(a: i8) {
    }

    proof fn lemma_add_then_sub(a: i8, b: i8) {
    }

    proof fn lemma_eq_is_equality(a: i8, b: i8) {
    }

    proof fn lemma_from_nat_zero() {
    }

    proof fn lemma_from_nat_succ(n: nat) {
    }
}

impl Signed for i8 {
    proof fn lemma_exact_negation() {
    }

    proof fn lemma_neg_neg(a: i8) {
    }
}

impl Number for u64 {
    open spec fn zero_spec() -> u64 {
        0
    }

    open spec fn one_spec() -> u64 {
        1
    }

    fn zero() -> u64 {
        0
    }

    fn one() -> u64 {
        1
    }

    proof fn lemma_exact_arithmetic() {
    }
}

impl Ring for u64 {
    open spec fn from_nat(n: nat) -> u64 {
        n as u64
    }

    open spec fn holds_nat(n: nat) -> bool {
        n <= u64::MAX
    }

    proof fn lemma_zero_neutral(a: u64) {
    }

    proof fn lemma_one_neutral(a: u64) {
    }

    proof fn lemma_zero_absorbs(a: u64) {
    }

    proof fn lemma_add_then_sub(a: u64, b: u64) {
    }

    proof fn lemma_eq_is_equality(a: u64, b: u64) {
    }

    proof fn lemma_from_nat_zero() {
    }

    proof fn lemma_from_nat_succ(n: nat) {
    }
}

impl Number for u32 {
    open spec fn zero_spec() -> u32 {
        0
    }

    open spec fn one_spec() -> u32 {
        1
    }

    fn zero() -> u32 {
        0
    }

    fn one() -> u32 {
        1
    }

    proof fn lemma_exact_arithmetic() {
    }
}

impl Ring for u32 {
    open spec fn from_nat(n: nat) -> u32 {
        n as u32
    }

    open spec fn holds_nat(n: nat) -> bool {
        n <= u32::MAX
    }

    proof fn lemma_zero_neutral(a: u32) {
    }

    proof fn lemma_one_neutral(a: u32) {
    }

    proof fn lemma_zero_absorbs(a: u32) {
    }

    proof fn lemma_add_then_sub(a: u32, b: u32) {
    }

    proof fn lemma_eq_is_equality(a: u32, b: u32) {
    }

    proof fn lemma_from_nat_zero() {
    }

    proof fn lemma_from_nat_succ(n: nat) {
    }
}

impl Number for u16 {
    open spec fn zero_spec() -> u16 {
        0
    }

    open spec fn one_spec() -> u16 {
        1
    }

    fn zero() -> u16 {
        0
    }

    fn one() -> u16 {
        1
    }

    proof fn lemma_exact_arithmetic() {
    }
}

impl Ring for u16 {
    open spec fn from_nat(n: nat) -> u16 {
        n as u16
    }

    open spec fn holds_nat(n: nat) -> bool {
        n <= u16::MAX
    }

    proof fn lemma_zero_neutral(a: u16) {
    }

    proof fn lemma_one_neutral(a: u16) {
    }

    proof fn lemma_zero_absorbs(a: u16) {
    }

    proof fn lemma_add_then_sub(a: u16, b: u16) {
    }

    proof fn lemma_eq_is_equality(a: u16, b: u16) {
    }

    proof fn lemma_from_nat_zero() {
    }

    proof fn lemma_from_nat_succ(n: nat) {
    }
}

impl Number for u8 {
    open spec fn zero_spec() -> u8 {
        0
    }

    open spec fn one_spec() -> u8 {
        1
    }

    fn zero() -> u8 {
        0
    }

    fn one() -> u8 {
        1
    }

    proof fn lemma_exact_arithmetic() {
    }
}

impl Ring for u8 {
    open spec fn from_nat(n: nat) -> u8 {
        n as u8
    }

    open spec fn holds_nat(n: nat) -> bool {
        n <= u8::MAX
    }

    proof fn lemma_zero_neutral(a: u8) {
    }

    proof fn lemma_one_neutral(a: u8) {
    }

    proof fn lemma_zero_absorbs(a: u8) {
    }

    proof fn lemma_add_then_sub(a: u8, b: u8) {
    }

    proof fn lemma_eq_is_equality(a: u8, b: u8) {
    }

    proof fn lemma_from_nat_zero() {
    }

    proof fn lemma_from_nat_succ(n: nat) {
    }
}

impl Number for usize {
    open spec fn zero_spec() -> usize {
        0
    }

    open spec fn one_spec() -> usize {
        1
    }

    fn zero() -> usize {
        0
    }

    fn one() -> usize {
        1
    }

    proof fn lemma_exact_arithmetic() {
    }
}

impl Ring for usize {
    open spec fn from_nat(n: nat) -> usize {
        n as usize
    }

    open spec fn holds_nat(n: nat) -> bool {
        n <= usize::MAX
    }

    proof fn lemma_zero_neutral(a: usize) {
    }

    proof fn lemma_one_neutral(a: usize) {
    }

    proof fn lemma_zero_absorbs(a: usize) {
    }

    proof fn lemma_add_then_sub(a: usize, b: usize) {
    }

    proof fn lemma_eq_is_equality(a: usize, b: usize) {
    }

    proof fn lemma_from_nat_zero() {
    }

    proof fn lemma_from_nat_succ(n: nat) {
    }
}

} // verus!
