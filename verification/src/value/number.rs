//! The numeric wrappers: signed integers of 32 and 64 bits with
//! two's-complement arithmetic, and floating-point numbers carried as their
//! IEEE-754 bit patterns.

use vstd::prelude::*;
use vstd::std_specs::convert::FromSpecImpl;
use vstd::wrapping::i32_specs;
use vstd::wrapping::i64_specs;
use crate::bytes::{le_bytes, pushLe, ToBytes};
use crate::value::text::{decimal, decimal_text};
use crate::value::traits::{zero_pattern, FloatT, IntT};
use crate::value::{VALUE_FLOAT32, VALUE_FLOAT64, VALUE_INT32, VALUE_INT64};

verus! {

pub type Int32 = Int<i32>;

pub type Int64 = Int<i64>;

/// An integer value.
#[derive(Debug, PartialEq)]
pub struct Int<T: IntT> {
    value: T,
}

impl<T: IntT> Clone for Int<T> {
    fn clone(&self) -> (r: Self)
        ensures
            r == *self,
    {
        Self { value: self.value }
    }
}

impl<T: IntT> Copy for Int<T> {

}

impl<T: IntT> View for Int<T> {
    type V = T;

    closed spec fn view(&self) -> T {
        self.value
    }
}

impl<T: IntT> FromSpecImpl<T> for Int<T> {
    open spec fn obeys_from_spec() -> bool {
        true
    }

    open spec fn from_spec(value: T) -> Self {
        Int::spec_new(value)
    }
}

impl<T: IntT> From<T> for Int<T> {
    fn from(value: T) -> (r: Self)
        ensures
            r@ == value,
    {
        Self { value }
    }
}

impl<T: IntT> Int<T> {
    /// The integer `value`.
    pub closed spec fn spec_new(value: T) -> Self {
        Int { value }
    }

    pub fn new(value: T) -> (r: Self)
        ensures
            r@ == value,
            r == Self::spec_new(value),
    {
        Self { value }
    }

    pub fn value(&self) -> (v: T)
        ensures
            v == self@,
    {
        self.value
    }

    /// The decimal form: a minus sign for a negative number, then the digits
    /// without leading zeros.
    pub fn to_string(&self) -> (text: Vec<u8>)
        ensures
            text@ == decimal_text(self@.spec_wide()),
    {
        decimal(self.value.wide())
    }
}

/// The quotient of `x` by `d`, rounded toward zero.
pub open spec fn trunc_div(x: int, d: int) -> int
    recommends
        d != 0,
{
    if x >= 0 && d > 0 {
        x / d
    } else if x < 0 && d < 0 {
        (-x) / (-d)
    } else if x < 0 {
        -((-x) / d)
    } else {
        -(x / (-d))
    }
}

/// The bit pattern of `x` in 32-bit two's complement.
pub open spec fn pattern32(x: i32) -> nat {
    if x >= 0 {
        x as nat
    } else {
        (x + 0x1_0000_0000) as nat
    }
}

/// The integer whose 32-bit two's-complement pattern is `p`.
pub open spec fn of_pattern32(p: nat) -> i32
    recommends
        p < 0x1_0000_0000,
{
    if p < 0x8000_0000 {
        p as i32
    } else {
        (p - 0x1_0000_0000) as i32
    }
}

/// The bit pattern of `x` in 64-bit two's complement.
pub open spec fn pattern64(x: i64) -> nat {
    if x >= 0 {
        x as nat
    } else {
        (x + 0x1_0000_0000_0000_0000) as nat
    }
}

/// The integer whose 64-bit two's-complement pattern is `p`.
pub open spec fn of_pattern64(p: nat) -> i64
    recommends
        p < 0x1_0000_0000_0000_0000,
{
    if p < 0x8000_0000_0000_0000 {
        p as i64
    } else {
        (p - 0x1_0000_0000_0000_0000) as i64
    }
}

/// Computes the 32-bit two's-complement pattern of `x`.
pub fn toPattern32(x: i32) -> (p: u32)
    ensures
        p == pattern32(x),
{
    if x >= 0 {
        x as u32
    } else {
        (x as i64 + 0x1_0000_0000) as u32
    }
}

/// Computes the integer whose 32-bit two's-complement pattern is `p`.
pub fn fromPattern32(p: u32) -> (x: i32)
    ensures
        x == of_pattern32(p as nat),
        pattern32(x) == p,
{
    if p < 0x8000_0000 {
        p as i32
    } else {
        (p as i64 - 0x1_0000_0000) as i32
    }
}

/// Computes the 64-bit two's-complement pattern of `x`.
pub fn toPattern64(x: i64) -> (p: u64)
    ensures
        p == pattern64(x),
{
    if x >= 0 {
        x as u64
    } else {
        (x as i128 + 0x1_0000_0000_0000_0000) as u64
    }
}

/// Computes the integer whose 64-bit two's-complement pattern is `p`.
pub fn fromPattern64(p: u64) -> (x: i64)
    ensures
        x == of_pattern64(p as nat),
        pattern64(x) == p,
{
    if p < 0x8000_0000_0000_0000 {
        p as i64
    } else {
        (p as i128 - 0x1_0000_0000_0000_0000) as i64
    }
}

impl Int<i32> {
    /// The sum, wrapped to 32 bits.
    pub fn add(self, rhs: i32) -> (r: Self)
        ensures
            r@ == i32_specs::wrapping_add(self@, rhs),
    {
        Self { value: self.value.wrapping_add(rhs) }
    }

    /// The difference, wrapped to 32 bits.
    pub fn sub(self, rhs: i32) -> (r: Self)
        ensures
            r@ == i32_specs::wrapping_sub(self@, rhs),
    {
        Self { value: self.value.wrapping_sub(rhs) }
    }

    /// The product, wrapped to 32 bits.
    pub fn mul(self, rhs: i32) -> (r: Self)
        ensures
            r@ == i32_specs::wrapping_mul(self@, rhs),
    {
        Self { value: self.value.wrapping_mul(rhs) }
    }

    /// The quotient rounded toward zero, wrapped to 32 bits.
    pub fn div(self, rhs: i32) -> (r: Self)
        requires
            rhs != 0,
        ensures
            r@ == i32_specs::signed_crop(trunc_div(self@ as int, rhs as int)),
    {
        match self.value.checked_div(rhs) {
            Some(q) => Self { value: q },
            None => {
                proof {
                    lemma_quotient_bound(self.value as int, rhs as int);
                }
                Self { value: i32::MIN }
            },
        }
    }

    /// The same number in 64 bits.
    pub fn widen(self) -> (r: Int64)
        ensures
            r@ == self@,
    {
        Int { value: self.value as i64 }
    }
}

impl Int<i64> {
    /// The sum, wrapped to 64 bits.
    pub fn add(self, rhs: i64) -> (r: Self)
        ensures
            r@ == i64_specs::wrapping_add(self@, rhs),
    {
        Self { value: self.value.wrapping_add(rhs) }
    }

    /// The difference, wrapped to 64 bits.
    pub fn sub(self, rhs: i64) -> (r: Self)
        ensures
            r@ == i64_specs::wrapping_sub(self@, rhs),
    {
        Self { value: self.value.wrapping_sub(rhs) }
    }

    /// The product, wrapped to 64 bits.
    pub fn mul(self, rhs: i64) -> (r: Self)
        ensures
            r@ == i64_specs::wrapping_mul(self@, rhs),
    {
        Self { value: self.value.wrapping_mul(rhs) }
    }

    /// The quotient rounded toward zero, wrapped to 64 bits.
    pub fn div(self, rhs: i64) -> (r: Self)
        requires
            rhs != 0,
        ensures
            r@ == i64_specs::signed_crop(trunc_div(self@ as int, rhs as int)),
    {
        match self.value.checked_div(rhs) {
            Some(q) => Self { value: q },
            None => {
                proof {
                    lemma_quotient_bound(self.value as int, rhs as int);
                }
                Self { value: i64::MIN }
            },
        }
    }
}

/// A quotient rounded toward zero is no larger in magnitude than the dividend.
pub proof fn lemma_quotient_bound(x: int, d: int)
    requires
        d != 0,
    ensures
        x >= 0 ==> -x <= trunc_div(x, d) <= x,
        x < 0 ==> x <= trunc_div(x, d) <= -x,
        (d != -1 && d != 1) ==> (x >= 0 ==> 2 * trunc_div(x, d) <= x && -x <= 2 * trunc_div(x, d)),
        (d != -1 && d != 1) ==> (x < 0 ==> 2 * trunc_div(x, d) <= -x && x <= 2 * trunc_div(x, d)),
        d == 1 ==> trunc_div(x, d) == x,
        d == -1 ==> trunc_div(x, d) == -x,
{
    let ax = if x >= 0 { x } else { -x };
    let ad = if d > 0 { d } else { -d };
    let q = ax / ad;
    assert(0 <= q <= ax && (ad >= 2 ==> 2 * q <= ax) && (ad == 1 ==> q == ax)) by (nonlinear_arith)
        requires
            ax >= 0,
            ad >= 1,
            q == ax / ad,
    ;
}

impl ToBytes for Int<i32> {
    open spec fn wire(&self) -> Seq<u8> {
        seq![VALUE_INT32] + le_bytes(pattern32(self@), 4)
    }

    fn bytes(&self) -> (out: Vec<u8>) {
        let mut out: Vec<u8> = Vec::with_capacity(5);
        out.push(VALUE_INT32);
        pushLe(&mut out, toPattern32(self.value) as u64, 4);
        out
    }
}

impl ToBytes for Int<i64> {
    open spec fn wire(&self) -> Seq<u8> {
        seq![VALUE_INT64] + le_bytes(pattern64(self@), 8)
    }

    fn bytes(&self) -> (out: Vec<u8>) {
        let mut out: Vec<u8> = Vec::with_capacity(9);
        out.push(VALUE_INT64);
        pushLe(&mut out, toPattern64(self.value), 8);
        out
    }
}

pub type Float32 = Float<u32>;

pub type Float64 = Float<u64>;

/// A floating-point value, held as the bits of its IEEE-754 encoding.
#[derive(Debug, PartialEq)]
pub struct Float<T: FloatT> {
    value: T,
}

impl<T: FloatT> Clone for Float<T> {
    fn clone(&self) -> (r: Self)
        ensures
            r == *self,
    {
        Self { value: self.value }
    }
}

impl<T: FloatT> Copy for Float<T> {

}

impl<T: FloatT> View for Float<T> {
    type V = T;

    closed spec fn view(&self) -> T {
        self.value
    }
}

impl<F: FloatT> FromSpecImpl<F> for Float<F> {
    open spec fn obeys_from_spec() -> bool {
        true
    }

    open spec fn from_spec(value: F) -> Self {
        Float::spec_new(value)
    }
}

impl<F: FloatT> From<F> for Float<F> {
    fn from(value: F) -> (r: Self)
        ensures
            r@ == value,
    {
        Self { value }
    }
}

impl<F: FloatT> Float<F> {
    /// The number with the bit pattern `value`.
    pub closed spec fn spec_new(value: F) -> Self {
        Float { value }
    }

    /// The number with the bit pattern `value`.
    pub fn new(value: F) -> (r: Self)
        ensures
            r@ == value,
            r == Self::spec_new(value),
    {
        Self { value }
    }

    /// The bit pattern of the number.
    pub fn value(&self) -> (v: F)
        ensures
            v == self@,
    {
        self.value
    }

    /// Whether the number is positive or negative zero.
    pub fn isZero(&self) -> (z: bool)
        ensures
            z == zero_pattern(self@.spec_pattern(), F::spec_width()),
    {
        self.value.isZero()
    }
}

impl ToBytes for Float<u32> {
    open spec fn wire(&self) -> Seq<u8> {
        seq![VALUE_FLOAT32] + le_bytes(self@ as nat, 4)
    }

    fn bytes(&self) -> (out: Vec<u8>) {
        let mut out: Vec<u8> = Vec::with_capacity(5);
        out.push(VALUE_FLOAT32);
        pushLe(&mut out, self.value.pattern(), 4);
        out
    }
}

impl ToBytes for Float<u64> {
    open spec fn wire(&self) -> Seq<u8> {
        seq![VALUE_FLOAT64] + le_bytes(self@ as nat, 8)
    }

    fn bytes(&self) -> (out: Vec<u8>) {
        let mut out: Vec<u8> = Vec::with_capacity(9);
        out.push(VALUE_FLOAT64);
        pushLe(&mut out, self.value.pattern(), 8);
        out
    }
}

} // verus!
