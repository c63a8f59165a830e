//! Floating-point numbers, as far as the library looks into them: which one is less, and how they
//! are written.
//!
//! A number is held by its bits in the binary interchange format of IEEE 754, together with its
//! text. Reading one from text, widening it or computing with it is up to the caller.

use vstd::prelude::*;
use vstd::std_specs::cmp::PartialEqSpecImpl;

use super::order::{int_order, Order};

verus! {

/// A 32-bit floating-point number: its bits and how it is written.
#[derive(Debug)]
pub struct Float32 {
    /// The number in the binary interchange format of IEEE 754.
    pub bits: u32,
    /// The number as text.
    pub text: String,
}

/// A 64-bit floating-point number: its bits and how it is written.
#[derive(Debug)]
pub struct Float64 {
    /// The number in the binary interchange format of IEEE 754.
    pub bits: u64,
    /// The number as text.
    pub text: String,
}

/// What a floating-point number is: its bits and how it is written.
pub struct FloatView {
    /// The number in the binary interchange format of IEEE 754.
    pub bits: int,
    /// The number as text.
    pub text: Seq<char>,
}

/// The sign bit in 32 bits.
pub const SIGN_32: u32 = 0x8000_0000;

/// The least magnitude, in 32 bits, that stands for no number.
pub const NAN_32: u32 = 0x7f80_0001;

/// The sign bit in 64 bits.
pub const SIGN_64: u64 = 0x8000_0000_0000_0000;

/// The least magnitude, in 64 bits, that stands for no number.
pub const NAN_64: u64 = 0x7ff0_0000_0000_0001;

/// The bits without the sign.
pub open spec fn magnitude(bits: int, sign: int) -> int {
    if bits >= sign {
        bits - sign
    } else {
        bits
    }
}

/// The place of a number among all numbers: its magnitude, negated behind a sign. The two zeros
/// share a place.
pub open spec fn place(bits: int, sign: int) -> int {
    if bits >= sign {
        -magnitude(bits, sign)
    } else {
        bits
    }
}

/// How two numbers compare: not at all when one of them is no number, else by their places.
pub open spec fn float_order(a: int, b: int, sign: int, nan: int) -> Option<Order> {
    if magnitude(a, sign) >= nan || magnitude(b, sign) >= nan {
        None
    } else {
        Some(int_order(place(a, sign), place(b, sign)))
    }
}

/// How two 32-bit numbers compare.
pub open spec fn float32_order(a: FloatView, b: FloatView) -> Option<Order> {
    float_order(a.bits, b.bits, SIGN_32 as int, NAN_32 as int)
}

/// How two 64-bit numbers compare.
pub open spec fn float64_order(a: FloatView, b: FloatView) -> Option<Order> {
    float_order(a.bits, b.bits, SIGN_64 as int, NAN_64 as int)
}

impl View for Float32 {
    type V = FloatView;

    open spec fn view(&self) -> FloatView {
        FloatView { bits: self.bits as int, text: self.text@ }
    }
}

impl View for Float64 {
    type V = FloatView;

    open spec fn view(&self) -> FloatView {
        FloatView { bits: self.bits as int, text: self.text@ }
    }
}

fn order_bits(a: u64, b: u64, sign: u64, nan: u64) -> (r: Option<Order>)
    requires
        sign > 0,
    ensures
        r == float_order(a as int, b as int, sign as int, nan as int),
{
    let a_magnitude: u64 = if a >= sign {
        a - sign
    } else {
        a
    };
    let b_magnitude: u64 = if b >= sign {
        b - sign
    } else {
        b
    };
    if a_magnitude >= nan || b_magnitude >= nan {
        return None;
    }
    let a_place: i128 = if a >= sign {
        -(a_magnitude as i128)
    } else {
        a as i128
    };
    let b_place: i128 = if b >= sign {
        -(b_magnitude as i128)
    } else {
        b as i128
    };
    if a_place < b_place {
        Some(Order::Less)
    } else if a_place == b_place {
        Some(Order::Equal)
    } else {
        Some(Order::Greater)
    }
}

impl Clone for Float32 {
    fn clone(&self) -> (r: Float32)
        ensures
            r@ == self@,
    {
        Float32 { bits: self.bits, text: self.text.clone() }
    }
}

impl Clone for Float64 {
    fn clone(&self) -> (r: Float64)
        ensures
            r@ == self@,
    {
        Float64 { bits: self.bits, text: self.text.clone() }
    }
}

impl Float32 {
    /// How this number compares to another; not at all when one of them is no number.
    pub fn order(&self, other: &Float32) -> (r: Option<Order>)
        ensures
            r == float32_order(self@, other@),
    {
        order_bits(self.bits as u64, other.bits as u64, SIGN_32 as u64, NAN_32 as u64)
    }

    /// Whether the two numbers are equal; nothing equals what is no number.
    pub fn same(&self, other: &Float32) -> (r: bool)
        ensures
            r == (float32_order(self@, other@) == Some(Order::Equal)),
    {
        matches!(self.order(other), Some(Order::Equal))
    }
}

impl Float64 {
    /// How this number compares to another; not at all when one of them is no number.
    pub fn order(&self, other: &Float64) -> (r: Option<Order>)
        ensures
            r == float64_order(self@, other@),
    {
        order_bits(self.bits, other.bits, SIGN_64, NAN_64)
    }

    /// Whether the two numbers are equal; nothing equals what is no number.
    pub fn same(&self, other: &Float64) -> (r: bool)
        ensures
            r == (float64_order(self@, other@) == Some(Order::Equal)),
    {
        matches!(self.order(other), Some(Order::Equal))
    }
}

impl PartialEq for Float32 {
    fn eq(&self, other: &Float32) -> (r: bool) {
        self.same(other)
    }
}

impl PartialEqSpecImpl for Float32 {
    open spec fn obeys_eq_spec() -> bool {
        true
    }

    open spec fn eq_spec(&self, other: &Float32) -> bool {
        float32_order(self@, other@) == Some(Order::Equal)
    }
}

impl PartialEq for Float64 {
    fn eq(&self, other: &Float64) -> (r: bool) {
        self.same(other)
    }
}

impl PartialEqSpecImpl for Float64 {
    open spec fn obeys_eq_spec() -> bool {
        true
    }

    open spec fn eq_spec(&self, other: &Float64) -> bool {
        float64_order(self@, other@) == Some(Order::Equal)
    }
}

} // verus!
