//! The integer types whose decimal text fits the handle's buffer.

use vstd::prelude::*;

use crate::decimal::{max_supported, min_supported};

verus! {

/// An integer of at most 64 bits, signed or unsigned, that can be written in
/// decimal into a `DecInt`.
///
/// 128-bit integers are left out on purpose: the decimal text of the
/// largest of them does not fit the buffer.
pub trait DecimalInteger: Copy {
    /// The mathematical value of the integer.
    spec fn int_value(&self) -> int;

    /// The same value as an `i128`, which holds every supported value.
    fn to_i128(self) -> (r: i128)
        ensures
            r as int == self.int_value(),
            min_supported() <= r as int <= max_supported(),
    ;
}

impl DecimalInteger for i8 {
    open spec fn int_value(&self) -> int {
        *self as int
    }

    fn to_i128(self) -> (r: i128) {
        self as i128
    }
}

impl DecimalInteger for i16 {
    open spec fn int_value(&self) -> int {
        *self as int
    }

    fn to_i128(self) -> (r: i128) {
        self as i128
    }
}

impl DecimalInteger for i32 {
    open spec fn int_value(&self) -> int {
        *self as int
    }

    fn to_i128(self) -> (r: i128) {
        self as i128
    }
}

impl DecimalInteger for i64 {
    open spec fn int_value(&self) -> int {
        *self as int
    }

    fn to_i128(self) -> (r: i128) {
        self as i128
    }
}

impl DecimalInteger for isize {
    open spec fn int_value(&self) -> int {
        *self as int
    }

    fn to_i128(self) -> (r: i128) {
        self as i128
    }
}

impl DecimalInteger for u8 {
    open spec fn int_value(&self) -> int {
        *self as int
    }

    fn to_i128(self) -> (r: i128) {
        self as i128
    }
}

impl DecimalInteger for u16 {
    open spec fn int_value(&self) -> int {
        *self as int
    }

    fn to_i128(self) -> (r: i128) {
        self as i128
    }
}

impl DecimalInteger for u32 {
    open spec fn int_value(&self) -> int {
        *self as int
    }

    fn to_i128(self) -> (r: i128) {
        self as i128
    }
}

impl DecimalInteger for u64 {
    open spec fn int_value(&self) -> int {
        *self as int
    }

    fn to_i128(self) -> (r: i128) {
        self as i128
    }
}

impl DecimalInteger for usize {
    open spec fn int_value(&self) -> int {
        *self as int
    }

    fn to_i128(self) -> (r: i128) {
        self as i128
    }
}

} // verus!
