//! The integer types that can be written: each splits into a sign and
//! an unsigned magnitude, and each magnitude knows its digit count and
//! how to write its digits. The unsigned types of up to 64 bits count
//! and write their digits through the 64-bit routines, since the digits
//! of a number do not depend on the width of the type that holds it.
use crate::decimal::{decimal_digits, digit_count};
use crate::dump::{dump_len_u128, dump_len_u64, dump_u128, dump_u64};
use vstd::prelude::*;

verus! {

/// A primitive integer that can be written in decimal.
pub trait Integer {
    /// The unsigned type that holds the magnitude of this type.
    type Unsigned: Unsigned;

    /// The number this value stands for.
    spec fn int_value(self) -> int;

    /// Splits the value into the length of its sign (1 for a negative
    /// value, 0 otherwise) and its magnitude.
    fn unsigned_abs(self) -> (r: (usize, Self::Unsigned))
        ensures
            r.0 == (if self.int_value() < 0 {
                1usize
            } else {
                0usize
            }),
            r.1.nat_value() == if self.int_value() < 0 {
                -self.int_value()
            } else {
                self.int_value()
            },
    ;
}

/// An unsigned integer whose decimal digits can be counted and written.
pub trait Unsigned: Copy {
    /// The number this value stands for.
    spec fn nat_value(self) -> nat;

    /// The number of decimal digits of the value.
    fn dump_len(self) -> (r: usize)
        ensures
            r == digit_count(self.nat_value()),
            r <= 39,
    ;

    /// Writes the decimal digits of the value into `buf`, which must be
    /// exactly as long as the value has digits.
    fn unchecked_dump(self, buf: &mut [u8])
        requires
            old(buf)@.len() == digit_count(self.nat_value()),
        ensures
            final(buf)@ == decimal_digits(self.nat_value()),
    ;
}

impl Integer for i8 {
    type Unsigned = u8;

    open spec fn int_value(self) -> int {
        self as int
    }

    fn unsigned_abs(self) -> (usize, Self::Unsigned) {
        if self < 0 {
            proof {
                assert(!self == -1 - self) by (bit_vector);
                if self == i8::MIN {
                    assert(i8::MIN as u8 == 0x80u8) by (bit_vector);
                }
            }
            (1, (!self).wrapping_add(1) as u8)
        } else {
            (0, self as u8)
        }
    }
}

impl Integer for u8 {
    type Unsigned = u8;

    open spec fn int_value(self) -> int {
        self as int
    }

    fn unsigned_abs(self) -> (usize, Self::Unsigned) {
        (0, self)
    }
}

impl Integer for i16 {
    type Unsigned = u16;

    open spec fn int_value(self) -> int {
        self as int
    }

    fn unsigned_abs(self) -> (usize, Self::Unsigned) {
        if self < 0 {
            proof {
                assert(!self == -1 - self) by (bit_vector);
                if self == i16::MIN {
                    assert(i16::MIN as u16 == 0x8000u16) by (bit_vector);
                }
            }
            (1, (!self).wrapping_add(1) as u16)
        } else {
            (0, self as u16)
        }
    }
}

impl Integer for u16 {
    type Unsigned = u16;

    open spec fn int_value(self) -> int {
        self as int
    }

    fn unsigned_abs(self) -> (usize, Self::Unsigned) {
        (0, self)
    }
}

impl Integer for i32 {
    type Unsigned = u32;

    open spec fn int_value(self) -> int {
        self as int
    }

    fn unsigned_abs(self) -> (usize, Self::Unsigned) {
        if self < 0 {
            proof {
                assert(!self == -1 - self) by (bit_vector);
                if self == i32::MIN {
                    assert(i32::MIN as u32 == 0x80000000u32) by (bit_vector);
                }
            }
            (1, (!self).wrapping_add(1) as u32)
        } else {
            (0, self as u32)
        }
    }
}

impl Integer for u32 {
    type Unsigned = u32;

    open spec fn int_value(self) -> int {
        self as int
    }

    fn unsigned_abs(self) -> (usize, Self::Unsigned) {
        (0, self)
    }
}

impl Integer for i64 {
    type Unsigned = u64;

    open spec fn int_value(self) -> int {
        self as int
    }

    fn unsigned_abs(self) -> (usize, Self::Unsigned) {
        if self < 0 {
            proof {
                assert(!self == -1 - self) by (bit_vector);
                if self == i64::MIN {
                    assert(i64::MIN as u64 == 0x8000000000000000u64) by (bit_vector);
                }
            }
            (1, (!self).wrapping_add(1) as u64)
        } else {
            (0, self as u64)
        }
    }
}

impl Integer for u64 {
    type Unsigned = u64;

    open spec fn int_value(self) -> int {
        self as int
    }

    fn unsigned_abs(self) -> (usize, Self::Unsigned) {
        (0, self)
    }
}

impl Integer for i128 {
    type Unsigned = u128;

    open spec fn int_value(self) -> int {
        self as int
    }

    fn unsigned_abs(self) -> (usize, Self::Unsigned) {
        if self < 0 {
            proof {
                assert(!self == -1 - self) by (bit_vector);
                if self == i128::MIN {
                    assert(i128::MIN as u128 == 0x80000000000000000000000000000000u128) by (bit_vector);
                }
            }
            (1, (!self).wrapping_add(1) as u128)
        } else {
            (0, self as u128)
        }
    }
}

impl Integer for u128 {
    type Unsigned = u128;

    open spec fn int_value(self) -> int {
        self as int
    }

    fn unsigned_abs(self) -> (usize, Self::Unsigned) {
        (0, self)
    }
}

impl Unsigned for u8 {
    open spec fn nat_value(self) -> nat {
        self as nat
    }

    fn dump_len(self) -> usize {
        dump_len_u64(self as u64)
    }

    fn unchecked_dump(self, buf: &mut [u8]) {
        dump_u64(self as u64, buf)
    }
}

impl Unsigned for u16 {
    open spec fn nat_value(self) -> nat {
        self as nat
    }

    fn dump_len(self) -> usize {
        dump_len_u64(self as u64)
    }

    fn unchecked_dump(self, buf: &mut [u8]) {
        dump_u64(self as u64, buf)
    }
}

impl Unsigned for u32 {
    open spec fn nat_value(self) -> nat {
        self as nat
    }

    fn dump_len(self) -> usize {
        dump_len_u64(self as u64)
    }

    fn unchecked_dump(self, buf: &mut [u8]) {
        dump_u64(self as u64, buf)
    }
}

impl Unsigned for u64 {
    open spec fn nat_value(self) -> nat {
        self as nat
    }

    fn dump_len(self) -> usize {
        dump_len_u64(self as u64)
    }

    fn unchecked_dump(self, buf: &mut [u8]) {
        dump_u64(self as u64, buf)
    }
}

impl Unsigned for u128 {
    open spec fn nat_value(self) -> nat {
        self as nat
    }

    fn dump_len(self) -> usize {
        dump_len_u128(self)
    }

    fn unchecked_dump(self, buf: &mut [u8]) {
        dump_u128(self, buf)
    }
}

} // verus!
