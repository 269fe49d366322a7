//! What the numeric wrappers need from the machine types they hold.

use vstd::prelude::*;

verus! {

/// A signed machine integer that a value can hold.
pub trait IntT: Copy {
    /// The number itself.
    spec fn spec_wide(self) -> int;

    /// The number, widened to 64 bits.
    fn wide(self) -> (w: i64)
        ensures
            w == self.spec_wide(),
    ;
}

impl IntT for i32 {
    open spec fn spec_wide(self) -> int {
        self as int
    }

    fn wide(self) -> (w: i64) {
        self as i64
    }
}

impl IntT for i64 {
    open spec fn spec_wide(self) -> int {
        self as int
    }

    fn wide(self) -> (w: i64) {
        self
    }
}

/// The bit pattern of an IEEE-754 number: 32 bits for binary32, 64 bits for
/// binary64. The library carries floating-point numbers as their bits and
/// never computes with them.
pub trait FloatT: Copy {
    /// The pattern, as a number.
    spec fn spec_pattern(self) -> nat;

    /// How many bytes the pattern takes.
    spec fn spec_width() -> nat;

    /// The pattern, widened to 64 bits.
    fn pattern(self) -> (p: u64)
        ensures
            p == self.spec_pattern(),
    ;

    /// Whether the pattern is that of positive or negative zero: every bit
    /// clear, but possibly the sign bit.
    fn isZero(self) -> (z: bool)
        ensures
            z == zero_pattern(self.spec_pattern(), Self::spec_width()),
    ;
}

/// Whether `pattern`, `width` bytes wide, is positive or negative zero.
pub open spec fn zero_pattern(pattern: nat, width: nat) -> bool {
    pattern == 0 || (width == 4 && pattern == 0x8000_0000) || (width == 8 && pattern
        == 0x8000_0000_0000_0000)
}

impl FloatT for u32 {
    open spec fn spec_pattern(self) -> nat {
        self as nat
    }

    open spec fn spec_width() -> nat {
        4
    }

    fn pattern(self) -> (p: u64) {
        self as u64
    }

    fn isZero(self) -> (z: bool) {
        self == 0 || self == 0x8000_0000
    }
}

impl FloatT for u64 {
    open spec fn spec_pattern(self) -> nat {
        self as nat
    }

    open spec fn spec_width() -> nat {
        8
    }

    fn pattern(self) -> (p: u64) {
        self
    }

    fn isZero(self) -> (z: bool) {
        self == 0 || self == 0x8000_0000_0000_0000
    }
}

} // verus!
