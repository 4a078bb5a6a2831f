//! Tracing of field lines through vector fields.

pub mod field_line;
pub mod stepping;

use vstd::prelude::*;

verus! {

/// A number in tracing precision.
///
/// The library stores, moves and serialises such numbers but never does
/// arithmetic on them, so it carries each one as the bit pattern of an
/// IEEE 754 binary64 value.
#[allow(non_camel_case_types)]
pub type ftr = u64;

/// The bit pattern of the number one.
pub const ONE: ftr = 0x3FF0_0000_0000_0000;

/// The bit pattern of positive infinity, the greatest of the patterns of
/// positive numbers.
pub const INFINITY: ftr = 0x7FF0_0000_0000_0000;

/// Whether the bit pattern is that of a number above zero.
///
/// The patterns of the numbers above zero are those from the pattern 1 up
/// to that of positive infinity: above them lie the patterns that are no
/// number and those with the sign set. Among the patterns of positive
/// numbers the order of the numbers is the order of the patterns.
pub open spec fn is_positive(x: ftr) -> bool {
    0 < x <= INFINITY
}

/// Whether the bit pattern is that of a number above zero and below one.
pub open spec fn is_positive_below_one(x: ftr) -> bool {
    0 < x < ONE
}

/// Whether the bit pattern is that of a number above one.
pub open spec fn is_above_one(x: ftr) -> bool {
    ONE < x <= INFINITY
}

} // verus!
