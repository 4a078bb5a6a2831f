//! Kinds of numbers.

use vstd::prelude::*;

verus! {

/// A kind of integer with a least and a greatest value, none of them
/// beyond what 64 bits hold.
pub trait BoundedInteger: Sized + Copy {
    /// The least integer of this kind.
    spec fn least() -> int;

    /// The greatest integer of this kind.
    spec fn greatest() -> int;

    /// The integer that this value is.
    spec fn number(self) -> int;

    /// The integer that this value is.
    fn to_number(self) -> (number: i128)
        ensures
            number == self.number(),
            Self::least() <= number <= Self::greatest(),
    ;

    /// The value that is the given integer.
    fn from_number(number: i128) -> (value: Self)
        requires
            Self::least() <= number <= Self::greatest(),
        ensures
            value.number() == number,
    ;

    /// The range of the kind lies within what 64 bits hold, signed or
    /// unsigned.
    proof fn lemma_range()
        ensures
            -0x8000_0000_0000_0000 <= Self::least() <= 0,
            0 <= Self::greatest() <= 0xFFFF_FFFF_FFFF_FFFF,
    ;

    /// A value is the integer that it is, and nothing else.
    proof fn lemma_number_is_injective(self, other: Self)
        requires
            self.number() == other.number(),
        ensures
            self == other,
    ;

    /// The least integer of this kind.
    fn least_number() -> (number: i128)
        ensures
            number == Self::least(),
    ;

    /// The greatest integer of this kind.
    fn greatest_number() -> (number: i128)
        ensures
            number == Self::greatest(),
    ;
}

impl BoundedInteger for u8 {
    open spec fn least() -> int {
        0
    }

    open spec fn greatest() -> int {
        0xFF
    }

    open spec fn number(self) -> int {
        self as int
    }

    fn to_number(self) -> (number: i128) {
        self as i128
    }

    fn from_number(number: i128) -> (value: Self) {
        number as u8
    }

    proof fn lemma_range() {
    }

    proof fn lemma_number_is_injective(self, other: Self) {
    }

    fn least_number() -> (number: i128) {
        u8::MIN as i128
    }

    fn greatest_number() -> (number: i128) {
        u8::MAX as i128
    }
}

impl BoundedInteger for u16 {
    open spec fn least() -> int {
        0
    }

    open spec fn greatest() -> int {
        0xFFFF
    }

    open spec fn number(self) -> int {
        self as int
    }

    fn to_number(self) -> (number: i128) {
        self as i128
    }

    fn from_number(number: i128) -> (value: Self) {
        number as u16
    }

    proof fn lemma_range() {
    }

    proof fn lemma_number_is_injective(self, other: Self) {
    }

    fn least_number() -> (number: i128) {
        u16::MIN as i128
    }

    fn greatest_number() -> (number: i128) {
        u16::MAX as i128
    }
}

impl BoundedInteger for u32 {
    open spec fn least() -> int {
        0
    }

    open spec fn greatest() -> int {
        0xFFFF_FFFF
    }

    open spec fn number(self) -> int {
        self as int
    }

    fn to_number(self) -> (number: i128) {
        self as i128
    }

    fn from_number(number: i128) -> (value: Self) {
        number as u32
    }

    proof fn lemma_range() {
    }

    proof fn lemma_number_is_injective(self, other: Self) {
    }

    fn least_number() -> (number: i128) {
        u32::MIN as i128
    }

    fn greatest_number() -> (number: i128) {
        u32::MAX as i128
    }
}

impl BoundedInteger for u64 {
    open spec fn least() -> int {
        0
    }

    open spec fn greatest() -> int {
        0xFFFF_FFFF_FFFF_FFFF
    }

    open spec fn number(self) -> int {
        self as int
    }

    fn to_number(self) -> (number: i128) {
        self as i128
    }

    fn from_number(number: i128) -> (value: Self) {
        number as u64
    }

    proof fn lemma_range() {
    }

    proof fn lemma_number_is_injective(self, other: Self) {
    }

    fn least_number() -> (number: i128) {
        u64::MIN as i128
    }

    fn greatest_number() -> (number: i128) {
        u64::MAX as i128
    }
}

impl BoundedInteger for usize {
    open spec fn least() -> int {
        0
    }

    open spec fn greatest() -> int {
        usize::MAX as int
    }

    open spec fn number(self) -> int {
        self as int
    }

    fn to_number(self) -> (number: i128) {
        self as i128
    }

    fn from_number(number: i128) -> (value: Self) {
        number as usize
    }

    proof fn lemma_range() {
    }

    proof fn lemma_number_is_injective(self, other: Self) {
    }

    fn least_number() -> (number: i128) {
        usize::MIN as i128
    }

    fn greatest_number() -> (number: i128) {
        usize::MAX as i128
    }
}

impl BoundedInteger for i8 {
    open spec fn least() -> int {
        -0x80
    }

    open spec fn greatest() -> int {
        0x7F
    }

    open spec fn number(self) -> int {
        self as int
    }

    fn to_number(self) -> (number: i128) {
        self as i128
    }

    fn from_number(number: i128) -> (value: Self) {
        number as i8
    }

    proof fn lemma_range() {
    }

    proof fn lemma_number_is_injective(self, other: Self) {
    }

    fn least_number() -> (number: i128) {
        i8::MIN as i128
    }

    fn greatest_number() -> (number: i128) {
        i8::MAX as i128
    }
}

impl BoundedInteger for i16 {
    open spec fn least() -> int {
        -0x8000
    }

    open spec fn greatest() -> int {
        0x7FFF
    }

    open spec fn number(self) -> int {
        self as int
    }

    fn to_number(self) -> (number: i128) {
        self as i128
    }

    fn from_number(number: i128) -> (value: Self) {
        number as i16
    }

    proof fn lemma_range() {
    }

    proof fn lemma_number_is_injective(self, other: Self) {
    }

    fn least_number() -> (number: i128) {
        i16::MIN as i128
    }

    fn greatest_number() -> (number: i128) {
        i16::MAX as i128
    }
}

impl BoundedInteger for i32 {
    open spec fn least() -> int {
        -0x8000_0000
    }

    open spec fn greatest() -> int {
        0x7FFF_FFFF
    }

    open spec fn number(self) -> int {
        self as int
    }

    fn to_number(self) -> (number: i128) {
        self as i128
    }

    fn from_number(number: i128) -> (value: Self) {
        number as i32
    }

    proof fn lemma_range() {
    }

    proof fn lemma_number_is_injective(self, other: Self) {
    }

    fn least_number() -> (number: i128) {
        i32::MIN as i128
    }

    fn greatest_number() -> (number: i128) {
        i32::MAX as i128
    }
}

impl BoundedInteger for i64 {
    open spec fn least() -> int {
        -0x8000_0000_0000_0000
    }

    open spec fn greatest() -> int {
        0x7FFF_FFFF_FFFF_FFFF
    }

    open spec fn number(self) -> int {
        self as int
    }

    fn to_number(self) -> (number: i128) {
        self as i128
    }

    fn from_number(number: i128) -> (value: Self) {
        number as i64
    }

    proof fn lemma_range() {
    }

    proof fn lemma_number_is_injective(self, other: Self) {
    }

    fn least_number() -> (number: i128) {
        i64::MIN as i128
    }

    fn greatest_number() -> (number: i128) {
        i64::MAX as i128
    }
}

impl BoundedInteger for isize {
    open spec fn least() -> int {
        isize::MIN as int
    }

    open spec fn greatest() -> int {
        isize::MAX as int
    }

    open spec fn number(self) -> int {
        self as int
    }

    fn to_number(self) -> (number: i128) {
        self as i128
    }

    fn from_number(number: i128) -> (value: Self) {
        number as isize
    }

    proof fn lemma_range() {
    }

    proof fn lemma_number_is_injective(self, other: Self) {
    }

    fn least_number() -> (number: i128) {
        isize::MIN as i128
    }

    fn greatest_number() -> (number: i128) {
        isize::MAX as i128
    }
}

} // verus!
