//! The `Bitset` interface, specified over the bit-sequence model.

use vstd::prelude::*;

use crate::model::{
    and_bits, fill_bits, nand_bits, nor_bits, not_bits, or_bits, shl_bits, shr_bits, xor_bits,
};

verus! {

/// A fixed-width binary value with bitwise Boolean algebra, logical shifts
/// and single-bit access, each operation both as a pure function and in place.
pub trait Bitset: Copy {
    /// The number of bits of a value of this type.
    spec fn width() -> nat;

    /// The bits of the value, least significant first.
    spec fn bits(&self) -> Seq<bool>;

    /// A value has exactly `width()` bits.
    proof fn lemma_bits_len(x: Self)
        ensures
            x.bits().len() == Self::width(),
    ;

    /// Two values with the same bits are the same value.
    proof fn lemma_bits_injective(x: Self, y: Self)
        requires
            x.bits() == y.bits(),
        ensures
            x == y,
    ;

    /// The value with every bit set.
    fn ones() -> (r: Self)
        ensures
            r.bits() == fill_bits(Self::width(), true),
    ;

    /// The value with every bit clear.
    fn zeroes() -> (r: Self)
        ensures
            r.bits() == fill_bits(Self::width(), false),
    ;

    /// Bitwise AND.
    fn and(&self, other: Self) -> (r: Self)
        ensures
            r.bits() == and_bits(self.bits(), other.bits()),
    ;

    /// Bitwise NAND: the complement of AND.
    fn nand(&self, other: Self) -> (r: Self)
        ensures
            r.bits() == nand_bits(self.bits(), other.bits()),
    ;

    /// Logical left shift; an `amount` of at least the width gives zero.
    fn shift_left(&self, amount: usize) -> (r: Self)
        requires
            0 < Self::width() <= usize::MAX,
        ensures
            r.bits() == shl_bits(self.bits(), amount as nat),
    ;

    /// Logical right shift; an `amount` of at least the width gives zero.
    fn shift_right(&self, amount: usize) -> (r: Self)
        requires
            0 < Self::width() <= usize::MAX,
        ensures
            r.bits() == shr_bits(self.bits(), amount as nat),
    ;

    /// Bitwise OR.
    fn or(&self, other: Self) -> (r: Self)
        ensures
            r.bits() == or_bits(self.bits(), other.bits()),
    ;

    /// Bitwise exclusive OR.
    fn xor(&self, other: Self) -> (r: Self)
        ensures
            r.bits() == xor_bits(self.bits(), other.bits()),
    ;

    /// Bitwise complement.
    fn not(&self) -> (r: Self)
        ensures
            r.bits() == not_bits(self.bits()),
    ;

    /// Bitwise NOR: the complement of OR.
    fn nor(&self, other: Self) -> (r: Self)
        ensures
            r.bits() == nor_bits(self.bits(), other.bits()),
    ;

    /// In-place AND.
    fn and_mut(&mut self, other: &Self)
        ensures
            final(self).bits() == and_bits(old(self).bits(), other.bits()),
    ;

    /// In-place NAND.
    fn nand_mut(&mut self, other: &Self)
        ensures
            final(self).bits() == nand_bits(old(self).bits(), other.bits()),
    ;

    /// In-place logical left shift.
    fn shift_left_mut(&mut self, amount: usize)
        requires
            0 < Self::width() <= usize::MAX,
        ensures
            final(self).bits() == shl_bits(old(self).bits(), amount as nat),
    ;

    /// In-place logical right shift.
    fn shift_right_mut(&mut self, amount: usize)
        requires
            0 < Self::width() <= usize::MAX,
        ensures
            final(self).bits() == shr_bits(old(self).bits(), amount as nat),
    ;

    /// In-place OR.
    fn or_mut(&mut self, other: &Self)
        ensures
            final(self).bits() == or_bits(old(self).bits(), other.bits()),
    ;

    /// In-place exclusive OR.
    fn xor_mut(&mut self, other: &Self)
        ensures
            final(self).bits() == xor_bits(old(self).bits(), other.bits()),
    ;

    /// In-place complement.
    fn not_mut(&mut self)
        ensures
            final(self).bits() == not_bits(old(self).bits()),
    ;

    /// In-place NOR.
    fn nor_mut(&mut self, other: &Self)
        ensures
            final(self).bits() == nor_bits(old(self).bits(), other.bits()),
    ;

    /// Bit `field` of the value.
    fn get(&self, field: usize) -> (r: bool)
        requires
            0 < Self::width() <= usize::MAX,
            field < Self::width(),
        ensures
            r == self.bits()[field as int],
    ;

    /// Sets bit `field` to `flag`, leaving every other bit as it was.
    fn set(&mut self, field: usize, flag: bool)
        requires
            0 < Self::width() <= usize::MAX,
            field < Self::width(),
        ensures
            final(self).bits() == old(self).bits().update(field as int, flag),
    ;

    /// The width of the type, in bits.
    fn length() -> (r: usize)
        requires
            0 < Self::width() <= usize::MAX,
        ensures
            r == Self::width(),
    ;
}

} // verus!
