//! `Bitset` for the unsigned integer types: bit `i` of a value is bit `i` of
//! its binary representation, and the shifts are Rust's own, made total by
//! giving zero for an amount of at least the width.

use vstd::prelude::*;

use crate::bitset::Bitset;
use crate::model::{and_bits, fill_bits, nand_bits, nor_bits, not_bits, or_bits, shl_bits, shr_bits, xor_bits};

verus! {

/// Per-bit facts of the bitwise operators on `u8`.
proof fn lemma_u8_bitwise(x: u8, y: u8, i: u8)
    by (bit_vector)
    requires
        i < 8,
    ensures
        ((x & y) >> i) & 1 == 1 <==> (((x >> i) & 1 == 1) && ((y >> i) & 1 == 1)),
        ((x | y) >> i) & 1 == 1 <==> (((x >> i) & 1 == 1) || ((y >> i) & 1 == 1)),
        ((x ^ y) >> i) & 1 == 1 <==> (((x >> i) & 1 == 1) != ((y >> i) & 1 == 1)),
        ((!x) >> i) & 1 == 1 <==> !((x >> i) & 1 == 1),
        ((!0u8) >> i) & 1 == 1,
        !((0u8 >> i) & 1 == 1),
        ((x | (1u8 << y)) >> i) & 1 == 1 <==> ((y < 8 && i == y) || (x >> i) & 1 == 1),
        ((x & !(1u8 << y)) >> i) & 1 == 1 <==> (!(y < 8 && i == y) && (x >> i) & 1 == 1),
{
}

/// Per-bit facts of the shift operators on `u8`.
proof fn lemma_u8_shift(x: u8, n: u8, i: u8)
    by (bit_vector)
    requires
        i < 8,
        n < 8,
    ensures
        ((x << n) >> i) & 1 == 1 <==> (i >= n && ((x >> ((i - n) as u8)) & 1 == 1)),
        ((x >> n) >> i) & 1 == 1 <==> (i + n < 8 && ((x >> ((i + n) as u8)) & 1 == 1)),
{
}

/// Bit `i` of a `u8`, least significant first.
pub open spec fn u8_bit(x: u8, i: int) -> bool {
    0 <= i < 8 && (x >> (i as u8)) & 1 == 1
}

/// A `u8` is determined by its bits, read from the top down.
proof fn lemma_u8_eq_step(x: u8, y: u8, k: u8)
    by (bit_vector)
    requires
        k < 8,
    ensures
        (x >> k) >> 1 == (y >> k) >> 1 && ((x >> k) & 1 == 1) == ((y >> k) & 1 == 1)
            ==> x >> k == y >> k,
        k + 1 < 8 ==> (x >> k) >> 1 == x >> ((k + 1) as u8),
        k + 1 < 8 ==> (y >> k) >> 1 == y >> ((k + 1) as u8),
        k + 1 == 8 ==> (x >> k) >> 1 == 0 && (y >> k) >> 1 == 0,
        x >> 0 == y >> 0 ==> x == y,
{
}

/// Bits `k` and above agreeing, the values shifted right by `k` agree.
proof fn lemma_u8_eq_from(x: u8, y: u8, k: int)
    requires
        0 <= k < 8,
        forall|i: int| k <= i < 8 ==> u8_bit(x, i) == u8_bit(y, i),
    ensures
        x >> (k as u8) == y >> (k as u8),
    decreases 8 - k,
{
    lemma_u8_eq_step(x, y, k as u8);
    assert(u8_bit(x, k) == u8_bit(y, k));
    if k + 1 < 8 {
        lemma_u8_eq_from(x, y, k + 1);
    }
}

impl Bitset for u8 {
    open spec fn width() -> nat {
        8
    }

    open spec fn bits(&self) -> Seq<bool> {
        Seq::new(8, |i: int| u8_bit(*self, i))
    }

    proof fn lemma_bits_len(x: Self) {
    }

    proof fn lemma_bits_injective(x: Self, y: Self) {
        assert forall|i: int| 0 <= i < 8 implies u8_bit(x, i) == u8_bit(y, i) by {
            assert(x.bits()[i] == u8_bit(x, i));
            assert(y.bits()[i] == u8_bit(y, i));
        }
        lemma_u8_eq_from(x, y, 0);
        lemma_u8_eq_step(x, y, 0);
    }

    fn ones() -> (r: Self)
        ensures
            r == !0u8,
    {
        proof {
            assert forall|i: int| 0 <= i < 8 implies u8_bit(!0u8, i) by {
                lemma_u8_bitwise(0, 0, i as u8);
            }
            assert((!0u8).bits() =~= fill_bits(8, true));
        }
        !0
    }

    fn zeroes() -> (r: Self)
        ensures
            r == 0,
    {
        proof {
            assert forall|i: int| 0 <= i < 8 implies !u8_bit(0u8, i) by {
                lemma_u8_bitwise(0, 0, i as u8);
            }
            assert((0u8).bits() =~= fill_bits(8, false));
        }
        0
    }

    fn and(&self, other: Self) -> (r: Self)
        ensures
            r == *self & other,
    {
        let r = *self & other;
        proof {
            assert forall|i: int| 0 <= i < 8 implies u8_bit(r, i) == (u8_bit(*self, i) && u8_bit(other, i)) by {
                lemma_u8_bitwise(*self, other, i as u8);
            }
            assert(r.bits() =~= and_bits(self.bits(), other.bits()));
        }
        r
    }

    fn nand(&self, other: Self) -> (r: Self)
        ensures
            r == !(*self & other),
    {
        let r = !(*self & other);
        proof {
            assert forall|i: int| 0 <= i < 8 implies u8_bit(r, i) == !(u8_bit(*self, i) && u8_bit(other, i)) by {
                lemma_u8_bitwise(*self, other, i as u8);
                lemma_u8_bitwise(*self & other, other, i as u8);
            }
            assert(r.bits() =~= nand_bits(self.bits(), other.bits()));
        }
        r
    }

    fn shift_left(&self, amount: usize) -> (r: Self)
        ensures
            r == if amount >= 8 { 0 } else { *self << (amount as u8) },
    {
        if amount >= 8 {
            proof {
                assert forall|i: int| 0 <= i < 8 implies !u8_bit(0u8, i) by {
                    lemma_u8_bitwise(0, 0, i as u8);
                }
                assert((0u8).bits() =~= shl_bits(self.bits(), amount as nat));
            }
            0
        } else {
            let n = amount as u8;
            let r = *self << n;
            proof {
                assert forall|i: int| 0 <= i < 8 implies u8_bit(r, i) == (i >= n && u8_bit(*self, i - n)) by {
                    lemma_u8_shift(*self, n, i as u8);
                }
                assert(r.bits() =~= shl_bits(self.bits(), amount as nat));
            }
            r
        }
    }

    fn shift_right(&self, amount: usize) -> (r: Self)
        ensures
            r == if amount >= 8 { 0 } else { *self >> (amount as u8) },
    {
        if amount >= 8 {
            proof {
                assert forall|i: int| 0 <= i < 8 implies !u8_bit(0u8, i) by {
                    lemma_u8_bitwise(0, 0, i as u8);
                }
                assert((0u8).bits() =~= shr_bits(self.bits(), amount as nat));
            }
            0
        } else {
            let n = amount as u8;
            let r = *self >> n;
            proof {
                assert forall|i: int| 0 <= i < 8 implies u8_bit(r, i) == (i + n < 8 && u8_bit(*self, i + n)) by {
                    lemma_u8_shift(*self, n, i as u8);
                }
                assert(r.bits() =~= shr_bits(self.bits(), amount as nat));
            }
            r
        }
    }

    fn or(&self, other: Self) -> (r: Self)
        ensures
            r == *self | other,
    {
        let r = *self | other;
        proof {
            assert forall|i: int| 0 <= i < 8 implies u8_bit(r, i) == (u8_bit(*self, i) || u8_bit(other, i)) by {
                lemma_u8_bitwise(*self, other, i as u8);
            }
            assert(r.bits() =~= or_bits(self.bits(), other.bits()));
        }
        r
    }

    fn xor(&self, other: Self) -> (r: Self)
        ensures
            r == *self ^ other,
    {
        let r = *self ^ other;
        proof {
            assert forall|i: int| 0 <= i < 8 implies u8_bit(r, i) == (u8_bit(*self, i) != u8_bit(other, i)) by {
                lemma_u8_bitwise(*self, other, i as u8);
            }
            assert(r.bits() =~= xor_bits(self.bits(), other.bits()));
        }
        r
    }

    fn not(&self) -> (r: Self)
        ensures
            r == !*self,
    {
        let r = !*self;
        proof {
            assert forall|i: int| 0 <= i < 8 implies u8_bit(r, i) == !u8_bit(*self, i) by {
                lemma_u8_bitwise(*self, 0, i as u8);
            }
            assert(r.bits() =~= not_bits(self.bits()));
        }
        r
    }

    fn nor(&self, other: Self) -> (r: Self)
        ensures
            r == !(*self | other),
    {
        let r = !(*self | other);
        proof {
            assert forall|i: int| 0 <= i < 8 implies u8_bit(r, i) == !(u8_bit(*self, i) || u8_bit(other, i)) by {
                lemma_u8_bitwise(*self, other, i as u8);
                lemma_u8_bitwise(*self | other, other, i as u8);
            }
            assert(r.bits() =~= nor_bits(self.bits(), other.bits()));
        }
        r
    }

    fn and_mut(&mut self, other: &Self)
        ensures
            *final(self) == *old(self) & *other,
    {
        *self = Bitset::and(self, *other);
    }

    fn nand_mut(&mut self, other: &Self)
        ensures
            *final(self) == !(*old(self) & *other),
    {
        *self = Bitset::nand(self, *other);
    }

    fn shift_left_mut(&mut self, amount: usize)
        ensures
            *final(self) == if amount >= 8 { 0 } else { *old(self) << (amount as u8) },
    {
        *self = Bitset::shift_left(self, amount);
    }

    fn shift_right_mut(&mut self, amount: usize)
        ensures
            *final(self) == if amount >= 8 { 0 } else { *old(self) >> (amount as u8) },
    {
        *self = Bitset::shift_right(self, amount);
    }

    fn or_mut(&mut self, other: &Self)
        ensures
            *final(self) == *old(self) | *other,
    {
        *self = Bitset::or(self, *other);
    }

    fn xor_mut(&mut self, other: &Self)
        ensures
            *final(self) == *old(self) ^ *other,
    {
        *self = Bitset::xor(self, *other);
    }

    fn not_mut(&mut self)
        ensures
            *final(self) == !*old(self),
    {
        *self = Bitset::not(self);
    }

    fn nor_mut(&mut self, other: &Self)
        ensures
            *final(self) == !(*old(self) | *other),
    {
        *self = Bitset::nor(self, *other);
    }

    fn get(&self, field: usize) -> (r: bool) {
        (*self >> (field as u8)) & 1 == 1
    }

    fn set(&mut self, field: usize, flag: bool)
        ensures
            *final(self) == if flag { *old(self) | (1u8 << (field as u8)) } else { *old(self) & !(1u8 << (field as u8)) },
    {
        let f = field as u8;
        let x = *self;
        let r = if flag {
            x | (1 << f)
        } else {
            x & !(1 << f)
        };
        proof {
            assert forall|i: int| 0 <= i < 8 implies u8_bit(r, i) == (if i == f { flag } else { u8_bit(x, i) }) by {
                lemma_u8_bitwise(x, f, i as u8);
            }
            assert(r.bits() =~= x.bits().update(field as int, flag));
        }
        *self = r;
    }

    fn length() -> (r: usize)
        ensures
            r == 8,
    {
        8
    }
}


/// Per-bit facts of the bitwise operators on `u16`.
proof fn lemma_u16_bitwise(x: u16, y: u16, i: u16)
    by (bit_vector)
    requires
        i < 16,
    ensures
        ((x & y) >> i) & 1 == 1 <==> (((x >> i) & 1 == 1) && ((y >> i) & 1 == 1)),
        ((x | y) >> i) & 1 == 1 <==> (((x >> i) & 1 == 1) || ((y >> i) & 1 == 1)),
        ((x ^ y) >> i) & 1 == 1 <==> (((x >> i) & 1 == 1) != ((y >> i) & 1 == 1)),
        ((!x) >> i) & 1 == 1 <==> !((x >> i) & 1 == 1),
        ((!0u16) >> i) & 1 == 1,
        !((0u16 >> i) & 1 == 1),
        ((x | (1u16 << y)) >> i) & 1 == 1 <==> ((y < 16 && i == y) || (x >> i) & 1 == 1),
        ((x & !(1u16 << y)) >> i) & 1 == 1 <==> (!(y < 16 && i == y) && (x >> i) & 1 == 1),
{
}

/// Per-bit facts of the shift operators on `u16`.
proof fn lemma_u16_shift(x: u16, n: u16, i: u16)
    by (bit_vector)
    requires
        i < 16,
        n < 16,
    ensures
        ((x << n) >> i) & 1 == 1 <==> (i >= n && ((x >> ((i - n) as u16)) & 1 == 1)),
        ((x >> n) >> i) & 1 == 1 <==> (i + n < 16 && ((x >> ((i + n) as u16)) & 1 == 1)),
{
}

/// Bit `i` of a `u16`, least significant first.
pub open spec fn u16_bit(x: u16, i: int) -> bool {
    0 <= i < 16 && (x >> (i as u16)) & 1 == 1
}

/// A `u16` is determined by its bits, read from the top down.
proof fn lemma_u16_eq_step(x: u16, y: u16, k: u16)
    by (bit_vector)
    requires
        k < 16,
    ensures
        (x >> k) >> 1 == (y >> k) >> 1 && ((x >> k) & 1 == 1) == ((y >> k) & 1 == 1)
            ==> x >> k == y >> k,
        k + 1 < 16 ==> (x >> k) >> 1 == x >> ((k + 1) as u16),
        k + 1 < 16 ==> (y >> k) >> 1 == y >> ((k + 1) as u16),
        k + 1 == 16 ==> (x >> k) >> 1 == 0 && (y >> k) >> 1 == 0,
        x >> 0 == y >> 0 ==> x == y,
{
}

/// Bits `k` and above agreeing, the values shifted right by `k` agree.
proof fn lemma_u16_eq_from(x: u16, y: u16, k: int)
    requires
        0 <= k < 16,
        forall|i: int| k <= i < 16 ==> u16_bit(x, i) == u16_bit(y, i),
    ensures
        x >> (k as u16) == y >> (k as u16),
    decreases 16 - k,
{
    lemma_u16_eq_step(x, y, k as u16);
    assert(u16_bit(x, k) == u16_bit(y, k));
    if k + 1 < 16 {
        lemma_u16_eq_from(x, y, k + 1);
    }
}

impl Bitset for u16 {
    open spec fn width() -> nat {
        16
    }

    open spec fn bits(&self) -> Seq<bool> {
        Seq::new(16, |i: int| u16_bit(*self, i))
    }

    proof fn lemma_bits_len(x: Self) {
    }

    proof fn lemma_bits_injective(x: Self, y: Self) {
        assert forall|i: int| 0 <= i < 16 implies u16_bit(x, i) == u16_bit(y, i) by {
            assert(x.bits()[i] == u16_bit(x, i));
            assert(y.bits()[i] == u16_bit(y, i));
        }
        lemma_u16_eq_from(x, y, 0);
        lemma_u16_eq_step(x, y, 0);
    }

    fn ones() -> (r: Self)
        ensures
            r == !0u16,
    {
        proof {
            assert forall|i: int| 0 <= i < 16 implies u16_bit(!0u16, i) by {
                lemma_u16_bitwise(0, 0, i as u16);
            }
            assert((!0u16).bits() =~= fill_bits(16, true));
        }
        !0
    }

    fn zeroes() -> (r: Self)
        ensures
            r == 0,
    {
        proof {
            assert forall|i: int| 0 <= i < 16 implies !u16_bit(0u16, i) by {
                lemma_u16_bitwise(0, 0, i as u16);
            }
            assert((0u16).bits() =~= fill_bits(16, false));
        }
        0
    }

    fn and(&self, other: Self) -> (r: Self)
        ensures
            r == *self & other,
    {
        let r = *self & other;
        proof {
            assert forall|i: int| 0 <= i < 16 implies u16_bit(r, i) == (u16_bit(*self, i) && u16_bit(other, i)) by {
                lemma_u16_bitwise(*self, other, i as u16);
            }
            assert(r.bits() =~= and_bits(self.bits(), other.bits()));
        }
        r
    }

    fn nand(&self, other: Self) -> (r: Self)
        ensures
            r == !(*self & other),
    {
        let r = !(*self & other);
        proof {
            assert forall|i: int| 0 <= i < 16 implies u16_bit(r, i) == !(u16_bit(*self, i) && u16_bit(other, i)) by {
                lemma_u16_bitwise(*self, other, i as u16);
                lemma_u16_bitwise(*self & other, other, i as u16);
            }
            assert(r.bits() =~= nand_bits(self.bits(), other.bits()));
        }
        r
    }

    fn shift_left(&self, amount: usize) -> (r: Self)
        ensures
            r == if amount >= 16 { 0 } else { *self << (amount as u16) },
    {
        if amount >= 16 {
            proof {
                assert forall|i: int| 0 <= i < 16 implies !u16_bit(0u16, i) by {
                    lemma_u16_bitwise(0, 0, i as u16);
                }
                assert((0u16).bits() =~= shl_bits(self.bits(), amount as nat));
            }
            0
        } else {
            let n = amount as u16;
            let r = *self << n;
            proof {
                assert forall|i: int| 0 <= i < 16 implies u16_bit(r, i) == (i >= n && u16_bit(*self, i - n)) by {
                    lemma_u16_shift(*self, n, i as u16);
                }
                assert(r.bits() =~= shl_bits(self.bits(), amount as nat));
            }
            r
        }
    }

    fn shift_right(&self, amount: usize) -> (r: Self)
        ensures
            r == if amount >= 16 { 0 } else { *self >> (amount as u16) },
    {
        if amount >= 16 {
            proof {
                assert forall|i: int| 0 <= i < 16 implies !u16_bit(0u16, i) by {
                    lemma_u16_bitwise(0, 0, i as u16);
                }
                assert((0u16).bits() =~= shr_bits(self.bits(), amount as nat));
            }
            0
        } else {
            let n = amount as u16;
            let r = *self >> n;
            proof {
                assert forall|i: int| 0 <= i < 16 implies u16_bit(r, i) == (i + n < 16 && u16_bit(*self, i + n)) by {
                    lemma_u16_shift(*self, n, i as u16);
                }
                assert(r.bits() =~= shr_bits(self.bits(), amount as nat));
            }
            r
        }
    }

    fn or(&self, other: Self) -> (r: Self)
        ensures
            r == *self | other,
    {
        let r = *self | other;
        proof {
            assert forall|i: int| 0 <= i < 16 implies u16_bit(r, i) == (u16_bit(*self, i) || u16_bit(other, i)) by {
                lemma_u16_bitwise(*self, other, i as u16);
            }
            assert(r.bits() =~= or_bits(self.bits(), other.bits()));
        }
        r
    }

    fn xor(&self, other: Self) -> (r: Self)
        ensures
            r == *self ^ other,
    {
        let r = *self ^ other;
        proof {
            assert forall|i: int| 0 <= i < 16 implies u16_bit(r, i) == (u16_bit(*self, i) != u16_bit(other, i)) by {
                lemma_u16_bitwise(*self, other, i as u16);
            }
            assert(r.bits() =~= xor_bits(self.bits(), other.bits()));
        }
        r
    }

    fn not(&self) -> (r: Self)
        ensures
            r == !*self,
    {
        let r = !*self;
        proof {
            assert forall|i: int| 0 <= i < 16 implies u16_bit(r, i) == !u16_bit(*self, i) by {
                lemma_u16_bitwise(*self, 0, i as u16);
            }
            assert(r.bits() =~= not_bits(self.bits()));
        }
        r
    }

    fn nor(&self, other: Self) -> (r: Self)
        ensures
            r == !(*self | other),
    {
        let r = !(*self | other);
        proof {
            assert forall|i: int| 0 <= i < 16 implies u16_bit(r, i) == !(u16_bit(*self, i) || u16_bit(other, i)) by {
                lemma_u16_bitwise(*self, other, i as u16);
                lemma_u16_bitwise(*self | other, other, i as u16);
            }
            assert(r.bits() =~= nor_bits(self.bits(), other.bits()));
        }
        r
    }

    fn and_mut(&mut self, other: &Self)
        ensures
            *final(self) == *old(self) & *other,
    {
        *self = Bitset::and(self, *other);
    }

    fn nand_mut(&mut self, other: &Self)
        ensures
            *final(self) == !(*old(self) & *other),
    {
        *self = Bitset::nand(self, *other);
    }

    fn shift_left_mut(&mut self, amount: usize)
        ensures
            *final(self) == if amount >= 16 { 0 } else { *old(self) << (amount as u16) },
    {
        *self = Bitset::shift_left(self, amount);
    }

    fn shift_right_mut(&mut self, amount: usize)
        ensures
            *final(self) == if amount >= 16 { 0 } else { *old(self) >> (amount as u16) },
    {
        *self = Bitset::shift_right(self, amount);
    }

    fn or_mut(&mut self, other: &Self)
        ensures
            *final(self) == *old(self) | *other,
    {
        *self = Bitset::or(self, *other);
    }

    fn xor_mut(&mut self, other: &Self)
        ensures
            *final(self) == *old(self) ^ *other,
    {
        *self = Bitset::xor(self, *other);
    }

    fn not_mut(&mut self)
        ensures
            *final(self) == !*old(self),
    {
        *self = Bitset::not(self);
    }

    fn nor_mut(&mut self, other: &Self)
        ensures
            *final(self) == !(*old(self) | *other),
    {
        *self = Bitset::nor(self, *other);
    }

    fn get(&self, field: usize) -> (r: bool) {
        (*self >> (field as u16)) & 1 == 1
    }

    fn set(&mut self, field: usize, flag: bool)
        ensures
            *final(self) == if flag { *old(self) | (1u16 << (field as u16)) } else { *old(self) & !(1u16 << (field as u16)) },
    {
        let f = field as u16;
        let x = *self;
        let r = if flag {
            x | (1 << f)
        } else {
            x & !(1 << f)
        };
        proof {
            assert forall|i: int| 0 <= i < 16 implies u16_bit(r, i) == (if i == f { flag } else { u16_bit(x, i) }) by {
                lemma_u16_bitwise(x, f, i as u16);
            }
            assert(r.bits() =~= x.bits().update(field as int, flag));
        }
        *self = r;
    }

    fn length() -> (r: usize)
        ensures
            r == 16,
    {
        16
    }
}


/// Per-bit facts of the bitwise operators on `u32`.
proof fn lemma_u32_bitwise(x: u32, y: u32, i: u32)
    by (bit_vector)
    requires
        i < 32,
    ensures
        ((x & y) >> i) & 1 == 1 <==> (((x >> i) & 1 == 1) && ((y >> i) & 1 == 1)),
        ((x | y) >> i) & 1 == 1 <==> (((x >> i) & 1 == 1) || ((y >> i) & 1 == 1)),
        ((x ^ y) >> i) & 1 == 1 <==> (((x >> i) & 1 == 1) != ((y >> i) & 1 == 1)),
        ((!x) >> i) & 1 == 1 <==> !((x >> i) & 1 == 1),
        ((!0u32) >> i) & 1 == 1,
        !((0u32 >> i) & 1 == 1),
        ((x | (1u32 << y)) >> i) & 1 == 1 <==> ((y < 32 && i == y) || (x >> i) & 1 == 1),
        ((x & !(1u32 << y)) >> i) & 1 == 1 <==> (!(y < 32 && i == y) && (x >> i) & 1 == 1),
{
}

/// Per-bit facts of the shift operators on `u32`.
proof fn lemma_u32_shift(x: u32, n: u32, i: u32)
    by (bit_vector)
    requires
        i < 32,
        n < 32,
    ensures
        ((x << n) >> i) & 1 == 1 <==> (i >= n && ((x >> ((i - n) as u32)) & 1 == 1)),
        ((x >> n) >> i) & 1 == 1 <==> (i + n < 32 && ((x >> ((i + n) as u32)) & 1 == 1)),
{
}

/// Bit `i` of a `u32`, least significant first.
pub open spec fn u32_bit(x: u32, i: int) -> bool {
    0 <= i < 32 && (x >> (i as u32)) & 1 == 1
}

/// A `u32` is determined by its bits, read from the top down.
proof fn lemma_u32_eq_step(x: u32, y: u32, k: u32)
    by (bit_vector)
    requires
        k < 32,
    ensures
        (x >> k) >> 1 == (y >> k) >> 1 && ((x >> k) & 1 == 1) == ((y >> k) & 1 == 1)
            ==> x >> k == y >> k,
        k + 1 < 32 ==> (x >> k) >> 1 == x >> ((k + 1) as u32),
        k + 1 < 32 ==> (y >> k) >> 1 == y >> ((k + 1) as u32),
        k + 1 == 32 ==> (x >> k) >> 1 == 0 && (y >> k) >> 1 == 0,
        x >> 0 == y >> 0 ==> x == y,
{
}

/// Bits `k` and above agreeing, the values shifted right by `k` agree.
proof fn lemma_u32_eq_from(x: u32, y: u32, k: int)
    requires
        0 <= k < 32,
        forall|i: int| k <= i < 32 ==> u32_bit(x, i) == u32_bit(y, i),
    ensures
        x >> (k as u32) == y >> (k as u32),
    decreases 32 - k,
{
    lemma_u32_eq_step(x, y, k as u32);
    assert(u32_bit(x, k) == u32_bit(y, k));
    if k + 1 < 32 {
        lemma_u32_eq_from(x, y, k + 1);
    }
}

impl Bitset for u32 {
    open spec fn width() -> nat {
        32
    }

    open spec fn bits(&self) -> Seq<bool> {
        Seq::new(32, |i: int| u32_bit(*self, i))
    }

    proof fn lemma_bits_len(x: Self) {
    }

    proof fn lemma_bits_injective(x: Self, y: Self) {
        assert forall|i: int| 0 <= i < 32 implies u32_bit(x, i) == u32_bit(y, i) by {
            assert(x.bits()[i] == u32_bit(x, i));
            assert(y.bits()[i] == u32_bit(y, i));
        }
        lemma_u32_eq_from(x, y, 0);
        lemma_u32_eq_step(x, y, 0);
    }

    fn ones() -> (r: Self)
        ensures
            r == !0u32,
    {
        proof {
            assert forall|i: int| 0 <= i < 32 implies u32_bit(!0u32, i) by {
                lemma_u32_bitwise(0, 0, i as u32);
            }
            assert((!0u32).bits() =~= fill_bits(32, true));
        }
        !0
    }

    fn zeroes() -> (r: Self)
        ensures
            r == 0,
    {
        proof {
            assert forall|i: int| 0 <= i < 32 implies !u32_bit(0u32, i) by {
                lemma_u32_bitwise(0, 0, i as u32);
            }
            assert((0u32).bits() =~= fill_bits(32, false));
        }
        0
    }

    fn and(&self, other: Self) -> (r: Self)
        ensures
            r == *self & other,
    {
        let r = *self & other;
        proof {
            assert forall|i: int| 0 <= i < 32 implies u32_bit(r, i) == (u32_bit(*self, i) && u32_bit(other, i)) by {
                lemma_u32_bitwise(*self, other, i as u32);
            }
            assert(r.bits() =~= and_bits(self.bits(), other.bits()));
        }
        r
    }

    fn nand(&self, other: Self) -> (r: Self)
        ensures
            r == !(*self & other),
    {
        let r = !(*self & other);
        proof {
            assert forall|i: int| 0 <= i < 32 implies u32_bit(r, i) == !(u32_bit(*self, i) && u32_bit(other, i)) by {
                lemma_u32_bitwise(*self, other, i as u32);
                lemma_u32_bitwise(*self & other, other, i as u32);
            }
            assert(r.bits() =~= nand_bits(self.bits(), other.bits()));
        }
        r
    }

    fn shift_left(&self, amount: usize) -> (r: Self)
        ensures
            r == if amount >= 32 { 0 } else { *self << (amount as u32) },
    {
        if amount >= 32 {
            proof {
                assert forall|i: int| 0 <= i < 32 implies !u32_bit(0u32, i) by {
                    lemma_u32_bitwise(0, 0, i as u32);
                }
                assert((0u32).bits() =~= shl_bits(self.bits(), amount as nat));
            }
            0
        } else {
            let n = amount as u32;
            let r = *self << n;
            proof {
                assert forall|i: int| 0 <= i < 32 implies u32_bit(r, i) == (i >= n && u32_bit(*self, i - n)) by {
                    lemma_u32_shift(*self, n, i as u32);
                }
                assert(r.bits() =~= shl_bits(self.bits(), amount as nat));
            }
            r
        }
    }

    fn shift_right(&self, amount: usize) -> (r: Self)
        ensures
            r == if amount >= 32 { 0 } else { *self >> (amount as u32) },
    {
        if amount >= 32 {
            proof {
                assert forall|i: int| 0 <= i < 32 implies !u32_bit(0u32, i) by {
                    lemma_u32_bitwise(0, 0, i as u32);
                }
                assert((0u32).bits() =~= shr_bits(self.bits(), amount as nat));
            }
            0
        } else {
            let n = amount as u32;
            let r = *self >> n;
            proof {
                assert forall|i: int| 0 <= i < 32 implies u32_bit(r, i) == (i + n < 32 && u32_bit(*self, i + n)) by {
                    lemma_u32_shift(*self, n, i as u32);
                }
                assert(r.bits() =~= shr_bits(self.bits(), amount as nat));
            }
            r
        }
    }

    fn or(&self, other: Self) -> (r: Self)
        ensures
            r == *self | other,
    {
        let r = *self | other;
        proof {
            assert forall|i: int| 0 <= i < 32 implies u32_bit(r, i) == (u32_bit(*self, i) || u32_bit(other, i)) by {
                lemma_u32_bitwise(*self, other, i as u32);
            }
            assert(r.bits() =~= or_bits(self.bits(), other.bits()));
        }
        r
    }

    fn xor(&self, other: Self) -> (r: Self)
        ensures
            r == *self ^ other,
    {
        let r = *self ^ other;
        proof {
            assert forall|i: int| 0 <= i < 32 implies u32_bit(r, i) == (u32_bit(*self, i) != u32_bit(other, i)) by {
                lemma_u32_bitwise(*self, other, i as u32);
            }
            assert(r.bits() =~= xor_bits(self.bits(), other.bits()));
        }
        r
    }

    fn not(&self) -> (r: Self)
        ensures
            r == !*self,
    {
        let r = !*self;
        proof {
            assert forall|i: int| 0 <= i < 32 implies u32_bit(r, i) == !u32_bit(*self, i) by {
                lemma_u32_bitwise(*self, 0, i as u32);
            }
            assert(r.bits() =~= not_bits(self.bits()));
        }
        r
    }

    fn nor(&self, other: Self) -> (r: Self)
        ensures
            r == !(*self | other),
    {
        let r = !(*self | other);
        proof {
            assert forall|i: int| 0 <= i < 32 implies u32_bit(r, i) == !(u32_bit(*self, i) || u32_bit(other, i)) by {
                lemma_u32_bitwise(*self, other, i as u32);
                lemma_u32_bitwise(*self | other, other, i as u32);
            }
            assert(r.bits() =~= nor_bits(self.bits(), other.bits()));
        }
        r
    }

    fn and_mut(&mut self, other: &Self)
        ensures
            *final(self) == *old(self) & *other,
    {
        *self = Bitset::and(self, *other);
    }

    fn nand_mut(&mut self, other: &Self)
        ensures
            *final(self) == !(*old(self) & *other),
    {
        *self = Bitset::nand(self, *other);
    }

    fn shift_left_mut(&mut self, amount: usize)
        ensures
            *final(self) == if amount >= 32 { 0 } else { *old(self) << (amount as u32) },
    {
        *self = Bitset::shift_left(self, amount);
    }

    fn shift_right_mut(&mut self, amount: usize)
        ensures
            *final(self) == if amount >= 32 { 0 } else { *old(self) >> (amount as u32) },
    {
        *self = Bitset::shift_right(self, amount);
    }

    fn or_mut(&mut self, other: &Self)
        ensures
            *final(self) == *old(self) | *other,
    {
        *self = Bitset::or(self, *other);
    }

    fn xor_mut(&mut self, other: &Self)
        ensures
            *final(self) == *old(self) ^ *other,
    {
        *self = Bitset::xor(self, *other);
    }

    fn not_mut(&mut self)
        ensures
            *final(self) == !*old(self),
    {
        *self = Bitset::not(self);
    }

    fn nor_mut(&mut self, other: &Self)
        ensures
            *final(self) == !(*old(self) | *other),
    {
        *self = Bitset::nor(self, *other);
    }

    fn get(&self, field: usize) -> (r: bool) {
        (*self >> (field as u32)) & 1 == 1
    }

    fn set(&mut self, field: usize, flag: bool)
        ensures
            *final(self) == if flag { *old(self) | (1u32 << (field as u32)) } else { *old(self) & !(1u32 << (field as u32)) },
    {
        let f = field as u32;
        let x = *self;
        let r = if flag {
            x | (1 << f)
        } else {
            x & !(1 << f)
        };
        proof {
            assert forall|i: int| 0 <= i < 32 implies u32_bit(r, i) == (if i == f { flag } else { u32_bit(x, i) }) by {
                lemma_u32_bitwise(x, f, i as u32);
            }
            assert(r.bits() =~= x.bits().update(field as int, flag));
        }
        *self = r;
    }

    fn length() -> (r: usize)
        ensures
            r == 32,
    {
        32
    }
}


/// Per-bit facts of the bitwise operators on `u64`.
pub(crate) proof fn lemma_u64_bitwise(x: u64, y: u64, i: u64)
    by (bit_vector)
    requires
        i < 64,
    ensures
        ((x & y) >> i) & 1 == 1 <==> (((x >> i) & 1 == 1) && ((y >> i) & 1 == 1)),
        ((x | y) >> i) & 1 == 1 <==> (((x >> i) & 1 == 1) || ((y >> i) & 1 == 1)),
        ((x ^ y) >> i) & 1 == 1 <==> (((x >> i) & 1 == 1) != ((y >> i) & 1 == 1)),
        ((!x) >> i) & 1 == 1 <==> !((x >> i) & 1 == 1),
        ((!0u64) >> i) & 1 == 1,
        !((0u64 >> i) & 1 == 1),
        ((x | (1u64 << y)) >> i) & 1 == 1 <==> ((y < 64 && i == y) || (x >> i) & 1 == 1),
        ((x & !(1u64 << y)) >> i) & 1 == 1 <==> (!(y < 64 && i == y) && (x >> i) & 1 == 1),
{
}

/// Per-bit facts of the shift operators on `u64`.
pub(crate) proof fn lemma_u64_shift(x: u64, n: u64, i: u64)
    by (bit_vector)
    requires
        i < 64,
        n < 64,
    ensures
        ((x << n) >> i) & 1 == 1 <==> (i >= n && ((x >> ((i - n) as u64)) & 1 == 1)),
        ((x >> n) >> i) & 1 == 1 <==> (i + n < 64 && ((x >> ((i + n) as u64)) & 1 == 1)),
{
}

/// Bit `i` of a `u64`, least significant first.
pub open spec fn u64_bit(x: u64, i: int) -> bool {
    0 <= i < 64 && (x >> (i as u64)) & 1 == 1
}

/// A `u64` is determined by its bits, read from the top down.
proof fn lemma_u64_eq_step(x: u64, y: u64, k: u64)
    by (bit_vector)
    requires
        k < 64,
    ensures
        (x >> k) >> 1 == (y >> k) >> 1 && ((x >> k) & 1 == 1) == ((y >> k) & 1 == 1)
            ==> x >> k == y >> k,
        k + 1 < 64 ==> (x >> k) >> 1 == x >> ((k + 1) as u64),
        k + 1 < 64 ==> (y >> k) >> 1 == y >> ((k + 1) as u64),
        k + 1 == 64 ==> (x >> k) >> 1 == 0 && (y >> k) >> 1 == 0,
        x >> 0 == y >> 0 ==> x == y,
{
}

/// Bits `k` and above agreeing, the values shifted right by `k` agree.
proof fn lemma_u64_eq_from(x: u64, y: u64, k: int)
    requires
        0 <= k < 64,
        forall|i: int| k <= i < 64 ==> u64_bit(x, i) == u64_bit(y, i),
    ensures
        x >> (k as u64) == y >> (k as u64),
    decreases 64 - k,
{
    lemma_u64_eq_step(x, y, k as u64);
    assert(u64_bit(x, k) == u64_bit(y, k));
    if k + 1 < 64 {
        lemma_u64_eq_from(x, y, k + 1);
    }
}

impl Bitset for u64 {
    open spec fn width() -> nat {
        64
    }

    open spec fn bits(&self) -> Seq<bool> {
        Seq::new(64, |i: int| u64_bit(*self, i))
    }

    proof fn lemma_bits_len(x: Self) {
    }

    proof fn lemma_bits_injective(x: Self, y: Self) {
        assert forall|i: int| 0 <= i < 64 implies u64_bit(x, i) == u64_bit(y, i) by {
            assert(x.bits()[i] == u64_bit(x, i));
            assert(y.bits()[i] == u64_bit(y, i));
        }
        lemma_u64_eq_from(x, y, 0);
        lemma_u64_eq_step(x, y, 0);
    }

    fn ones() -> (r: Self)
        ensures
            r == !0u64,
    {
        proof {
            assert forall|i: int| 0 <= i < 64 implies u64_bit(!0u64, i) by {
                lemma_u64_bitwise(0, 0, i as u64);
            }
            assert((!0u64).bits() =~= fill_bits(64, true));
        }
        !0
    }

    fn zeroes() -> (r: Self)
        ensures
            r == 0,
    {
        proof {
            assert forall|i: int| 0 <= i < 64 implies !u64_bit(0u64, i) by {
                lemma_u64_bitwise(0, 0, i as u64);
            }
            assert((0u64).bits() =~= fill_bits(64, false));
        }
        0
    }

    fn and(&self, other: Self) -> (r: Self)
        ensures
            r == *self & other,
    {
        let r = *self & other;
        proof {
            assert forall|i: int| 0 <= i < 64 implies u64_bit(r, i) == (u64_bit(*self, i) && u64_bit(other, i)) by {
                lemma_u64_bitwise(*self, other, i as u64);
            }
            assert(r.bits() =~= and_bits(self.bits(), other.bits()));
        }
        r
    }

    fn nand(&self, other: Self) -> (r: Self)
        ensures
            r == !(*self & other),
    {
        let r = !(*self & other);
        proof {
            assert forall|i: int| 0 <= i < 64 implies u64_bit(r, i) == !(u64_bit(*self, i) && u64_bit(other, i)) by {
                lemma_u64_bitwise(*self, other, i as u64);
                lemma_u64_bitwise(*self & other, other, i as u64);
            }
            assert(r.bits() =~= nand_bits(self.bits(), other.bits()));
        }
        r
    }

    fn shift_left(&self, amount: usize) -> (r: Self)
        ensures
            r == if amount >= 64 { 0 } else { *self << (amount as u64) },
    {
        if amount >= 64 {
            proof {
                assert forall|i: int| 0 <= i < 64 implies !u64_bit(0u64, i) by {
                    lemma_u64_bitwise(0, 0, i as u64);
                }
                assert((0u64).bits() =~= shl_bits(self.bits(), amount as nat));
            }
            0
        } else {
            let n = amount as u64;
            let r = *self << n;
            proof {
                assert forall|i: int| 0 <= i < 64 implies u64_bit(r, i) == (i >= n && u64_bit(*self, i - n)) by {
                    lemma_u64_shift(*self, n, i as u64);
                }
                assert(r.bits() =~= shl_bits(self.bits(), amount as nat));
            }
            r
        }
    }

    fn shift_right(&self, amount: usize) -> (r: Self)
        ensures
            r == if amount >= 64 { 0 } else { *self >> (amount as u64) },
    {
        if amount >= 64 {
            proof {
                assert forall|i: int| 0 <= i < 64 implies !u64_bit(0u64, i) by {
                    lemma_u64_bitwise(0, 0, i as u64);
                }
                assert((0u64).bits() =~= shr_bits(self.bits(), amount as nat));
            }
            0
        } else {
            let n = amount as u64;
            let r = *self >> n;
            proof {
                assert forall|i: int| 0 <= i < 64 implies u64_bit(r, i) == (i + n < 64 && u64_bit(*self, i + n)) by {
                    lemma_u64_shift(*self, n, i as u64);
                }
                assert(r.bits() =~= shr_bits(self.bits(), amount as nat));
            }
            r
        }
    }

    fn or(&self, other: Self) -> (r: Self)
        ensures
            r == *self | other,
    {
        let r = *self | other;
        proof {
            assert forall|i: int| 0 <= i < 64 implies u64_bit(r, i) == (u64_bit(*self, i) || u64_bit(other, i)) by {
                lemma_u64_bitwise(*self, other, i as u64);
            }
            assert(r.bits() =~= or_bits(self.bits(), other.bits()));
        }
        r
    }

    fn xor(&self, other: Self) -> (r: Self)
        ensures
            r == *self ^ other,
    {
        let r = *self ^ other;
        proof {
            assert forall|i: int| 0 <= i < 64 implies u64_bit(r, i) == (u64_bit(*self, i) != u64_bit(other, i)) by {
                lemma_u64_bitwise(*self, other, i as u64);
            }
            assert(r.bits() =~= xor_bits(self.bits(), other.bits()));
        }
        r
    }

    fn not(&self) -> (r: Self)
        ensures
            r == !*self,
    {
        let r = !*self;
        proof {
            assert forall|i: int| 0 <= i < 64 implies u64_bit(r, i) == !u64_bit(*self, i) by {
                lemma_u64_bitwise(*self, 0, i as u64);
            }
            assert(r.bits() =~= not_bits(self.bits()));
        }
        r
    }

    fn nor(&self, other: Self) -> (r: Self)
        ensures
            r == !(*self | other),
    {
        let r = !(*self | other);
        proof {
            assert forall|i: int| 0 <= i < 64 implies u64_bit(r, i) == !(u64_bit(*self, i) || u64_bit(other, i)) by {
                lemma_u64_bitwise(*self, other, i as u64);
                lemma_u64_bitwise(*self | other, other, i as u64);
            }
            assert(r.bits() =~= nor_bits(self.bits(), other.bits()));
        }
        r
    }

    fn and_mut(&mut self, other: &Self)
        ensures
            *final(self) == *old(self) & *other,
    {
        *self = Bitset::and(self, *other);
    }

    fn nand_mut(&mut self, other: &Self)
        ensures
            *final(self) == !(*old(self) & *other),
    {
        *self = Bitset::nand(self, *other);
    }

    fn shift_left_mut(&mut self, amount: usize)
        ensures
            *final(self) == if amount >= 64 { 0 } else { *old(self) << (amount as u64) },
    {
        *self = Bitset::shift_left(self, amount);
    }

    fn shift_right_mut(&mut self, amount: usize)
        ensures
            *final(self) == if amount >= 64 { 0 } else { *old(self) >> (amount as u64) },
    {
        *self = Bitset::shift_right(self, amount);
    }

    fn or_mut(&mut self, other: &Self)
        ensures
            *final(self) == *old(self) | *other,
    {
        *self = Bitset::or(self, *other);
    }

    fn xor_mut(&mut self, other: &Self)
        ensures
            *final(self) == *old(self) ^ *other,
    {
        *self = Bitset::xor(self, *other);
    }

    fn not_mut(&mut self)
        ensures
            *final(self) == !*old(self),
    {
        *self = Bitset::not(self);
    }

    fn nor_mut(&mut self, other: &Self)
        ensures
            *final(self) == !(*old(self) | *other),
    {
        *self = Bitset::nor(self, *other);
    }

    fn get(&self, field: usize) -> (r: bool) {
        (*self >> (field as u64)) & 1 == 1
    }

    fn set(&mut self, field: usize, flag: bool)
        ensures
            *final(self) == if flag { *old(self) | (1u64 << (field as u64)) } else { *old(self) & !(1u64 << (field as u64)) },
    {
        let f = field as u64;
        let x = *self;
        let r = if flag {
            x | (1 << f)
        } else {
            x & !(1 << f)
        };
        proof {
            assert forall|i: int| 0 <= i < 64 implies u64_bit(r, i) == (if i == f { flag } else { u64_bit(x, i) }) by {
                lemma_u64_bitwise(x, f, i as u64);
            }
            assert(r.bits() =~= x.bits().update(field as int, flag));
        }
        *self = r;
    }

    fn length() -> (r: usize)
        ensures
            r == 64,
    {
        64
    }
}


/// Per-bit facts of the bitwise operators on `u128`.
pub(crate) proof fn lemma_u128_bitwise(x: u128, y: u128, i: u128)
    by (bit_vector)
    requires
        i < 128,
    ensures
        ((x & y) >> i) & 1 == 1 <==> (((x >> i) & 1 == 1) && ((y >> i) & 1 == 1)),
        ((x | y) >> i) & 1 == 1 <==> (((x >> i) & 1 == 1) || ((y >> i) & 1 == 1)),
        ((x ^ y) >> i) & 1 == 1 <==> (((x >> i) & 1 == 1) != ((y >> i) & 1 == 1)),
        ((!x) >> i) & 1 == 1 <==> !((x >> i) & 1 == 1),
        ((!0u128) >> i) & 1 == 1,
        !((0u128 >> i) & 1 == 1),
        ((x | (1u128 << y)) >> i) & 1 == 1 <==> ((y < 128 && i == y) || (x >> i) & 1 == 1),
        ((x & !(1u128 << y)) >> i) & 1 == 1 <==> (!(y < 128 && i == y) && (x >> i) & 1 == 1),
{
}

/// Per-bit facts of the shift operators on `u128`.
pub(crate) proof fn lemma_u128_shift(x: u128, n: u128, i: u128)
    by (bit_vector)
    requires
        i < 128,
        n < 128,
    ensures
        ((x << n) >> i) & 1 == 1 <==> (i >= n && ((x >> ((i - n) as u128)) & 1 == 1)),
        ((x >> n) >> i) & 1 == 1 <==> (i + n < 128 && ((x >> ((i + n) as u128)) & 1 == 1)),
{
}

/// Bit `i` of a `u128`, least significant first.
pub open spec fn u128_bit(x: u128, i: int) -> bool {
    0 <= i < 128 && (x >> (i as u128)) & 1 == 1
}

/// A `u128` is determined by its bits, read from the top down.
#[verifier::rlimit(100)]
proof fn lemma_u128_eq_step(x: u128, y: u128, k: u128)
    by (bit_vector)
    requires
        k < 128,
    ensures
        (x >> k) >> 1 == (y >> k) >> 1 && ((x >> k) & 1 == 1) == ((y >> k) & 1 == 1)
            ==> x >> k == y >> k,
        k + 1 < 128 ==> (x >> k) >> 1 == x >> ((k + 1) as u128),
        k + 1 < 128 ==> (y >> k) >> 1 == y >> ((k + 1) as u128),
        k + 1 == 128 ==> (x >> k) >> 1 == 0 && (y >> k) >> 1 == 0,
        x >> 0 == y >> 0 ==> x == y,
{
}

/// Bits `k` and above agreeing, the values shifted right by `k` agree.
proof fn lemma_u128_eq_from(x: u128, y: u128, k: int)
    requires
        0 <= k < 128,
        forall|i: int| k <= i < 128 ==> u128_bit(x, i) == u128_bit(y, i),
    ensures
        x >> (k as u128) == y >> (k as u128),
    decreases 128 - k,
{
    lemma_u128_eq_step(x, y, k as u128);
    assert(u128_bit(x, k) == u128_bit(y, k));
    if k + 1 < 128 {
        lemma_u128_eq_from(x, y, k + 1);
    }
}

impl Bitset for u128 {
    open spec fn width() -> nat {
        128
    }

    open spec fn bits(&self) -> Seq<bool> {
        Seq::new(128, |i: int| u128_bit(*self, i))
    }

    proof fn lemma_bits_len(x: Self) {
    }

    proof fn lemma_bits_injective(x: Self, y: Self) {
        assert forall|i: int| 0 <= i < 128 implies u128_bit(x, i) == u128_bit(y, i) by {
            assert(x.bits()[i] == u128_bit(x, i));
            assert(y.bits()[i] == u128_bit(y, i));
        }
        lemma_u128_eq_from(x, y, 0);
        lemma_u128_eq_step(x, y, 0);
    }

    fn ones() -> (r: Self)
        ensures
            r == !0u128,
    {
        proof {
            assert forall|i: int| 0 <= i < 128 implies u128_bit(!0u128, i) by {
                lemma_u128_bitwise(0, 0, i as u128);
            }
            assert((!0u128).bits() =~= fill_bits(128, true));
        }
        !0
    }

    fn zeroes() -> (r: Self)
        ensures
            r == 0,
    {
        proof {
            assert forall|i: int| 0 <= i < 128 implies !u128_bit(0u128, i) by {
                lemma_u128_bitwise(0, 0, i as u128);
            }
            assert((0u128).bits() =~= fill_bits(128, false));
        }
        0
    }

    fn and(&self, other: Self) -> (r: Self)
        ensures
            r == *self & other,
    {
        let r = *self & other;
        proof {
            assert forall|i: int| 0 <= i < 128 implies u128_bit(r, i) == (u128_bit(*self, i) && u128_bit(other, i)) by {
                lemma_u128_bitwise(*self, other, i as u128);
            }
            assert(r.bits() =~= and_bits(self.bits(), other.bits()));
        }
        r
    }

    fn nand(&self, other: Self) -> (r: Self)
        ensures
            r == !(*self & other),
    {
        let r = !(*self & other);
        proof {
            assert forall|i: int| 0 <= i < 128 implies u128_bit(r, i) == !(u128_bit(*self, i) && u128_bit(other, i)) by {
                lemma_u128_bitwise(*self, other, i as u128);
                lemma_u128_bitwise(*self & other, other, i as u128);
            }
            assert(r.bits() =~= nand_bits(self.bits(), other.bits()));
        }
        r
    }

    fn shift_left(&self, amount: usize) -> (r: Self)
        ensures
            r == if amount >= 128 { 0 } else { *self << (amount as u128) },
    {
        if amount >= 128 {
            proof {
                assert forall|i: int| 0 <= i < 128 implies !u128_bit(0u128, i) by {
                    lemma_u128_bitwise(0, 0, i as u128);
                }
                assert((0u128).bits() =~= shl_bits(self.bits(), amount as nat));
            }
            0
        } else {
            let n = amount as u128;
            let r = *self << n;
            proof {
                assert forall|i: int| 0 <= i < 128 implies u128_bit(r, i) == (i >= n && u128_bit(*self, i - n)) by {
                    lemma_u128_shift(*self, n, i as u128);
                }
                assert(r.bits() =~= shl_bits(self.bits(), amount as nat));
            }
            r
        }
    }

    fn shift_right(&self, amount: usize) -> (r: Self)
        ensures
            r == if amount >= 128 { 0 } else { *self >> (amount as u128) },
    {
        if amount >= 128 {
            proof {
                assert forall|i: int| 0 <= i < 128 implies !u128_bit(0u128, i) by {
                    lemma_u128_bitwise(0, 0, i as u128);
                }
                assert((0u128).bits() =~= shr_bits(self.bits(), amount as nat));
            }
            0
        } else {
            let n = amount as u128;
            let r = *self >> n;
            proof {
                assert forall|i: int| 0 <= i < 128 implies u128_bit(r, i) == (i + n < 128 && u128_bit(*self, i + n)) by {
                    lemma_u128_shift(*self, n, i as u128);
                }
                assert(r.bits() =~= shr_bits(self.bits(), amount as nat));
            }
            r
        }
    }

    fn or(&self, other: Self) -> (r: Self)
        ensures
            r == *self | other,
    {
        let r = *self | other;
        proof {
            assert forall|i: int| 0 <= i < 128 implies u128_bit(r, i) == (u128_bit(*self, i) || u128_bit(other, i)) by {
                lemma_u128_bitwise(*self, other, i as u128);
            }
            assert(r.bits() =~= or_bits(self.bits(), other.bits()));
        }
        r
    }

    fn xor(&self, other: Self) -> (r: Self)
        ensures
            r == *self ^ other,
    {
        let r = *self ^ other;
        proof {
            assert forall|i: int| 0 <= i < 128 implies u128_bit(r, i) == (u128_bit(*self, i) != u128_bit(other, i)) by {
                lemma_u128_bitwise(*self, other, i as u128);
            }
            assert(r.bits() =~= xor_bits(self.bits(), other.bits()));
        }
        r
    }

    fn not(&self) -> (r: Self)
        ensures
            r == !*self,
    {
        let r = !*self;
        proof {
            assert forall|i: int| 0 <= i < 128 implies u128_bit(r, i) == !u128_bit(*self, i) by {
                lemma_u128_bitwise(*self, 0, i as u128);
            }
            assert(r.bits() =~= not_bits(self.bits()));
        }
        r
    }

    fn nor(&self, other: Self) -> (r: Self)
        ensures
            r == !(*self | other),
    {
        let r = !(*self | other);
        proof {
            assert forall|i: int| 0 <= i < 128 implies u128_bit(r, i) == !(u128_bit(*self, i) || u128_bit(other, i)) by {
                lemma_u128_bitwise(*self, other, i as u128);
                lemma_u128_bitwise(*self | other, other, i as u128);
            }
            assert(r.bits() =~= nor_bits(self.bits(), other.bits()));
        }
        r
    }

    fn and_mut(&mut self, other: &Self)
        ensures
            *final(self) == *old(self) & *other,
    {
        *self = Bitset::and(self, *other);
    }

    fn nand_mut(&mut self, other: &Self)
        ensures
            *final(self) == !(*old(self) & *other),
    {
        *self = Bitset::nand(self, *other);
    }

    fn shift_left_mut(&mut self, amount: usize)
        ensures
            *final(self) == if amount >= 128 { 0 } else { *old(self) << (amount as u128) },
    {
        *self = Bitset::shift_left(self, amount);
    }

    fn shift_right_mut(&mut self, amount: usize)
        ensures
            *final(self) == if amount >= 128 { 0 } else { *old(self) >> (amount as u128) },
    {
        *self = Bitset::shift_right(self, amount);
    }

    fn or_mut(&mut self, other: &Self)
        ensures
            *final(self) == *old(self) | *other,
    {
        *self = Bitset::or(self, *other);
    }

    fn xor_mut(&mut self, other: &Self)
        ensures
            *final(self) == *old(self) ^ *other,
    {
        *self = Bitset::xor(self, *other);
    }

    fn not_mut(&mut self)
        ensures
            *final(self) == !*old(self),
    {
        *self = Bitset::not(self);
    }

    fn nor_mut(&mut self, other: &Self)
        ensures
            *final(self) == !(*old(self) | *other),
    {
        *self = Bitset::nor(self, *other);
    }

    fn get(&self, field: usize) -> (r: bool) {
        (*self >> (field as u128)) & 1 == 1
    }

    fn set(&mut self, field: usize, flag: bool)
        ensures
            *final(self) == if flag { *old(self) | (1u128 << (field as u128)) } else { *old(self) & !(1u128 << (field as u128)) },
    {
        let f = field as u128;
        let x = *self;
        let r = if flag {
            x | (1 << f)
        } else {
            x & !(1 << f)
        };
        proof {
            assert forall|i: int| 0 <= i < 128 implies u128_bit(r, i) == (if i == f { flag } else { u128_bit(x, i) }) by {
                lemma_u128_bitwise(x, f, i as u128);
            }
            assert(r.bits() =~= x.bits().update(field as int, flag));
        }
        *self = r;
    }

    fn length() -> (r: usize)
        ensures
            r == 128,
    {
        128
    }
}

/// Per-bit facts of the bitwise operators on `usize`.
proof fn lemma_usize_bitwise(x: usize, y: usize, i: usize)
    by (bit_vector)
    requires
        i < usize::BITS,
    ensures
        ((x & y) >> i) & 1 == 1 <==> (((x >> i) & 1 == 1) && ((y >> i) & 1 == 1)),
        ((x | y) >> i) & 1 == 1 <==> (((x >> i) & 1 == 1) || ((y >> i) & 1 == 1)),
        ((x ^ y) >> i) & 1 == 1 <==> (((x >> i) & 1 == 1) != ((y >> i) & 1 == 1)),
        ((!x) >> i) & 1 == 1 <==> !((x >> i) & 1 == 1),
        ((!0usize) >> i) & 1 == 1,
        !((0usize >> i) & 1 == 1),
        ((x | (1usize << y)) >> i) & 1 == 1 <==> ((y < usize::BITS && i == y) || (x >> i) & 1 == 1),
        ((x & !(1usize << y)) >> i) & 1 == 1 <==> (!(y < usize::BITS && i == y) && (x >> i) & 1 == 1),
{
}

/// Per-bit facts of the shift operators on `usize`.
proof fn lemma_usize_shift(x: usize, n: usize, i: usize)
    by (bit_vector)
    requires
        i < usize::BITS,
        n < usize::BITS,
    ensures
        ((x << n) >> i) & 1 == 1 <==> (i >= n && ((x >> ((i - n) as usize)) & 1 == 1)),
        ((x >> n) >> i) & 1 == 1 <==> (i + n < usize::BITS && ((x >> ((i + n) as usize)) & 1 == 1)),
{
}

/// Bit `i` of a `usize`, least significant first.
pub open spec fn usize_bit(x: usize, i: int) -> bool {
    0 <= i < usize::BITS && (x >> (i as usize)) & 1 == 1
}

/// A `usize` is determined by its bits, read from the top down.
proof fn lemma_usize_eq_step(x: usize, y: usize, k: usize)
    by (bit_vector)
    requires
        k < usize::BITS,
    ensures
        (x >> k) >> 1 == (y >> k) >> 1 && ((x >> k) & 1 == 1) == ((y >> k) & 1 == 1)
            ==> x >> k == y >> k,
        k + 1 < usize::BITS ==> (x >> k) >> 1 == x >> ((k + 1) as usize),
        k + 1 < usize::BITS ==> (y >> k) >> 1 == y >> ((k + 1) as usize),
        k + 1 == usize::BITS ==> (x >> k) >> 1 == 0 && (y >> k) >> 1 == 0,
        x >> 0 == y >> 0 ==> x == y,
{
}

/// Bits `k` and above agreeing, the values shifted right by `k` agree.
proof fn lemma_usize_eq_from(x: usize, y: usize, k: int)
    requires
        0 <= k < usize::BITS,
        forall|i: int| k <= i < usize::BITS ==> usize_bit(x, i) == usize_bit(y, i),
    ensures
        x >> (k as usize) == y >> (k as usize),
    decreases usize::BITS - k,
{
    lemma_usize_eq_step(x, y, k as usize);
    assert(usize_bit(x, k) == usize_bit(y, k));
    if k + 1 < usize::BITS {
        lemma_usize_eq_from(x, y, k + 1);
    }
}

impl Bitset for usize {
    open spec fn width() -> nat {
        usize::BITS as nat
    }

    open spec fn bits(&self) -> Seq<bool> {
        Seq::new(usize::BITS as nat, |i: int| usize_bit(*self, i))
    }

    proof fn lemma_bits_len(x: Self) {
    }

    proof fn lemma_bits_injective(x: Self, y: Self) {
        assert forall|i: int| 0 <= i < usize::BITS implies usize_bit(x, i) == usize_bit(y, i) by {
            assert(x.bits()[i] == usize_bit(x, i));
            assert(y.bits()[i] == usize_bit(y, i));
        }
        lemma_usize_eq_from(x, y, 0);
        lemma_usize_eq_step(x, y, 0);
    }

    fn ones() -> (r: Self)
        ensures
            r == !0usize,
    {
        proof {
            assert forall|i: int| 0 <= i < usize::BITS implies usize_bit(!0usize, i) by {
                lemma_usize_bitwise(0, 0, i as usize);
            }
            assert((!0usize).bits() =~= fill_bits(usize::BITS as nat, true));
        }
        !0
    }

    fn zeroes() -> (r: Self)
        ensures
            r == 0,
    {
        proof {
            assert forall|i: int| 0 <= i < usize::BITS implies !usize_bit(0usize, i) by {
                lemma_usize_bitwise(0, 0, i as usize);
            }
            assert((0usize).bits() =~= fill_bits(usize::BITS as nat, false));
        }
        0
    }

    fn and(&self, other: Self) -> (r: Self)
        ensures
            r == *self & other,
    {
        let r = *self & other;
        proof {
            assert forall|i: int| 0 <= i < usize::BITS implies usize_bit(r, i) == (usize_bit(*self, i) && usize_bit(other, i)) by {
                lemma_usize_bitwise(*self, other, i as usize);
            }
            assert(r.bits() =~= and_bits(self.bits(), other.bits()));
        }
        r
    }

    fn nand(&self, other: Self) -> (r: Self)
        ensures
            r == !(*self & other),
    {
        let r = !(*self & other);
        proof {
            assert forall|i: int| 0 <= i < usize::BITS implies usize_bit(r, i) == !(usize_bit(*self, i) && usize_bit(other, i)) by {
                lemma_usize_bitwise(*self, other, i as usize);
                lemma_usize_bitwise(*self & other, other, i as usize);
            }
            assert(r.bits() =~= nand_bits(self.bits(), other.bits()));
        }
        r
    }

    fn shift_left(&self, amount: usize) -> (r: Self)
        ensures
            r == if amount >= usize::BITS as usize { 0 } else { *self << (amount as usize) },
    {
        if amount >= usize::BITS as usize {
            proof {
                assert forall|i: int| 0 <= i < usize::BITS implies !usize_bit(0usize, i) by {
                    lemma_usize_bitwise(0, 0, i as usize);
                }
                assert((0usize).bits() =~= shl_bits(self.bits(), amount as nat));
            }
            0
        } else {
            let n = amount as usize;
            let r = *self << n;
            proof {
                assert forall|i: int| 0 <= i < usize::BITS implies usize_bit(r, i) == (i >= n && usize_bit(*self, i - n)) by {
                    lemma_usize_shift(*self, n, i as usize);
                }
                assert(r.bits() =~= shl_bits(self.bits(), amount as nat));
            }
            r
        }
    }

    fn shift_right(&self, amount: usize) -> (r: Self)
        ensures
            r == if amount >= usize::BITS as usize { 0 } else { *self >> (amount as usize) },
    {
        if amount >= usize::BITS as usize {
            proof {
                assert forall|i: int| 0 <= i < usize::BITS implies !usize_bit(0usize, i) by {
                    lemma_usize_bitwise(0, 0, i as usize);
                }
                assert((0usize).bits() =~= shr_bits(self.bits(), amount as nat));
            }
            0
        } else {
            let n = amount as usize;
            let r = *self >> n;
            proof {
                assert forall|i: int| 0 <= i < usize::BITS implies usize_bit(r, i) == (i + n < usize::BITS && usize_bit(*self, i + n)) by {
                    lemma_usize_shift(*self, n, i as usize);
                }
                assert(r.bits() =~= shr_bits(self.bits(), amount as nat));
            }
            r
        }
    }

    fn or(&self, other: Self) -> (r: Self)
        ensures
            r == *self | other,
    {
        let r = *self | other;
        proof {
            assert forall|i: int| 0 <= i < usize::BITS implies usize_bit(r, i) == (usize_bit(*self, i) || usize_bit(other, i)) by {
                lemma_usize_bitwise(*self, other, i as usize);
            }
            assert(r.bits() =~= or_bits(self.bits(), other.bits()));
        }
        r
    }

    fn xor(&self, other: Self) -> (r: Self)
        ensures
            r == *self ^ other,
    {
        let r = *self ^ other;
        proof {
            assert forall|i: int| 0 <= i < usize::BITS implies usize_bit(r, i) == (usize_bit(*self, i) != usize_bit(other, i)) by {
                lemma_usize_bitwise(*self, other, i as usize);
            }
            assert(r.bits() =~= xor_bits(self.bits(), other.bits()));
        }
        r
    }

    fn not(&self) -> (r: Self)
        ensures
            r == !*self,
    {
        let r = !*self;
        proof {
            assert forall|i: int| 0 <= i < usize::BITS implies usize_bit(r, i) == !usize_bit(*self, i) by {
                lemma_usize_bitwise(*self, 0, i as usize);
            }
            assert(r.bits() =~= not_bits(self.bits()));
        }
        r
    }

    fn nor(&self, other: Self) -> (r: Self)
        ensures
            r == !(*self | other),
    {
        let r = !(*self | other);
        proof {
            assert forall|i: int| 0 <= i < usize::BITS implies usize_bit(r, i) == !(usize_bit(*self, i) || usize_bit(other, i)) by {
                lemma_usize_bitwise(*self, other, i as usize);
                lemma_usize_bitwise(*self | other, other, i as usize);
            }
            assert(r.bits() =~= nor_bits(self.bits(), other.bits()));
        }
        r
    }

    fn and_mut(&mut self, other: &Self)
        ensures
            *final(self) == *old(self) & *other,
    {
        *self = Bitset::and(self, *other);
    }

    fn nand_mut(&mut self, other: &Self)
        ensures
            *final(self) == !(*old(self) & *other),
    {
        *self = Bitset::nand(self, *other);
    }

    fn shift_left_mut(&mut self, amount: usize)
        ensures
            *final(self) == if amount >= usize::BITS as usize { 0 } else { *old(self) << (amount as usize) },
    {
        *self = Bitset::shift_left(self, amount);
    }

    fn shift_right_mut(&mut self, amount: usize)
        ensures
            *final(self) == if amount >= usize::BITS as usize { 0 } else { *old(self) >> (amount as usize) },
    {
        *self = Bitset::shift_right(self, amount);
    }

    fn or_mut(&mut self, other: &Self)
        ensures
            *final(self) == *old(self) | *other,
    {
        *self = Bitset::or(self, *other);
    }

    fn xor_mut(&mut self, other: &Self)
        ensures
            *final(self) == *old(self) ^ *other,
    {
        *self = Bitset::xor(self, *other);
    }

    fn not_mut(&mut self)
        ensures
            *final(self) == !*old(self),
    {
        *self = Bitset::not(self);
    }

    fn nor_mut(&mut self, other: &Self)
        ensures
            *final(self) == !(*old(self) | *other),
    {
        *self = Bitset::nor(self, *other);
    }

    fn get(&self, field: usize) -> (r: bool) {
        (*self >> (field as usize)) & 1 == 1
    }

    fn set(&mut self, field: usize, flag: bool)
        ensures
            *final(self) == if flag { *old(self) | (1usize << (field as usize)) } else { *old(self) & !(1usize << (field as usize)) },
    {
        let f = field as usize;
        let x = *self;
        let r = if flag {
            x | (1 << f)
        } else {
            x & !(1 << f)
        };
        proof {
            assert forall|i: int| 0 <= i < usize::BITS implies usize_bit(r, i) == (if i == f { flag } else { usize_bit(x, i) }) by {
                lemma_usize_bitwise(x, f, i as usize);
            }
            assert(r.bits() =~= x.bits().update(field as int, flag));
        }
        *self = r;
    }

    fn length() -> (r: usize)
        ensures
            r == usize::BITS as usize,
    {
        usize::BITS as usize
    }
}

} // verus!
