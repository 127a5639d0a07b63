//! `Bitset` for the signed integer types: bit `i` of a value is bit `i` of
//! its two's-complement representation. The shifts are logical, made on the
//! unsigned type of the same width, so a right shift brings in zeros and not
//! copies of the sign bit.

use vstd::prelude::*;

use crate::bitset::Bitset;
use crate::model::{and_bits, fill_bits, nand_bits, nor_bits, not_bits, or_bits, shl_bits, shr_bits, xor_bits};

verus! {

/// Per-bit facts of the bitwise operators on `i8`.
proof fn lemma_i8_bitwise(x: i8, y: i8, i: u8, f: u8)
    by (bit_vector)
    requires
        i < 8,
    ensures
        (((x & y) as u8) >> i) & 1 == 1 <==> ((((x as u8) >> i) & 1 == 1) && (((y as u8) >> i) & 1 == 1)),
        (((x | y) as u8) >> i) & 1 == 1 <==> ((((x as u8) >> i) & 1 == 1) || (((y as u8) >> i) & 1 == 1)),
        (((x ^ y) as u8) >> i) & 1 == 1 <==> ((((x as u8) >> i) & 1 == 1) != (((y as u8) >> i) & 1 == 1)),
        (((!x) as u8) >> i) & 1 == 1 <==> !(((x as u8) >> i) & 1 == 1),
        (((!0i8) as u8) >> i) & 1 == 1,
        !(((0i8 as u8) >> i) & 1 == 1),
        (((x | (1i8 << f)) as u8) >> i) & 1 == 1 <==> ((f < 8 && i == f) || ((x as u8) >> i) & 1 == 1),
        (((x & !(1i8 << f)) as u8) >> i) & 1 == 1 <==> (!(f < 8 && i == f) && ((x as u8) >> i) & 1 == 1),
{
}

/// Per-bit facts of the logical shifts on `i8`, made through `u8`.
proof fn lemma_i8_shift(x: i8, n: u8, i: u8)
    by (bit_vector)
    requires
        i < 8,
        n < 8,
    ensures
        ((((x as u8) << n) as i8 as u8) >> i) & 1 == 1 <==> (i >= n && (((x as u8) >> ((i - n) as u8)) & 1 == 1)),
        ((((x as u8) >> n) as i8 as u8) >> i) & 1 == 1 <==> (i + n < 8 && (((x as u8) >> ((i + n) as u8)) & 1 == 1)),
{
}

/// Bit `i` of a `i8`, least significant first.
pub open spec fn i8_bit(x: i8, i: int) -> bool {
    0 <= i < 8 && ((x as u8) >> (i as u8)) & 1 == 1
}

/// A `i8` is determined by its bits, read from the top down.
proof fn lemma_i8_eq_step(x: i8, y: i8, k: u8)
    by (bit_vector)
    requires
        k < 8,
    ensures
        ((x as u8) >> k) >> 1 == ((y as u8) >> k) >> 1 && (((x as u8) >> k) & 1 == 1) == (((y as u8) >> k) & 1 == 1)
            ==> (x as u8) >> k == (y as u8) >> k,
        k + 1 < 8 ==> ((x as u8) >> k) >> 1 == (x as u8) >> ((k + 1) as u8),
        k + 1 < 8 ==> ((y as u8) >> k) >> 1 == (y as u8) >> ((k + 1) as u8),
        k + 1 == 8 ==> ((x as u8) >> k) >> 1 == 0 && ((y as u8) >> k) >> 1 == 0,
        (x as u8) >> 0 == (y as u8) >> 0 ==> x == y,
{
}

/// Bits `k` and above agreeing, the values shifted right by `k` agree.
proof fn lemma_i8_eq_from(x: i8, y: i8, k: int)
    requires
        0 <= k < 8,
        forall|i: int| k <= i < 8 ==> i8_bit(x, i) == i8_bit(y, i),
    ensures
        (x as u8) >> (k as u8) == (y as u8) >> (k as u8),
    decreases 8 - k,
{
    lemma_i8_eq_step(x, y, k as u8);
    assert(i8_bit(x, k) == i8_bit(y, k));
    if k + 1 < 8 {
        lemma_i8_eq_from(x, y, k + 1);
    }
}

impl Bitset for i8 {
    open spec fn width() -> nat {
        8
    }

    open spec fn bits(&self) -> Seq<bool> {
        Seq::new(8, |i: int| i8_bit(*self, i))
    }

    proof fn lemma_bits_len(x: Self) {
    }

    proof fn lemma_bits_injective(x: Self, y: Self) {
        assert forall|i: int| 0 <= i < 8 implies i8_bit(x, i) == i8_bit(y, i) by {
            assert(x.bits()[i] == i8_bit(x, i));
            assert(y.bits()[i] == i8_bit(y, i));
        }
        lemma_i8_eq_from(x, y, 0);
        lemma_i8_eq_step(x, y, 0);
    }

    fn ones() -> (r: Self)
        ensures
            r == !0i8,
    {
        proof {
            assert forall|i: int| 0 <= i < 8 implies i8_bit(!0i8, i) by {
                lemma_i8_bitwise(0, 0, i as u8, 0);
            }
            assert((!0i8).bits() =~= fill_bits(8, true));
        }
        !0
    }

    fn zeroes() -> (r: Self)
        ensures
            r == 0,
    {
        proof {
            assert forall|i: int| 0 <= i < 8 implies !i8_bit(0i8, i) by {
                lemma_i8_bitwise(0, 0, i as u8, 0);
            }
            assert((0i8).bits() =~= fill_bits(8, false));
        }
        0
    }

    fn and(&self, other: Self) -> (r: Self)
        ensures
            r == *self & other,
    {
        let r = *self & other;
        proof {
            assert forall|i: int| 0 <= i < 8 implies i8_bit(r, i) == (i8_bit(*self, i) && i8_bit(other, i)) by {
                lemma_i8_bitwise(*self, other, i as u8, 0);
            }
            assert(r.bits() =~= and_bits(self.bits(), other.bits()));
        }
        r
    }

    fn nand(&self, other: Self) -> (r: Self)
        ensures
            r == !(*self & other),
    {
        let r = !(*self & other);
        proof {
            assert forall|i: int| 0 <= i < 8 implies i8_bit(r, i) == !(i8_bit(*self, i) && i8_bit(other, i)) by {
                lemma_i8_bitwise(*self, other, i as u8, 0);
                lemma_i8_bitwise(*self & other, other, i as u8, 0);
            }
            assert(r.bits() =~= nand_bits(self.bits(), other.bits()));
        }
        r
    }

    fn shift_left(&self, amount: usize) -> (r: Self)
        ensures
            r == if amount >= 8 { 0 } else { ((*self as u8) << (amount as u8)) as i8 },
    {
        if amount >= 8 {
            proof {
                assert forall|i: int| 0 <= i < 8 implies !i8_bit(0i8, i) by {
                    lemma_i8_bitwise(0, 0, i as u8, 0);
                }
                assert((0i8).bits() =~= shl_bits(self.bits(), amount as nat));
            }
            0
        } else {
            let n = amount as u8;
            let r = ((*self as u8) << n) as i8;
            proof {
                assert forall|i: int| 0 <= i < 8 implies i8_bit(r, i) == (i >= n && i8_bit(*self, i - n)) by {
                    lemma_i8_shift(*self, n, i as u8);
                }
                assert(r.bits() =~= shl_bits(self.bits(), amount as nat));
            }
            r
        }
    }

    fn shift_right(&self, amount: usize) -> (r: Self)
        ensures
            r == if amount >= 8 { 0 } else { ((*self as u8) >> (amount as u8)) as i8 },
    {
        if amount >= 8 {
            proof {
                assert forall|i: int| 0 <= i < 8 implies !i8_bit(0i8, i) by {
                    lemma_i8_bitwise(0, 0, i as u8, 0);
                }
                assert((0i8).bits() =~= shr_bits(self.bits(), amount as nat));
            }
            0
        } else {
            let n = amount as u8;
            let r = ((*self as u8) >> n) as i8;
            proof {
                assert forall|i: int| 0 <= i < 8 implies i8_bit(r, i) == (i + n < 8 && i8_bit(*self, i + n)) by {
                    lemma_i8_shift(*self, n, i as u8);
                }
                assert(r.bits() =~= shr_bits(self.bits(), amount as nat));
            }
            r
        }
    }

    fn or(&self, other: Self) -> (r: Self)
        ensures
            r == *self | other,
    {
        let r = *self | other;
        proof {
            assert forall|i: int| 0 <= i < 8 implies i8_bit(r, i) == (i8_bit(*self, i) || i8_bit(other, i)) by {
                lemma_i8_bitwise(*self, other, i as u8, 0);
            }
            assert(r.bits() =~= or_bits(self.bits(), other.bits()));
        }
        r
    }

    fn xor(&self, other: Self) -> (r: Self)
        ensures
            r == *self ^ other,
    {
        let r = *self ^ other;
        proof {
            assert forall|i: int| 0 <= i < 8 implies i8_bit(r, i) == (i8_bit(*self, i) != i8_bit(other, i)) by {
                lemma_i8_bitwise(*self, other, i as u8, 0);
            }
            assert(r.bits() =~= xor_bits(self.bits(), other.bits()));
        }
        r
    }

    fn not(&self) -> (r: Self)
        ensures
            r == !*self,
    {
        let r = !*self;
        proof {
            assert forall|i: int| 0 <= i < 8 implies i8_bit(r, i) == !i8_bit(*self, i) by {
                lemma_i8_bitwise(*self, 0, i as u8, 0);
            }
            assert(r.bits() =~= not_bits(self.bits()));
        }
        r
    }

    fn nor(&self, other: Self) -> (r: Self)
        ensures
            r == !(*self | other),
    {
        let r = !(*self | other);
        proof {
            assert forall|i: int| 0 <= i < 8 implies i8_bit(r, i) == !(i8_bit(*self, i) || i8_bit(other, i)) by {
                lemma_i8_bitwise(*self, other, i as u8, 0);
                lemma_i8_bitwise(*self | other, other, i as u8, 0);
            }
            assert(r.bits() =~= nor_bits(self.bits(), other.bits()));
        }
        r
    }

    fn and_mut(&mut self, other: &Self)
        ensures
            *final(self) == *old(self) & *other,
    {
        *self = Bitset::and(self, *other);
    }

    fn nand_mut(&mut self, other: &Self)
        ensures
            *final(self) == !(*old(self) & *other),
    {
        *self = Bitset::nand(self, *other);
    }

    fn shift_left_mut(&mut self, amount: usize)
        ensures
            *final(self) == if amount >= 8 { 0 } else { ((*old(self) as u8) << (amount as u8)) as i8 },
    {
        *self = Bitset::shift_left(self, amount);
    }

    fn shift_right_mut(&mut self, amount: usize)
        ensures
            *final(self) == if amount >= 8 { 0 } else { ((*old(self) as u8) >> (amount as u8)) as i8 },
    {
        *self = Bitset::shift_right(self, amount);
    }

    fn or_mut(&mut self, other: &Self)
        ensures
            *final(self) == *old(self) | *other,
    {
        *self = Bitset::or(self, *other);
    }

    fn xor_mut(&mut self, other: &Self)
        ensures
            *final(self) == *old(self) ^ *other,
    {
        *self = Bitset::xor(self, *other);
    }

    fn not_mut(&mut self)
        ensures
            *final(self) == !*old(self),
    {
        *self = Bitset::not(self);
    }

    fn nor_mut(&mut self, other: &Self)
        ensures
            *final(self) == !(*old(self) | *other),
    {
        *self = Bitset::nor(self, *other);
    }

    fn get(&self, field: usize) -> (r: bool) {
        ((*self as u8) >> (field as u8)) & 1 == 1
    }

    fn set(&mut self, field: usize, flag: bool)
        ensures
            *final(self) == if flag { *old(self) | (1i8 << (field as i8)) } else { *old(self) & !(1i8 << (field as i8)) },
    {
        let f = field as i8;
        let x = *self;
        let r = if flag {
            x | (1 << f)
        } else {
            x & !(1 << f)
        };
        proof {
            assert forall|i: int| 0 <= i < 8 implies i8_bit(r, i) == (if i == f { flag } else { i8_bit(x, i) }) by {
                lemma_i8_bitwise(x, 0, i as u8, f as u8);
            }
            assert(r.bits() =~= x.bits().update(field as int, flag));
        }
        *self = r;
    }

    fn length() -> (r: usize)
        ensures
            r == 8,
    {
        8
    }
}


/// Per-bit facts of the bitwise operators on `i16`.
proof fn lemma_i16_bitwise(x: i16, y: i16, i: u16, f: u16)
    by (bit_vector)
    requires
        i < 16,
    ensures
        (((x & y) as u16) >> i) & 1 == 1 <==> ((((x as u16) >> i) & 1 == 1) && (((y as u16) >> i) & 1 == 1)),
        (((x | y) as u16) >> i) & 1 == 1 <==> ((((x as u16) >> i) & 1 == 1) || (((y as u16) >> i) & 1 == 1)),
        (((x ^ y) as u16) >> i) & 1 == 1 <==> ((((x as u16) >> i) & 1 == 1) != (((y as u16) >> i) & 1 == 1)),
        (((!x) as u16) >> i) & 1 == 1 <==> !(((x as u16) >> i) & 1 == 1),
        (((!0i16) as u16) >> i) & 1 == 1,
        !(((0i16 as u16) >> i) & 1 == 1),
        (((x | (1i16 << f)) as u16) >> i) & 1 == 1 <==> ((f < 16 && i == f) || ((x as u16) >> i) & 1 == 1),
        (((x & !(1i16 << f)) as u16) >> i) & 1 == 1 <==> (!(f < 16 && i == f) && ((x as u16) >> i) & 1 == 1),
{
}

/// Per-bit facts of the logical shifts on `i16`, made through `u16`.
proof fn lemma_i16_shift(x: i16, n: u16, i: u16)
    by (bit_vector)
    requires
        i < 16,
        n < 16,
    ensures
        ((((x as u16) << n) as i16 as u16) >> i) & 1 == 1 <==> (i >= n && (((x as u16) >> ((i - n) as u16)) & 1 == 1)),
        ((((x as u16) >> n) as i16 as u16) >> i) & 1 == 1 <==> (i + n < 16 && (((x as u16) >> ((i + n) as u16)) & 1 == 1)),
{
}

/// Bit `i` of a `i16`, least significant first.
pub open spec fn i16_bit(x: i16, i: int) -> bool {
    0 <= i < 16 && ((x as u16) >> (i as u16)) & 1 == 1
}

/// A `i16` is determined by its bits, read from the top down.
proof fn lemma_i16_eq_step(x: i16, y: i16, k: u16)
    by (bit_vector)
    requires
        k < 16,
    ensures
        ((x as u16) >> k) >> 1 == ((y as u16) >> k) >> 1 && (((x as u16) >> k) & 1 == 1) == (((y as u16) >> k) & 1 == 1)
            ==> (x as u16) >> k == (y as u16) >> k,
        k + 1 < 16 ==> ((x as u16) >> k) >> 1 == (x as u16) >> ((k + 1) as u16),
        k + 1 < 16 ==> ((y as u16) >> k) >> 1 == (y as u16) >> ((k + 1) as u16),
        k + 1 == 16 ==> ((x as u16) >> k) >> 1 == 0 && ((y as u16) >> k) >> 1 == 0,
        (x as u16) >> 0 == (y as u16) >> 0 ==> x == y,
{
}

/// Bits `k` and above agreeing, the values shifted right by `k` agree.
proof fn lemma_i16_eq_from(x: i16, y: i16, k: int)
    requires
        0 <= k < 16,
        forall|i: int| k <= i < 16 ==> i16_bit(x, i) == i16_bit(y, i),
    ensures
        (x as u16) >> (k as u16) == (y as u16) >> (k as u16),
    decreases 16 - k,
{
    lemma_i16_eq_step(x, y, k as u16);
    assert(i16_bit(x, k) == i16_bit(y, k));
    if k + 1 < 16 {
        lemma_i16_eq_from(x, y, k + 1);
    }
}

impl Bitset for i16 {
    open spec fn width() -> nat {
        16
    }

    open spec fn bits(&self) -> Seq<bool> {
        Seq::new(16, |i: int| i16_bit(*self, i))
    }

    proof fn lemma_bits_len(x: Self) {
    }

    proof fn lemma_bits_injective(x: Self, y: Self) {
        assert forall|i: int| 0 <= i < 16 implies i16_bit(x, i) == i16_bit(y, i) by {
            assert(x.bits()[i] == i16_bit(x, i));
            assert(y.bits()[i] == i16_bit(y, i));
        }
        lemma_i16_eq_from(x, y, 0);
        lemma_i16_eq_step(x, y, 0);
    }

    fn ones() -> (r: Self)
        ensures
            r == !0i16,
    {
        proof {
            assert forall|i: int| 0 <= i < 16 implies i16_bit(!0i16, i) by {
                lemma_i16_bitwise(0, 0, i as u16, 0);
            }
            assert((!0i16).bits() =~= fill_bits(16, true));
        }
        !0
    }

    fn zeroes() -> (r: Self)
        ensures
            r == 0,
    {
        proof {
            assert forall|i: int| 0 <= i < 16 implies !i16_bit(0i16, i) by {
                lemma_i16_bitwise(0, 0, i as u16, 0);
            }
            assert((0i16).bits() =~= fill_bits(16, false));
        }
        0
    }

    fn and(&self, other: Self) -> (r: Self)
        ensures
            r == *self & other,
    {
        let r = *self & other;
        proof {
            assert forall|i: int| 0 <= i < 16 implies i16_bit(r, i) == (i16_bit(*self, i) && i16_bit(other, i)) by {
                lemma_i16_bitwise(*self, other, i as u16, 0);
            }
            assert(r.bits() =~= and_bits(self.bits(), other.bits()));
        }
        r
    }

    fn nand(&self, other: Self) -> (r: Self)
        ensures
            r == !(*self & other),
    {
        let r = !(*self & other);
        proof {
            assert forall|i: int| 0 <= i < 16 implies i16_bit(r, i) == !(i16_bit(*self, i) && i16_bit(other, i)) by {
                lemma_i16_bitwise(*self, other, i as u16, 0);
                lemma_i16_bitwise(*self & other, other, i as u16, 0);
            }
            assert(r.bits() =~= nand_bits(self.bits(), other.bits()));
        }
        r
    }

    fn shift_left(&self, amount: usize) -> (r: Self)
        ensures
            r == if amount >= 16 { 0 } else { ((*self as u16) << (amount as u16)) as i16 },
    {
        if amount >= 16 {
            proof {
                assert forall|i: int| 0 <= i < 16 implies !i16_bit(0i16, i) by {
                    lemma_i16_bitwise(0, 0, i as u16, 0);
                }
                assert((0i16).bits() =~= shl_bits(self.bits(), amount as nat));
            }
            0
        } else {
            let n = amount as u16;
            let r = ((*self as u16) << n) as i16;
            proof {
                assert forall|i: int| 0 <= i < 16 implies i16_bit(r, i) == (i >= n && i16_bit(*self, i - n)) by {
                    lemma_i16_shift(*self, n, i as u16);
                }
                assert(r.bits() =~= shl_bits(self.bits(), amount as nat));
            }
            r
        }
    }

    fn shift_right(&self, amount: usize) -> (r: Self)
        ensures
            r == if amount >= 16 { 0 } else { ((*self as u16) >> (amount as u16)) as i16 },
    {
        if amount >= 16 {
            proof {
                assert forall|i: int| 0 <= i < 16 implies !i16_bit(0i16, i) by {
                    lemma_i16_bitwise(0, 0, i as u16, 0);
                }
                assert((0i16).bits() =~= shr_bits(self.bits(), amount as nat));
            }
            0
        } else {
            let n = amount as u16;
            let r = ((*self as u16) >> n) as i16;
            proof {
                assert forall|i: int| 0 <= i < 16 implies i16_bit(r, i) == (i + n < 16 && i16_bit(*self, i + n)) by {
                    lemma_i16_shift(*self, n, i as u16);
                }
                assert(r.bits() =~= shr_bits(self.bits(), amount as nat));
            }
            r
        }
    }

    fn or(&self, other: Self) -> (r: Self)
        ensures
            r == *self | other,
    {
        let r = *self | other;
        proof {
            assert forall|i: int| 0 <= i < 16 implies i16_bit(r, i) == (i16_bit(*self, i) || i16_bit(other, i)) by {
                lemma_i16_bitwise(*self, other, i as u16, 0);
            }
            assert(r.bits() =~= or_bits(self.bits(), other.bits()));
        }
        r
    }

    fn xor(&self, other: Self) -> (r: Self)
        ensures
            r == *self ^ other,
    {
        let r = *self ^ other;
        proof {
            assert forall|i: int| 0 <= i < 16 implies i16_bit(r, i) == (i16_bit(*self, i) != i16_bit(other, i)) by {
                lemma_i16_bitwise(*self, other, i as u16, 0);
            }
            assert(r.bits() =~= xor_bits(self.bits(), other.bits()));
        }
        r
    }

    fn not(&self) -> (r: Self)
        ensures
            r == !*self,
    {
        let r = !*self;
        proof {
            assert forall|i: int| 0 <= i < 16 implies i16_bit(r, i) == !i16_bit(*self, i) by {
                lemma_i16_bitwise(*self, 0, i as u16, 0);
            }
            assert(r.bits() =~= not_bits(self.bits()));
        }
        r
    }

    fn nor(&self, other: Self) -> (r: Self)
        ensures
            r == !(*self | other),
    {
        let r = !(*self | other);
        proof {
            assert forall|i: int| 0 <= i < 16 implies i16_bit(r, i) == !(i16_bit(*self, i) || i16_bit(other, i)) by {
                lemma_i16_bitwise(*self, other, i as u16, 0);
                lemma_i16_bitwise(*self | other, other, i as u16, 0);
            }
            assert(r.bits() =~= nor_bits(self.bits(), other.bits()));
        }
        r
    }

    fn and_mut(&mut self, other: &Self)
        ensures
            *final(self) == *old(self) & *other,
    {
        *self = Bitset::and(self, *other);
    }

    fn nand_mut(&mut self, other: &Self)
        ensures
            *final(self) == !(*old(self) & *other),
    {
        *self = Bitset::nand(self, *other);
    }

    fn shift_left_mut(&mut self, amount: usize)
        ensures
            *final(self) == if amount >= 16 { 0 } else { ((*old(self) as u16) << (amount as u16)) as i16 },
    {
        *self = Bitset::shift_left(self, amount);
    }

    fn shift_right_mut(&mut self, amount: usize)
        ensures
            *final(self) == if amount >= 16 { 0 } else { ((*old(self) as u16) >> (amount as u16)) as i16 },
    {
        *self = Bitset::shift_right(self, amount);
    }

    fn or_mut(&mut self, other: &Self)
        ensures
            *final(self) == *old(self) | *other,
    {
        *self = Bitset::or(self, *other);
    }

    fn xor_mut(&mut self, other: &Self)
        ensures
            *final(self) == *old(self) ^ *other,
    {
        *self = Bitset::xor(self, *other);
    }

    fn not_mut(&mut self)
        ensures
            *final(self) == !*old(self),
    {
        *self = Bitset::not(self);
    }

    fn nor_mut(&mut self, other: &Self)
        ensures
            *final(self) == !(*old(self) | *other),
    {
        *self = Bitset::nor(self, *other);
    }

    fn get(&self, field: usize) -> (r: bool) {
        ((*self as u16) >> (field as u16)) & 1 == 1
    }

    fn set(&mut self, field: usize, flag: bool)
        ensures
            *final(self) == if flag { *old(self) | (1i16 << (field as i16)) } else { *old(self) & !(1i16 << (field as i16)) },
    {
        let f = field as i16;
        let x = *self;
        let r = if flag {
            x | (1 << f)
        } else {
            x & !(1 << f)
        };
        proof {
            assert forall|i: int| 0 <= i < 16 implies i16_bit(r, i) == (if i == f { flag } else { i16_bit(x, i) }) by {
                lemma_i16_bitwise(x, 0, i as u16, f as u16);
            }
            assert(r.bits() =~= x.bits().update(field as int, flag));
        }
        *self = r;
    }

    fn length() -> (r: usize)
        ensures
            r == 16,
    {
        16
    }
}


/// Per-bit facts of the bitwise operators on `i32`.
proof fn lemma_i32_bitwise(x: i32, y: i32, i: u32, f: u32)
    by (bit_vector)
    requires
        i < 32,
    ensures
        (((x & y) as u32) >> i) & 1 == 1 <==> ((((x as u32) >> i) & 1 == 1) && (((y as u32) >> i) & 1 == 1)),
        (((x | y) as u32) >> i) & 1 == 1 <==> ((((x as u32) >> i) & 1 == 1) || (((y as u32) >> i) & 1 == 1)),
        (((x ^ y) as u32) >> i) & 1 == 1 <==> ((((x as u32) >> i) & 1 == 1) != (((y as u32) >> i) & 1 == 1)),
        (((!x) as u32) >> i) & 1 == 1 <==> !(((x as u32) >> i) & 1 == 1),
        (((!0i32) as u32) >> i) & 1 == 1,
        !(((0i32 as u32) >> i) & 1 == 1),
        (((x | (1i32 << f)) as u32) >> i) & 1 == 1 <==> ((f < 32 && i == f) || ((x as u32) >> i) & 1 == 1),
        (((x & !(1i32 << f)) as u32) >> i) & 1 == 1 <==> (!(f < 32 && i == f) && ((x as u32) >> i) & 1 == 1),
{
}

/// Per-bit facts of the logical shifts on `i32`, made through `u32`.
proof fn lemma_i32_shift(x: i32, n: u32, i: u32)
    by (bit_vector)
    requires
        i < 32,
        n < 32,
    ensures
        ((((x as u32) << n) as i32 as u32) >> i) & 1 == 1 <==> (i >= n && (((x as u32) >> ((i - n) as u32)) & 1 == 1)),
        ((((x as u32) >> n) as i32 as u32) >> i) & 1 == 1 <==> (i + n < 32 && (((x as u32) >> ((i + n) as u32)) & 1 == 1)),
{
}

/// Bit `i` of a `i32`, least significant first.
pub open spec fn i32_bit(x: i32, i: int) -> bool {
    0 <= i < 32 && ((x as u32) >> (i as u32)) & 1 == 1
}

/// A `i32` is determined by its bits, read from the top down.
proof fn lemma_i32_eq_step(x: i32, y: i32, k: u32)
    by (bit_vector)
    requires
        k < 32,
    ensures
        ((x as u32) >> k) >> 1 == ((y as u32) >> k) >> 1 && (((x as u32) >> k) & 1 == 1) == (((y as u32) >> k) & 1 == 1)
            ==> (x as u32) >> k == (y as u32) >> k,
        k + 1 < 32 ==> ((x as u32) >> k) >> 1 == (x as u32) >> ((k + 1) as u32),
        k + 1 < 32 ==> ((y as u32) >> k) >> 1 == (y as u32) >> ((k + 1) as u32),
        k + 1 == 32 ==> ((x as u32) >> k) >> 1 == 0 && ((y as u32) >> k) >> 1 == 0,
        (x as u32) >> 0 == (y as u32) >> 0 ==> x == y,
{
}

/// Bits `k` and above agreeing, the values shifted right by `k` agree.
proof fn lemma_i32_eq_from(x: i32, y: i32, k: int)
    requires
        0 <= k < 32,
        forall|i: int| k <= i < 32 ==> i32_bit(x, i) == i32_bit(y, i),
    ensures
        (x as u32) >> (k as u32) == (y as u32) >> (k as u32),
    decreases 32 - k,
{
    lemma_i32_eq_step(x, y, k as u32);
    assert(i32_bit(x, k) == i32_bit(y, k));
    if k + 1 < 32 {
        lemma_i32_eq_from(x, y, k + 1);
    }
}

impl Bitset for i32 {
    open spec fn width() -> nat {
        32
    }

    open spec fn bits(&self) -> Seq<bool> {
        Seq::new(32, |i: int| i32_bit(*self, i))
    }

    proof fn lemma_bits_len(x: Self) {
    }

    proof fn lemma_bits_injective(x: Self, y: Self) {
        assert forall|i: int| 0 <= i < 32 implies i32_bit(x, i) == i32_bit(y, i) by {
            assert(x.bits()[i] == i32_bit(x, i));
            assert(y.bits()[i] == i32_bit(y, i));
        }
        lemma_i32_eq_from(x, y, 0);
        lemma_i32_eq_step(x, y, 0);
    }

    fn ones() -> (r: Self)
        ensures
            r == !0i32,
    {
        proof {
            assert forall|i: int| 0 <= i < 32 implies i32_bit(!0i32, i) by {
                lemma_i32_bitwise(0, 0, i as u32, 0);
            }
            assert((!0i32).bits() =~= fill_bits(32, true));
        }
        !0
    }

    fn zeroes() -> (r: Self)
        ensures
            r == 0,
    {
        proof {
            assert forall|i: int| 0 <= i < 32 implies !i32_bit(0i32, i) by {
                lemma_i32_bitwise(0, 0, i as u32, 0);
            }
            assert((0i32).bits() =~= fill_bits(32, false));
        }
        0
    }

    fn and(&self, other: Self) -> (r: Self)
        ensures
            r == *self & other,
    {
        let r = *self & other;
        proof {
            assert forall|i: int| 0 <= i < 32 implies i32_bit(r, i) == (i32_bit(*self, i) && i32_bit(other, i)) by {
                lemma_i32_bitwise(*self, other, i as u32, 0);
            }
            assert(r.bits() =~= and_bits(self.bits(), other.bits()));
        }
        r
    }

    fn nand(&self, other: Self) -> (r: Self)
        ensures
            r == !(*self & other),
    {
        let r = !(*self & other);
        proof {
            assert forall|i: int| 0 <= i < 32 implies i32_bit(r, i) == !(i32_bit(*self, i) && i32_bit(other, i)) by {
                lemma_i32_bitwise(*self, other, i as u32, 0);
                lemma_i32_bitwise(*self & other, other, i as u32, 0);
            }
            assert(r.bits() =~= nand_bits(self.bits(), other.bits()));
        }
        r
    }

    fn shift_left(&self, amount: usize) -> (r: Self)
        ensures
            r == if amount >= 32 { 0 } else { ((*self as u32) << (amount as u32)) as i32 },
    {
        if amount >= 32 {
            proof {
                assert forall|i: int| 0 <= i < 32 implies !i32_bit(0i32, i) by {
                    lemma_i32_bitwise(0, 0, i as u32, 0);
                }
                assert((0i32).bits() =~= shl_bits(self.bits(), amount as nat));
            }
            0
        } else {
            let n = amount as u32;
            let r = ((*self as u32) << n) as i32;
            proof {
                assert forall|i: int| 0 <= i < 32 implies i32_bit(r, i) == (i >= n && i32_bit(*self, i - n)) by {
                    lemma_i32_shift(*self, n, i as u32);
                }
                assert(r.bits() =~= shl_bits(self.bits(), amount as nat));
            }
            r
        }
    }

    fn shift_right(&self, amount: usize) -> (r: Self)
        ensures
            r == if amount >= 32 { 0 } else { ((*self as u32) >> (amount as u32)) as i32 },
    {
        if amount >= 32 {
            proof {
                assert forall|i: int| 0 <= i < 32 implies !i32_bit(0i32, i) by {
                    lemma_i32_bitwise(0, 0, i as u32, 0);
                }
                assert((0i32).bits() =~= shr_bits(self.bits(), amount as nat));
            }
            0
        } else {
            let n = amount as u32;
            let r = ((*self as u32) >> n) as i32;
            proof {
                assert forall|i: int| 0 <= i < 32 implies i32_bit(r, i) == (i + n < 32 && i32_bit(*self, i + n)) by {
                    lemma_i32_shift(*self, n, i as u32);
                }
                assert(r.bits() =~= shr_bits(self.bits(), amount as nat));
            }
            r
        }
    }

    fn or(&self, other: Self) -> (r: Self)
        ensures
            r == *self | other,
    {
        let r = *self | other;
        proof {
            assert forall|i: int| 0 <= i < 32 implies i32_bit(r, i) == (i32_bit(*self, i) || i32_bit(other, i)) by {
                lemma_i32_bitwise(*self, other, i as u32, 0);
            }
            assert(r.bits() =~= or_bits(self.bits(), other.bits()));
        }
        r
    }

    fn xor(&self, other: Self) -> (r: Self)
        ensures
            r == *self ^ other,
    {
        let r = *self ^ other;
        proof {
            assert forall|i: int| 0 <= i < 32 implies i32_bit(r, i) == (i32_bit(*self, i) != i32_bit(other, i)) by {
                lemma_i32_bitwise(*self, other, i as u32, 0);
            }
            assert(r.bits() =~= xor_bits(self.bits(), other.bits()));
        }
        r
    }

    fn not(&self) -> (r: Self)
        ensures
            r == !*self,
    {
        let r = !*self;
        proof {
            assert forall|i: int| 0 <= i < 32 implies i32_bit(r, i) == !i32_bit(*self, i) by {
                lemma_i32_bitwise(*self, 0, i as u32, 0);
            }
            assert(r.bits() =~= not_bits(self.bits()));
        }
        r
    }

    fn nor(&self, other: Self) -> (r: Self)
        ensures
            r == !(*self | other),
    {
        let r = !(*self | other);
        proof {
            assert forall|i: int| 0 <= i < 32 implies i32_bit(r, i) == !(i32_bit(*self, i) || i32_bit(other, i)) by {
                lemma_i32_bitwise(*self, other, i as u32, 0);
                lemma_i32_bitwise(*self | other, other, i as u32, 0);
            }
            assert(r.bits() =~= nor_bits(self.bits(), other.bits()));
        }
        r
    }

    fn and_mut(&mut self, other: &Self)
        ensures
            *final(self) == *old(self) & *other,
    {
        *self = Bitset::and(self, *other);
    }

    fn nand_mut(&mut self, other: &Self)
        ensures
            *final(self) == !(*old(self) & *other),
    {
        *self = Bitset::nand(self, *other);
    }

    fn shift_left_mut(&mut self, amount: usize)
        ensures
            *final(self) == if amount >= 32 { 0 } else { ((*old(self) as u32) << (amount as u32)) as i32 },
    {
        *self = Bitset::shift_left(self, amount);
    }

    fn shift_right_mut(&mut self, amount: usize)
        ensures
            *final(self) == if amount >= 32 { 0 } else { ((*old(self) as u32) >> (amount as u32)) as i32 },
    {
        *self = Bitset::shift_right(self, amount);
    }

    fn or_mut(&mut self, other: &Self)
        ensures
            *final(self) == *old(self) | *other,
    {
        *self = Bitset::or(self, *other);
    }

    fn xor_mut(&mut self, other: &Self)
        ensures
            *final(self) == *old(self) ^ *other,
    {
        *self = Bitset::xor(self, *other);
    }

    fn not_mut(&mut self)
        ensures
            *final(self) == !*old(self),
    {
        *self = Bitset::not(self);
    }

    fn nor_mut(&mut self, other: &Self)
        ensures
            *final(self) == !(*old(self) | *other),
    {
        *self = Bitset::nor(self, *other);
    }

    fn get(&self, field: usize) -> (r: bool) {
        ((*self as u32) >> (field as u32)) & 1 == 1
    }

    fn set(&mut self, field: usize, flag: bool)
        ensures
            *final(self) == if flag { *old(self) | (1i32 << (field as i32)) } else { *old(self) & !(1i32 << (field as i32)) },
    {
        let f = field as i32;
        let x = *self;
        let r = if flag {
            x | (1 << f)
        } else {
            x & !(1 << f)
        };
        proof {
            assert forall|i: int| 0 <= i < 32 implies i32_bit(r, i) == (if i == f { flag } else { i32_bit(x, i) }) by {
                lemma_i32_bitwise(x, 0, i as u32, f as u32);
            }
            assert(r.bits() =~= x.bits().update(field as int, flag));
        }
        *self = r;
    }

    fn length() -> (r: usize)
        ensures
            r == 32,
    {
        32
    }
}


/// Per-bit facts of the bitwise operators on `i64`.
proof fn lemma_i64_bitwise(x: i64, y: i64, i: u64, f: u64)
    by (bit_vector)
    requires
        i < 64,
    ensures
        (((x & y) as u64) >> i) & 1 == 1 <==> ((((x as u64) >> i) & 1 == 1) && (((y as u64) >> i) & 1 == 1)),
        (((x | y) as u64) >> i) & 1 == 1 <==> ((((x as u64) >> i) & 1 == 1) || (((y as u64) >> i) & 1 == 1)),
        (((x ^ y) as u64) >> i) & 1 == 1 <==> ((((x as u64) >> i) & 1 == 1) != (((y as u64) >> i) & 1 == 1)),
        (((!x) as u64) >> i) & 1 == 1 <==> !(((x as u64) >> i) & 1 == 1),
        (((!0i64) as u64) >> i) & 1 == 1,
        !(((0i64 as u64) >> i) & 1 == 1),
        (((x | (1i64 << f)) as u64) >> i) & 1 == 1 <==> ((f < 64 && i == f) || ((x as u64) >> i) & 1 == 1),
        (((x & !(1i64 << f)) as u64) >> i) & 1 == 1 <==> (!(f < 64 && i == f) && ((x as u64) >> i) & 1 == 1),
{
}

/// Per-bit facts of the logical shifts on `i64`, made through `u64`.
proof fn lemma_i64_shift(x: i64, n: u64, i: u64)
    by (bit_vector)
    requires
        i < 64,
        n < 64,
    ensures
        ((((x as u64) << n) as i64 as u64) >> i) & 1 == 1 <==> (i >= n && (((x as u64) >> ((i - n) as u64)) & 1 == 1)),
        ((((x as u64) >> n) as i64 as u64) >> i) & 1 == 1 <==> (i + n < 64 && (((x as u64) >> ((i + n) as u64)) & 1 == 1)),
{
}

/// Bit `i` of a `i64`, least significant first.
pub open spec fn i64_bit(x: i64, i: int) -> bool {
    0 <= i < 64 && ((x as u64) >> (i as u64)) & 1 == 1
}

/// A `i64` is determined by its bits, read from the top down.
proof fn lemma_i64_eq_step(x: i64, y: i64, k: u64)
    by (bit_vector)
    requires
        k < 64,
    ensures
        ((x as u64) >> k) >> 1 == ((y as u64) >> k) >> 1 && (((x as u64) >> k) & 1 == 1) == (((y as u64) >> k) & 1 == 1)
            ==> (x as u64) >> k == (y as u64) >> k,
        k + 1 < 64 ==> ((x as u64) >> k) >> 1 == (x as u64) >> ((k + 1) as u64),
        k + 1 < 64 ==> ((y as u64) >> k) >> 1 == (y as u64) >> ((k + 1) as u64),
        k + 1 == 64 ==> ((x as u64) >> k) >> 1 == 0 && ((y as u64) >> k) >> 1 == 0,
        (x as u64) >> 0 == (y as u64) >> 0 ==> x == y,
{
}

/// Bits `k` and above agreeing, the values shifted right by `k` agree.
proof fn lemma_i64_eq_from(x: i64, y: i64, k: int)
    requires
        0 <= k < 64,
        forall|i: int| k <= i < 64 ==> i64_bit(x, i) == i64_bit(y, i),
    ensures
        (x as u64) >> (k as u64) == (y as u64) >> (k as u64),
    decreases 64 - k,
{
    lemma_i64_eq_step(x, y, k as u64);
    assert(i64_bit(x, k) == i64_bit(y, k));
    if k + 1 < 64 {
        lemma_i64_eq_from(x, y, k + 1);
    }
}

impl Bitset for i64 {
    open spec fn width() -> nat {
        64
    }

    open spec fn bits(&self) -> Seq<bool> {
        Seq::new(64, |i: int| i64_bit(*self, i))
    }

    proof fn lemma_bits_len(x: Self) {
    }

    proof fn lemma_bits_injective(x: Self, y: Self) {
        assert forall|i: int| 0 <= i < 64 implies i64_bit(x, i) == i64_bit(y, i) by {
            assert(x.bits()[i] == i64_bit(x, i));
            assert(y.bits()[i] == i64_bit(y, i));
        }
        lemma_i64_eq_from(x, y, 0);
        lemma_i64_eq_step(x, y, 0);
    }

    fn ones() -> (r: Self)
        ensures
            r == !0i64,
    {
        proof {
            assert forall|i: int| 0 <= i < 64 implies i64_bit(!0i64, i) by {
                lemma_i64_bitwise(0, 0, i as u64, 0);
            }
            assert((!0i64).bits() =~= fill_bits(64, true));
        }
        !0
    }

    fn zeroes() -> (r: Self)
        ensures
            r == 0,
    {
        proof {
            assert forall|i: int| 0 <= i < 64 implies !i64_bit(0i64, i) by {
                lemma_i64_bitwise(0, 0, i as u64, 0);
            }
            assert((0i64).bits() =~= fill_bits(64, false));
        }
        0
    }

    fn and(&self, other: Self) -> (r: Self)
        ensures
            r == *self & other,
    {
        let r = *self & other;
        proof {
            assert forall|i: int| 0 <= i < 64 implies i64_bit(r, i) == (i64_bit(*self, i) && i64_bit(other, i)) by {
                lemma_i64_bitwise(*self, other, i as u64, 0);
            }
            assert(r.bits() =~= and_bits(self.bits(), other.bits()));
        }
        r
    }

    fn nand(&self, other: Self) -> (r: Self)
        ensures
            r == !(*self & other),
    {
        let r = !(*self & other);
        proof {
            assert forall|i: int| 0 <= i < 64 implies i64_bit(r, i) == !(i64_bit(*self, i) && i64_bit(other, i)) by {
                lemma_i64_bitwise(*self, other, i as u64, 0);
                lemma_i64_bitwise(*self & other, other, i as u64, 0);
            }
            assert(r.bits() =~= nand_bits(self.bits(), other.bits()));
        }
        r
    }

    fn shift_left(&self, amount: usize) -> (r: Self)
        ensures
            r == if amount >= 64 { 0 } else { ((*self as u64) << (amount as u64)) as i64 },
    {
        if amount >= 64 {
            proof {
                assert forall|i: int| 0 <= i < 64 implies !i64_bit(0i64, i) by {
                    lemma_i64_bitwise(0, 0, i as u64, 0);
                }
                assert((0i64).bits() =~= shl_bits(self.bits(), amount as nat));
            }
            0
        } else {
            let n = amount as u64;
            let r = ((*self as u64) << n) as i64;
            proof {
                assert forall|i: int| 0 <= i < 64 implies i64_bit(r, i) == (i >= n && i64_bit(*self, i - n)) by {
                    lemma_i64_shift(*self, n, i as u64);
                }
                assert(r.bits() =~= shl_bits(self.bits(), amount as nat));
            }
            r
        }
    }

    fn shift_right(&self, amount: usize) -> (r: Self)
        ensures
            r == if amount >= 64 { 0 } else { ((*self as u64) >> (amount as u64)) as i64 },
    {
        if amount >= 64 {
            proof {
                assert forall|i: int| 0 <= i < 64 implies !i64_bit(0i64, i) by {
                    lemma_i64_bitwise(0, 0, i as u64, 0);
                }
                assert((0i64).bits() =~= shr_bits(self.bits(), amount as nat));
            }
            0
        } else {
            let n = amount as u64;
            let r = ((*self as u64) >> n) as i64;
            proof {
                assert forall|i: int| 0 <= i < 64 implies i64_bit(r, i) == (i + n < 64 && i64_bit(*self, i + n)) by {
                    lemma_i64_shift(*self, n, i as u64);
                }
                assert(r.bits() =~= shr_bits(self.bits(), amount as nat));
            }
            r
        }
    }

    fn or(&self, other: Self) -> (r: Self)
        ensures
            r == *self | other,
    {
        let r = *self | other;
        proof {
            assert forall|i: int| 0 <= i < 64 implies i64_bit(r, i) == (i64_bit(*self, i) || i64_bit(other, i)) by {
                lemma_i64_bitwise(*self, other, i as u64, 0);
            }
            assert(r.bits() =~= or_bits(self.bits(), other.bits()));
        }
        r
    }

    fn xor(&self, other: Self) -> (r: Self)
        ensures
            r == *self ^ other,
    {
        let r = *self ^ other;
        proof {
            assert forall|i: int| 0 <= i < 64 implies i64_bit(r, i) == (i64_bit(*self, i) != i64_bit(other, i)) by {
                lemma_i64_bitwise(*self, other, i as u64, 0);
            }
            assert(r.bits() =~= xor_bits(self.bits(), other.bits()));
        }
        r
    }

    fn not(&self) -> (r: Self)
        ensures
            r == !*self,
    {
        let r = !*self;
        proof {
            assert forall|i: int| 0 <= i < 64 implies i64_bit(r, i) == !i64_bit(*self, i) by {
                lemma_i64_bitwise(*self, 0, i as u64, 0);
            }
            assert(r.bits() =~= not_bits(self.bits()));
        }
        r
    }

    fn nor(&self, other: Self) -> (r: Self)
        ensures
            r == !(*self | other),
    {
        let r = !(*self | other);
        proof {
            assert forall|i: int| 0 <= i < 64 implies i64_bit(r, i) == !(i64_bit(*self, i) || i64_bit(other, i)) by {
                lemma_i64_bitwise(*self, other, i as u64, 0);
                lemma_i64_bitwise(*self | other, other, i as u64, 0);
            }
            assert(r.bits() =~= nor_bits(self.bits(), other.bits()));
        }
        r
    }

    fn and_mut(&mut self, other: &Self)
        ensures
            *final(self) == *old(self) & *other,
    {
        *self = Bitset::and(self, *other);
    }

    fn nand_mut(&mut self, other: &Self)
        ensures
            *final(self) == !(*old(self) & *other),
    {
        *self = Bitset::nand(self, *other);
    }

    fn shift_left_mut(&mut self, amount: usize)
        ensures
            *final(self) == if amount >= 64 { 0 } else { ((*old(self) as u64) << (amount as u64)) as i64 },
    {
        *self = Bitset::shift_left(self, amount);
    }

    fn shift_right_mut(&mut self, amount: usize)
        ensures
            *final(self) == if amount >= 64 { 0 } else { ((*old(self) as u64) >> (amount as u64)) as i64 },
    {
        *self = Bitset::shift_right(self, amount);
    }

    fn or_mut(&mut self, other: &Self)
        ensures
            *final(self) == *old(self) | *other,
    {
        *self = Bitset::or(self, *other);
    }

    fn xor_mut(&mut self, other: &Self)
        ensures
            *final(self) == *old(self) ^ *other,
    {
        *self = Bitset::xor(self, *other);
    }

    fn not_mut(&mut self)
        ensures
            *final(self) == !*old(self),
    {
        *self = Bitset::not(self);
    }

    fn nor_mut(&mut self, other: &Self)
        ensures
            *final(self) == !(*old(self) | *other),
    {
        *self = Bitset::nor(self, *other);
    }

    fn get(&self, field: usize) -> (r: bool) {
        ((*self as u64) >> (field as u64)) & 1 == 1
    }

    fn set(&mut self, field: usize, flag: bool)
        ensures
            *final(self) == if flag { *old(self) | (1i64 << (field as i64)) } else { *old(self) & !(1i64 << (field as i64)) },
    {
        let f = field as i64;
        let x = *self;
        let r = if flag {
            x | (1 << f)
        } else {
            x & !(1 << f)
        };
        proof {
            assert forall|i: int| 0 <= i < 64 implies i64_bit(r, i) == (if i == f { flag } else { i64_bit(x, i) }) by {
                lemma_i64_bitwise(x, 0, i as u64, f as u64);
            }
            assert(r.bits() =~= x.bits().update(field as int, flag));
        }
        *self = r;
    }

    fn length() -> (r: usize)
        ensures
            r == 64,
    {
        64
    }
}


/// Per-bit facts of the bitwise operators on `i128`.
proof fn lemma_i128_bitwise(x: i128, y: i128, i: u128, f: u128)
    by (bit_vector)
    requires
        i < 128,
    ensures
        (((x & y) as u128) >> i) & 1 == 1 <==> ((((x as u128) >> i) & 1 == 1) && (((y as u128) >> i) & 1 == 1)),
        (((x | y) as u128) >> i) & 1 == 1 <==> ((((x as u128) >> i) & 1 == 1) || (((y as u128) >> i) & 1 == 1)),
        (((x ^ y) as u128) >> i) & 1 == 1 <==> ((((x as u128) >> i) & 1 == 1) != (((y as u128) >> i) & 1 == 1)),
        (((!x) as u128) >> i) & 1 == 1 <==> !(((x as u128) >> i) & 1 == 1),
        (((!0i128) as u128) >> i) & 1 == 1,
        !(((0i128 as u128) >> i) & 1 == 1),
        (((x | (1i128 << f)) as u128) >> i) & 1 == 1 <==> ((f < 128 && i == f) || ((x as u128) >> i) & 1 == 1),
        (((x & !(1i128 << f)) as u128) >> i) & 1 == 1 <==> (!(f < 128 && i == f) && ((x as u128) >> i) & 1 == 1),
{
}

/// Per-bit facts of the logical shifts on `i128`, made through `u128`.
proof fn lemma_i128_shift(x: i128, n: u128, i: u128)
    by (bit_vector)
    requires
        i < 128,
        n < 128,
    ensures
        ((((x as u128) << n) as i128 as u128) >> i) & 1 == 1 <==> (i >= n && (((x as u128) >> ((i - n) as u128)) & 1 == 1)),
        ((((x as u128) >> n) as i128 as u128) >> i) & 1 == 1 <==> (i + n < 128 && (((x as u128) >> ((i + n) as u128)) & 1 == 1)),
{
}

/// Bit `i` of a `i128`, least significant first.
pub open spec fn i128_bit(x: i128, i: int) -> bool {
    0 <= i < 128 && ((x as u128) >> (i as u128)) & 1 == 1
}

/// A `i128` is determined by its bits, read from the top down.
#[verifier::rlimit(100)]
proof fn lemma_i128_eq_step(x: i128, y: i128, k: u128)
    by (bit_vector)
    requires
        k < 128,
    ensures
        ((x as u128) >> k) >> 1 == ((y as u128) >> k) >> 1 && (((x as u128) >> k) & 1 == 1) == (((y as u128) >> k) & 1 == 1)
            ==> (x as u128) >> k == (y as u128) >> k,
        k + 1 < 128 ==> ((x as u128) >> k) >> 1 == (x as u128) >> ((k + 1) as u128),
        k + 1 < 128 ==> ((y as u128) >> k) >> 1 == (y as u128) >> ((k + 1) as u128),
        k + 1 == 128 ==> ((x as u128) >> k) >> 1 == 0 && ((y as u128) >> k) >> 1 == 0,
        (x as u128) >> 0 == (y as u128) >> 0 ==> x == y,
{
}

/// Bits `k` and above agreeing, the values shifted right by `k` agree.
proof fn lemma_i128_eq_from(x: i128, y: i128, k: int)
    requires
        0 <= k < 128,
        forall|i: int| k <= i < 128 ==> i128_bit(x, i) == i128_bit(y, i),
    ensures
        (x as u128) >> (k as u128) == (y as u128) >> (k as u128),
    decreases 128 - k,
{
    lemma_i128_eq_step(x, y, k as u128);
    assert(i128_bit(x, k) == i128_bit(y, k));
    if k + 1 < 128 {
        lemma_i128_eq_from(x, y, k + 1);
    }
}

impl Bitset for i128 {
    open spec fn width() -> nat {
        128
    }

    open spec fn bits(&self) -> Seq<bool> {
        Seq::new(128, |i: int| i128_bit(*self, i))
    }

    proof fn lemma_bits_len(x: Self) {
    }

    proof fn lemma_bits_injective(x: Self, y: Self) {
        assert forall|i: int| 0 <= i < 128 implies i128_bit(x, i) == i128_bit(y, i) by {
            assert(x.bits()[i] == i128_bit(x, i));
            assert(y.bits()[i] == i128_bit(y, i));
        }
        lemma_i128_eq_from(x, y, 0);
        lemma_i128_eq_step(x, y, 0);
    }

    fn ones() -> (r: Self)
        ensures
            r == !0i128,
    {
        proof {
            assert forall|i: int| 0 <= i < 128 implies i128_bit(!0i128, i) by {
                lemma_i128_bitwise(0, 0, i as u128, 0);
            }
            assert((!0i128).bits() =~= fill_bits(128, true));
        }
        !0
    }

    fn zeroes() -> (r: Self)
        ensures
            r == 0,
    {
        proof {
            assert forall|i: int| 0 <= i < 128 implies !i128_bit(0i128, i) by {
                lemma_i128_bitwise(0, 0, i as u128, 0);
            }
            assert((0i128).bits() =~= fill_bits(128, false));
        }
        0
    }

    fn and(&self, other: Self) -> (r: Self)
        ensures
            r == *self & other,
    {
        let r = *self & other;
        proof {
            assert forall|i: int| 0 <= i < 128 implies i128_bit(r, i) == (i128_bit(*self, i) && i128_bit(other, i)) by {
                lemma_i128_bitwise(*self, other, i as u128, 0);
            }
            assert(r.bits() =~= and_bits(self.bits(), other.bits()));
        }
        r
    }

    fn nand(&self, other: Self) -> (r: Self)
        ensures
            r == !(*self & other),
    {
        let r = !(*self & other);
        proof {
            assert forall|i: int| 0 <= i < 128 implies i128_bit(r, i) == !(i128_bit(*self, i) && i128_bit(other, i)) by {
                lemma_i128_bitwise(*self, other, i as u128, 0);
                lemma_i128_bitwise(*self & other, other, i as u128, 0);
            }
            assert(r.bits() =~= nand_bits(self.bits(), other.bits()));
        }
        r
    }

    fn shift_left(&self, amount: usize) -> (r: Self)
        ensures
            r == if amount >= 128 { 0 } else { ((*self as u128) << (amount as u128)) as i128 },
    {
        if amount >= 128 {
            proof {
                assert forall|i: int| 0 <= i < 128 implies !i128_bit(0i128, i) by {
                    lemma_i128_bitwise(0, 0, i as u128, 0);
                }
                assert((0i128).bits() =~= shl_bits(self.bits(), amount as nat));
            }
            0
        } else {
            let n = amount as u128;
            let r = ((*self as u128) << n) as i128;
            proof {
                assert forall|i: int| 0 <= i < 128 implies i128_bit(r, i) == (i >= n && i128_bit(*self, i - n)) by {
                    lemma_i128_shift(*self, n, i as u128);
                }
                assert(r.bits() =~= shl_bits(self.bits(), amount as nat));
            }
            r
        }
    }

    fn shift_right(&self, amount: usize) -> (r: Self)
        ensures
            r == if amount >= 128 { 0 } else { ((*self as u128) >> (amount as u128)) as i128 },
    {
        if amount >= 128 {
            proof {
                assert forall|i: int| 0 <= i < 128 implies !i128_bit(0i128, i) by {
                    lemma_i128_bitwise(0, 0, i as u128, 0);
                }
                assert((0i128).bits() =~= shr_bits(self.bits(), amount as nat));
            }
            0
        } else {
            let n = amount as u128;
            let r = ((*self as u128) >> n) as i128;
            proof {
                assert forall|i: int| 0 <= i < 128 implies i128_bit(r, i) == (i + n < 128 && i128_bit(*self, i + n)) by {
                    lemma_i128_shift(*self, n, i as u128);
                }
                assert(r.bits() =~= shr_bits(self.bits(), amount as nat));
            }
            r
        }
    }

    fn or(&self, other: Self) -> (r: Self)
        ensures
            r == *self | other,
    {
        let r = *self | other;
        proof {
            assert forall|i: int| 0 <= i < 128 implies i128_bit(r, i) == (i128_bit(*self, i) || i128_bit(other, i)) by {
                lemma_i128_bitwise(*self, other, i as u128, 0);
            }
            assert(r.bits() =~= or_bits(self.bits(), other.bits()));
        }
        r
    }

    fn xor(&self, other: Self) -> (r: Self)
        ensures
            r == *self ^ other,
    {
        let r = *self ^ other;
        proof {
            assert forall|i: int| 0 <= i < 128 implies i128_bit(r, i) == (i128_bit(*self, i) != i128_bit(other, i)) by {
                lemma_i128_bitwise(*self, other, i as u128, 0);
            }
            assert(r.bits() =~= xor_bits(self.bits(), other.bits()));
        }
        r
    }

    fn not(&self) -> (r: Self)
        ensures
            r == !*self,
    {
        let r = !*self;
        proof {
            assert forall|i: int| 0 <= i < 128 implies i128_bit(r, i) == !i128_bit(*self, i) by {
                lemma_i128_bitwise(*self, 0, i as u128, 0);
            }
            assert(r.bits() =~= not_bits(self.bits()));
        }
        r
    }

    fn nor(&self, other: Self) -> (r: Self)
        ensures
            r == !(*self | other),
    {
        let r = !(*self | other);
        proof {
            assert forall|i: int| 0 <= i < 128 implies i128_bit(r, i) == !(i128_bit(*self, i) || i128_bit(other, i)) by {
                lemma_i128_bitwise(*self, other, i as u128, 0);
                lemma_i128_bitwise(*self | other, other, i as u128, 0);
            }
            assert(r.bits() =~= nor_bits(self.bits(), other.bits()));
        }
        r
    }

    fn and_mut(&mut self, other: &Self)
        ensures
            *final(self) == *old(self) & *other,
    {
        *self = Bitset::and(self, *other);
    }

    fn nand_mut(&mut self, other: &Self)
        ensures
            *final(self) == !(*old(self) & *other),
    {
        *self = Bitset::nand(self, *other);
    }

    fn shift_left_mut(&mut self, amount: usize)
        ensures
            *final(self) == if amount >= 128 { 0 } else { ((*old(self) as u128) << (amount as u128)) as i128 },
    {
        *self = Bitset::shift_left(self, amount);
    }

    fn shift_right_mut(&mut self, amount: usize)
        ensures
            *final(self) == if amount >= 128 { 0 } else { ((*old(self) as u128) >> (amount as u128)) as i128 },
    {
        *self = Bitset::shift_right(self, amount);
    }

    fn or_mut(&mut self, other: &Self)
        ensures
            *final(self) == *old(self) | *other,
    {
        *self = Bitset::or(self, *other);
    }

    fn xor_mut(&mut self, other: &Self)
        ensures
            *final(self) == *old(self) ^ *other,
    {
        *self = Bitset::xor(self, *other);
    }

    fn not_mut(&mut self)
        ensures
            *final(self) == !*old(self),
    {
        *self = Bitset::not(self);
    }

    fn nor_mut(&mut self, other: &Self)
        ensures
            *final(self) == !(*old(self) | *other),
    {
        *self = Bitset::nor(self, *other);
    }

    fn get(&self, field: usize) -> (r: bool) {
        ((*self as u128) >> (field as u128)) & 1 == 1
    }

    fn set(&mut self, field: usize, flag: bool)
        ensures
            *final(self) == if flag { *old(self) | (1i128 << (field as i128)) } else { *old(self) & !(1i128 << (field as i128)) },
    {
        let f = field as i128;
        let x = *self;
        let r = if flag {
            x | (1 << f)
        } else {
            x & !(1 << f)
        };
        proof {
            assert forall|i: int| 0 <= i < 128 implies i128_bit(r, i) == (if i == f { flag } else { i128_bit(x, i) }) by {
                lemma_i128_bitwise(x, 0, i as u128, f as u128);
            }
            assert(r.bits() =~= x.bits().update(field as int, flag));
        }
        *self = r;
    }

    fn length() -> (r: usize)
        ensures
            r == 128,
    {
        128
    }
}

} // verus!
