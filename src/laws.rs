//! Laws of the bit-vector operations, stated over the bit-sequence model.

use vstd::prelude::*;

use crate::bitset::Bitset;
use crate::bitvec::Bitvec;
use crate::model::{
    and_bits, fill_bits, nand_bits, nor_bits, not_bits, or_bits, shl_bits, shr_bits, xor_bits,
};
use crate::unsigned::{lemma_u128_bitwise, lemma_u128_shift, lemma_u64_bitwise, lemma_u64_shift};

verus! {

/// A vector whose bits are those of the native `u64` values `x` and `y`
/// computes what the native operators compute: AND, OR, XOR, NAND, NOR and
/// NOT of the vectors hold the bits of `x & y`, `x | y`, `x ^ y`, `!(x & y)`,
/// `!(x | y)` and `!x`, and its shifts by `n < 64` hold those of `x << n` and
/// `x >> n`.
pub proof fn lemma_matches_u64<const N: usize, T: Bitset>(
    v: Bitvec<N, T>,
    w: Bitvec<N, T>,
    x: u64,
    y: u64,
    n: u64,
)
    requires
        v.bits() == x.bits(),
        w.bits() == y.bits(),
        n < 64,
    ensures
        and_bits(v.bits(), w.bits()) == (x & y).bits(),
        or_bits(v.bits(), w.bits()) == (x | y).bits(),
        xor_bits(v.bits(), w.bits()) == (x ^ y).bits(),
        nand_bits(v.bits(), w.bits()) == (!(x & y)).bits(),
        nor_bits(v.bits(), w.bits()) == (!(x | y)).bits(),
        not_bits(v.bits()) == (!x).bits(),
        shl_bits(v.bits(), n as nat) == (x << n).bits(),
        shr_bits(v.bits(), n as nat) == (x >> n).bits(),
{
    assert forall|i: int| 0 <= i < 64 implies and_bits(v.bits(), w.bits())[i] == (x & y).bits()[i] by {
        lemma_u64_bitwise(x, y, i as u64);
    }
    assert(and_bits(v.bits(), w.bits()) =~= (x & y).bits());
    assert forall|i: int| 0 <= i < 64 implies or_bits(v.bits(), w.bits())[i] == (x | y).bits()[i] by {
        lemma_u64_bitwise(x, y, i as u64);
    }
    assert(or_bits(v.bits(), w.bits()) =~= (x | y).bits());
    assert forall|i: int| 0 <= i < 64 implies xor_bits(v.bits(), w.bits())[i] == (x ^ y).bits()[i] by {
        lemma_u64_bitwise(x, y, i as u64);
    }
    assert(xor_bits(v.bits(), w.bits()) =~= (x ^ y).bits());
    assert forall|i: int| 0 <= i < 64 implies nand_bits(v.bits(), w.bits())[i] == (!(x & y)).bits()[i] by {
        lemma_u64_bitwise(x, y, i as u64);
        lemma_u64_bitwise(x & y, 0, i as u64);
    }
    assert(nand_bits(v.bits(), w.bits()) =~= (!(x & y)).bits());
    assert forall|i: int| 0 <= i < 64 implies nor_bits(v.bits(), w.bits())[i] == (!(x | y)).bits()[i] by {
        lemma_u64_bitwise(x, y, i as u64);
        lemma_u64_bitwise(x | y, 0, i as u64);
    }
    assert(nor_bits(v.bits(), w.bits()) =~= (!(x | y)).bits());
    assert forall|i: int| 0 <= i < 64 implies not_bits(v.bits())[i] == (!x).bits()[i] by {
        lemma_u64_bitwise(x, y, i as u64);
    }
    assert(not_bits(v.bits()) =~= (!x).bits());
    assert forall|i: int| 0 <= i < 64 implies shl_bits(v.bits(), n as nat)[i] == (x << n).bits()[i] by {
        lemma_u64_shift(x, n, i as u64);
    }
    assert(shl_bits(v.bits(), n as nat) =~= (x << n).bits());
    assert forall|i: int| 0 <= i < 64 implies shr_bits(v.bits(), n as nat)[i] == (x >> n).bits()[i] by {
        lemma_u64_shift(x, n, i as u64);
    }
    assert(shr_bits(v.bits(), n as nat) =~= (x >> n).bits());
}

/// The same agreement with the native `u128` operators, for vectors of 128 bits.
pub proof fn lemma_matches_u128<const N: usize, T: Bitset>(
    v: Bitvec<N, T>,
    w: Bitvec<N, T>,
    x: u128,
    y: u128,
    n: u128,
)
    requires
        v.bits() == x.bits(),
        w.bits() == y.bits(),
        n < 128,
    ensures
        and_bits(v.bits(), w.bits()) == (x & y).bits(),
        or_bits(v.bits(), w.bits()) == (x | y).bits(),
        xor_bits(v.bits(), w.bits()) == (x ^ y).bits(),
        nand_bits(v.bits(), w.bits()) == (!(x & y)).bits(),
        nor_bits(v.bits(), w.bits()) == (!(x | y)).bits(),
        not_bits(v.bits()) == (!x).bits(),
        shl_bits(v.bits(), n as nat) == (x << n).bits(),
        shr_bits(v.bits(), n as nat) == (x >> n).bits(),
{
    assert forall|i: int| 0 <= i < 128 implies and_bits(v.bits(), w.bits())[i] == (x & y).bits()[i] by {
        lemma_u128_bitwise(x, y, i as u128);
    }
    assert(and_bits(v.bits(), w.bits()) =~= (x & y).bits());
    assert forall|i: int| 0 <= i < 128 implies or_bits(v.bits(), w.bits())[i] == (x | y).bits()[i] by {
        lemma_u128_bitwise(x, y, i as u128);
    }
    assert(or_bits(v.bits(), w.bits()) =~= (x | y).bits());
    assert forall|i: int| 0 <= i < 128 implies xor_bits(v.bits(), w.bits())[i] == (x ^ y).bits()[i] by {
        lemma_u128_bitwise(x, y, i as u128);
    }
    assert(xor_bits(v.bits(), w.bits()) =~= (x ^ y).bits());
    assert forall|i: int| 0 <= i < 128 implies nand_bits(v.bits(), w.bits())[i] == (!(x & y)).bits()[i] by {
        lemma_u128_bitwise(x, y, i as u128);
        lemma_u128_bitwise(x & y, 0, i as u128);
    }
    assert(nand_bits(v.bits(), w.bits()) =~= (!(x & y)).bits());
    assert forall|i: int| 0 <= i < 128 implies nor_bits(v.bits(), w.bits())[i] == (!(x | y)).bits()[i] by {
        lemma_u128_bitwise(x, y, i as u128);
        lemma_u128_bitwise(x | y, 0, i as u128);
    }
    assert(nor_bits(v.bits(), w.bits()) =~= (!(x | y)).bits());
    assert forall|i: int| 0 <= i < 128 implies not_bits(v.bits())[i] == (!x).bits()[i] by {
        lemma_u128_bitwise(x, y, i as u128);
    }
    assert(not_bits(v.bits()) =~= (!x).bits());
    assert forall|i: int| 0 <= i < 128 implies shl_bits(v.bits(), n as nat)[i] == (x << n).bits()[i] by {
        lemma_u128_shift(x, n, i as u128);
    }
    assert(shl_bits(v.bits(), n as nat) =~= (x << n).bits());
    assert forall|i: int| 0 <= i < 128 implies shr_bits(v.bits(), n as nat)[i] == (x >> n).bits()[i] by {
        lemma_u128_shift(x, n, i as u128);
    }
    assert(shr_bits(v.bits(), n as nat) =~= (x >> n).bits());
}

/// Shifting either way by the full width or more gives the all-zero value,
/// the value that `zeroes` returns.
pub proof fn lemma_shift_saturates<T: Bitset>(v: T, amount: nat)
    requires
        amount >= T::width(),
    ensures
        shl_bits(v.bits(), amount) == fill_bits(T::width(), false),
        shr_bits(v.bits(), amount) == fill_bits(T::width(), false),
{
    T::lemma_bits_len(v);
    assert(shl_bits(v.bits(), amount) =~= fill_bits(T::width(), false));
    assert(shr_bits(v.bits(), amount) =~= fill_bits(T::width(), false));
}

/// Shifting left by `a` and then by `b` is shifting left by `a + b`; the same
/// holds of right shifts.
pub proof fn lemma_shift_composes<T: Bitset>(v: T, a: nat, b: nat)
    ensures
        shl_bits(shl_bits(v.bits(), a), b) == shl_bits(v.bits(), a + b),
        shr_bits(shr_bits(v.bits(), a), b) == shr_bits(v.bits(), a + b),
{
    assert(shl_bits(shl_bits(v.bits(), a), b) =~= shl_bits(v.bits(), a + b));
    assert(shr_bits(shr_bits(v.bits(), a), b) =~= shr_bits(v.bits(), a + b));
}

/// Complementing twice gives the bits back, so the value whose bits are
/// those of `v.not().not()` is `v` itself.
pub proof fn lemma_not_not<T: Bitset>(v: T)
    ensures
        not_bits(not_bits(v.bits())) == v.bits(),
        forall|r: T| r.bits() == not_bits(not_bits(v.bits())) ==> r == v,
{
    assert(not_bits(not_bits(v.bits())) =~= v.bits());
    assert forall|r: T| r.bits() == not_bits(not_bits(v.bits())) implies r == v by {
        T::lemma_bits_injective(r, v);
    }
}

/// A value is determined by its bits: the in-place form of an operation and
/// its pure form, whose contracts give the same bits, give the same value.
pub proof fn lemma_same_bits_same_value<T: Bitset>(x: T, y: T)
    requires
        x.bits() == y.bits(),
    ensures
        x == y,
{
    T::lemma_bits_injective(x, y);
}

/// NAND is the complement of AND, and NOR the complement of OR.
pub proof fn lemma_de_morgan<T: Bitset>(v: T, w: T)
    ensures
        nand_bits(v.bits(), w.bits()) == not_bits(and_bits(v.bits(), w.bits())),
        nor_bits(v.bits(), w.bits()) == not_bits(or_bits(v.bits(), w.bits())),
{
    assert(nand_bits(v.bits(), w.bits()) =~= not_bits(and_bits(v.bits(), w.bits())));
    assert(nor_bits(v.bits(), w.bits()) =~= not_bits(or_bits(v.bits(), w.bits())));
}

/// After `set(field, b)`, `get(field)` reads `b`, and every other bit is
/// what it was.
pub proof fn lemma_set_then_get<T: Bitset>(v: T, field: nat, b: bool)
    requires
        field < T::width(),
    ensures
        v.bits().update(field as int, b)[field as int] == b,
        forall|i: int|
            0 <= i < T::width() && i != field ==> v.bits().update(field as int, b)[i]
                == v.bits()[i],
{
    T::lemma_bits_len(v);
}

} // verus!
