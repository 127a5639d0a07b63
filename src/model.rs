//! The mathematical model: a bit vector of width `w` is a `Seq<bool>` of
//! length `w`, index 0 being the least significant bit.

use vstd::prelude::*;

verus! {

/// Bitwise AND of two bit sequences.
pub open spec fn and_bits(a: Seq<bool>, b: Seq<bool>) -> Seq<bool> {
    Seq::new(a.len(), |i: int| a[i] && b[i])
}

/// Bitwise NAND of two bit sequences.
pub open spec fn nand_bits(a: Seq<bool>, b: Seq<bool>) -> Seq<bool> {
    Seq::new(a.len(), |i: int| !(a[i] && b[i]))
}

/// Bitwise OR of two bit sequences.
pub open spec fn or_bits(a: Seq<bool>, b: Seq<bool>) -> Seq<bool> {
    Seq::new(a.len(), |i: int| a[i] || b[i])
}

/// Bitwise XOR of two bit sequences.
pub open spec fn xor_bits(a: Seq<bool>, b: Seq<bool>) -> Seq<bool> {
    Seq::new(a.len(), |i: int| a[i] != b[i])
}

/// Bitwise NOR of two bit sequences.
pub open spec fn nor_bits(a: Seq<bool>, b: Seq<bool>) -> Seq<bool> {
    Seq::new(a.len(), |i: int| !(a[i] || b[i]))
}

/// Bitwise complement of a bit sequence.
pub open spec fn not_bits(a: Seq<bool>) -> Seq<bool> {
    Seq::new(a.len(), |i: int| !a[i])
}

/// Logical shift toward the most significant end: bit `i` of the result is
/// bit `i - n` of `a`, and the `n` lowest bits are zero.
pub open spec fn shl_bits(a: Seq<bool>, n: nat) -> Seq<bool> {
    Seq::new(a.len(), |i: int| i >= n && a[i - n])
}

/// Logical shift toward the least significant end: bit `i` of the result is
/// bit `i + n` of `a`, and the `n` highest bits are zero.
pub open spec fn shr_bits(a: Seq<bool>, n: nat) -> Seq<bool> {
    Seq::new(a.len(), |i: int| i + n < a.len() && a[i + n])
}

/// `len` copies of the bit `b`.
pub open spec fn fill_bits(len: nat, b: bool) -> Seq<bool> {
    Seq::new(len, |i: int| b)
}

} // verus!
