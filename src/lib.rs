//! Fixed-width bit vectors: a Boolean-algebra interface over single machine
//! words, and a composition of N words into one wider bit vector.

mod bitset;
mod bitvec;
mod laws;
mod model;
mod signed;
mod unsigned;

pub use bitset::Bitset;
pub use bitvec::{Bitvec, Bitvec512};
pub use laws::{
    lemma_de_morgan, lemma_matches_u128, lemma_matches_u64, lemma_not_not,
    lemma_same_bits_same_value, lemma_set_then_get, lemma_shift_composes, lemma_shift_saturates,
};
pub use model::{
    and_bits, fill_bits, nand_bits, nor_bits, not_bits, or_bits, shl_bits, shr_bits, xor_bits,
};
