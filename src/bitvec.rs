//! A bit vector of `N * W` bits made of `N` words of width `W`, the word at
//! index 0 being the least significant.

use vstd::arithmetic::div_mod::{lemma_fundamental_div_mod, lemma_fundamental_div_mod_converse};
use vstd::prelude::*;

use crate::bitset::Bitset;
use crate::model::{
    and_bits, fill_bits, nand_bits, nor_bits, not_bits, or_bits, shl_bits, shr_bits, xor_bits,
};

verus! {

/// `N` words of type `T` read as one bit vector, little-word-endian.
#[derive(Clone, Copy)]
pub struct Bitvec<const N: usize, T: Bitset> {
    bitsets: [T; N],
}

/// Eight 64-bit words: a 512-bit vector.
pub type Bitvec512 = Bitvec<8, u64>;

impl<const N: usize, T: Bitset> View for Bitvec<N, T> {
    type V = Seq<T>;

    /// The words, least significant first.
    closed spec fn view(&self) -> Seq<T> {
        self.bitsets@
    }
}

/// Splitting a bit position of a vector of `n` words of width `w` into a word
/// index and an offset inside that word.
proof fn lemma_split(i: int, n: int, w: int)
    requires
        0 < w,
        0 <= i < n * w,
    ensures
        0 <= i / w < n,
        0 <= i % w < w,
        i == (i / w) * w + i % w,
{
    lemma_fundamental_div_mod(i, w);
    assert(0 <= i % w < w);
    assert(i / w >= 0) by (nonlinear_arith)
        requires
            0 < w,
            0 <= i,
    ;
    assert(i / w < n) by (nonlinear_arith)
        requires
            0 < w,
            i < n * w,
            i == w * (i / w) + i % w,
            i % w >= 0,
    ;
}

/// Joining word index `m` and offset `t` into a bit position.
proof fn lemma_join(m: int, t: int, n: int, w: int)
    requires
        0 <= m < n,
        0 <= t < w,
    ensures
        0 <= m * w + t < n * w,
        (m * w + t) / w == m,
        (m * w + t) % w == t,
{
    lemma_fundamental_div_mod_converse(m * w + t, w, m, t);
    assert(0 <= m * w + t < n * w) by (nonlinear_arith)
        requires
            0 <= m < n,
            0 <= t < w,
    ;
}

/// Positions met by a left shift of `q * w + r` bits, read at bit `j` of word `idx`.
proof fn lemma_shl_pos(idx: int, q: int, j: int, r: int, w: int)
    requires
        0 <= j < w,
        0 <= r < w,
        0 <= idx,
        0 <= q,
    ensures
        idx * w + j - (q * w + r) == (idx - q) * w + (j - r),
        (idx - q) * w == (idx - q - 1) * w + w,
        idx < q ==> idx * w + j < q * w + r,
{
    assert(idx * w + j - (q * w + r) == (idx - q) * w + (j - r)) by (nonlinear_arith);
    assert((idx - q) * w == (idx - q - 1) * w + w) by (nonlinear_arith);
    assert(idx < q ==> idx * w + j < q * w + r) by (nonlinear_arith)
        requires
            0 <= j < w,
            0 <= r,
    ;
}

/// Positions met by a right shift of `q * w + r` bits, read at bit `j` of word `idx`.
proof fn lemma_shr_pos(idx: int, q: int, j: int, r: int, w: int, n: int)
    requires
        0 <= j < w,
        0 <= r < w,
        0 <= idx,
        0 <= q,
    ensures
        idx * w + j + (q * w + r) == (idx + q) * w + (j + r),
        (idx + q) * w + (j + r) == (idx + q + 1) * w + (j + r - w),
        idx + q >= n ==> idx * w + j + (q * w + r) >= n * w,
        idx + q == n - 1 ==> (idx * w + j + (q * w + r) < n * w <==> j + r < w),
{
    assert(idx * w + j + (q * w + r) == (idx + q) * w + (j + r)) by (nonlinear_arith);
    assert((idx + q) * w + (j + r) == (idx + q + 1) * w + (j + r - w)) by (nonlinear_arith);
    assert(idx + q >= n ==> (idx + q) * w >= n * w) by (nonlinear_arith)
        requires
            0 <= j < w,
    ;
    assert(idx + q == n - 1 ==> (idx + q) * w + w == n * w) by (nonlinear_arith);
}

impl<const N: usize, T: Bitset> Bitvec<N, T> {
    /// The vector made of `bitsets`, least significant word first.
    pub fn new(bitsets: [T; N]) -> (r: Bitvec<N, T>)
        ensures
            r@ == bitsets@,
    {
        Bitvec { bitsets }
    }

    /// The words of the vector, least significant first.
    pub fn slice(&self) -> (r: &[T; N])
        ensures
            r@ == self@,
    {
        &self.bitsets
    }

    /// Bit `m * W + t` of the vector is bit `t` of word `m`.
    pub proof fn lemma_bit_at(self, m: int, t: int)
        requires
            0 <= m < N,
            0 <= t < T::width(),
        ensures
            0 <= m * T::width() + t < Self::width(),
            self.bits()[m * T::width() + t] == self@[m].bits()[t],
    {
        lemma_join(m, t, N as int, T::width() as int);
    }

    /// A vector whose width fits in a `usize` has at least one word, and
    /// words whose width fits too.
    proof fn lemma_word_width()
        requires
            0 < Self::width() <= usize::MAX,
        ensures
            0 < N,
            0 < T::width() <= Self::width(),
    {
        let w = T::width() as int;
        assert(0 < N && 0 < w && w <= N * w) by (nonlinear_arith)
            requires
                0 < N * w,
                0 <= w,
        ;
    }
}

impl<const N: usize, T: Bitset> Bitset for Bitvec<N, T> {
    open spec fn width() -> nat {
        N as nat * T::width()
    }

    open spec fn bits(&self) -> Seq<bool> {
        Seq::new(
            N as nat * T::width(),
            |i: int| self@[i / T::width() as int].bits()[i % T::width() as int],
        )
    }

    proof fn lemma_bits_len(x: Self) {
    }

    proof fn lemma_bits_injective(x: Self, y: Self) {
        assert forall|m: int| 0 <= m < N implies x.bitsets@[m] == y.bitsets@[m] by {
            let a = x.bitsets@[m];
            let b = y.bitsets@[m];
            T::lemma_bits_len(a);
            T::lemma_bits_len(b);
            assert forall|t: int| 0 <= t < T::width() implies a.bits()[t] == b.bits()[t] by {
                x.lemma_bit_at(m, t);
                y.lemma_bit_at(m, t);
            }
            assert(a.bits() =~= b.bits());
            T::lemma_bits_injective(a, b);
        }
        assert(x.bitsets =~= y.bitsets);
    }

    fn ones() -> (r: Self) {
        let r = Bitvec { bitsets: [T::ones(); N] };
        proof {
            assert forall|i: int| 0 <= i < Self::width() implies r.bits()[i] by {
                lemma_split(i, N as int, T::width() as int);
            }
            assert(r.bits() =~= fill_bits(Self::width(), true));
        }
        r
    }

    fn zeroes() -> (r: Self) {
        let r = Bitvec { bitsets: [T::zeroes(); N] };
        proof {
            assert forall|i: int| 0 <= i < Self::width() implies !r.bits()[i] by {
                lemma_split(i, N as int, T::width() as int);
            }
            assert(r.bits() =~= fill_bits(Self::width(), false));
        }
        r
    }

    fn and(&self, other: Self) -> (r: Self) {
        let mut r = *self;
        r.and_mut(&other);
        r
    }

    fn nand(&self, other: Self) -> (r: Self) {
        let mut r = *self;
        r.nand_mut(&other);
        r
    }

    fn or(&self, other: Self) -> (r: Self) {
        let mut r = *self;
        r.or_mut(&other);
        r
    }

    fn xor(&self, other: Self) -> (r: Self) {
        let mut r = *self;
        r.xor_mut(&other);
        r
    }

    fn nor(&self, other: Self) -> (r: Self) {
        let mut r = *self;
        r.nor_mut(&other);
        r
    }

    fn not(&self) -> (r: Self) {
        let mut r = *self;
        r.not_mut();
        r
    }

    fn shift_left(&self, amount: usize) -> (r: Self) {
        let mut r = *self;
        r.shift_left_mut(amount);
        r
    }

    fn shift_right(&self, amount: usize) -> (r: Self) {
        let mut r = *self;
        r.shift_right_mut(amount);
        r
    }

    fn and_mut(&mut self, other: &Self) {
        let ghost pre = *self;
        let mut i: usize = 0;
        while i < N
            invariant
                0 <= i <= N,
                forall|k: int| 0 <= k < i ==> (#[trigger] self.bitsets@[k]).bits() == and_bits(pre.bitsets@[k].bits(), other.bitsets@[k].bits()),
                forall|k: int| i <= k < N ==> self.bitsets@[k] == pre.bitsets@[k],
            decreases N - i,
        {
            let mut w = self.bitsets[i];
            w.and_mut(&other.bitsets[i]);
            self.bitsets[i] = w;
            i += 1;
        }
        proof {
            let w = T::width() as int;
            assert forall|p: int| 0 <= p < Self::width() implies self.bits()[p] == and_bits(pre.bits(), other.bits())[p] by {
                lemma_split(p, N as int, w);
                let k = p / w;
                T::lemma_bits_len(pre.bitsets@[k]);
                T::lemma_bits_len(other.bitsets@[k]);
            }
            assert(self.bits() =~= and_bits(pre.bits(), other.bits()));
        }
    }

    fn nand_mut(&mut self, other: &Self) {
        let ghost pre = *self;
        let mut i: usize = 0;
        while i < N
            invariant
                0 <= i <= N,
                forall|k: int| 0 <= k < i ==> (#[trigger] self.bitsets@[k]).bits() == nand_bits(pre.bitsets@[k].bits(), other.bitsets@[k].bits()),
                forall|k: int| i <= k < N ==> self.bitsets@[k] == pre.bitsets@[k],
            decreases N - i,
        {
            let mut w = self.bitsets[i];
            w.nand_mut(&other.bitsets[i]);
            self.bitsets[i] = w;
            i += 1;
        }
        proof {
            let w = T::width() as int;
            assert forall|p: int| 0 <= p < Self::width() implies self.bits()[p] == nand_bits(pre.bits(), other.bits())[p] by {
                lemma_split(p, N as int, w);
                let k = p / w;
                T::lemma_bits_len(pre.bitsets@[k]);
                T::lemma_bits_len(other.bitsets@[k]);
            }
            assert(self.bits() =~= nand_bits(pre.bits(), other.bits()));
        }
    }

    fn or_mut(&mut self, other: &Self) {
        let ghost pre = *self;
        let mut i: usize = 0;
        while i < N
            invariant
                0 <= i <= N,
                forall|k: int| 0 <= k < i ==> (#[trigger] self.bitsets@[k]).bits() == or_bits(pre.bitsets@[k].bits(), other.bitsets@[k].bits()),
                forall|k: int| i <= k < N ==> self.bitsets@[k] == pre.bitsets@[k],
            decreases N - i,
        {
            let mut w = self.bitsets[i];
            w.or_mut(&other.bitsets[i]);
            self.bitsets[i] = w;
            i += 1;
        }
        proof {
            let w = T::width() as int;
            assert forall|p: int| 0 <= p < Self::width() implies self.bits()[p] == or_bits(pre.bits(), other.bits())[p] by {
                lemma_split(p, N as int, w);
                let k = p / w;
                T::lemma_bits_len(pre.bitsets@[k]);
                T::lemma_bits_len(other.bitsets@[k]);
            }
            assert(self.bits() =~= or_bits(pre.bits(), other.bits()));
        }
    }

    fn xor_mut(&mut self, other: &Self) {
        let ghost pre = *self;
        let mut i: usize = 0;
        while i < N
            invariant
                0 <= i <= N,
                forall|k: int| 0 <= k < i ==> (#[trigger] self.bitsets@[k]).bits() == xor_bits(pre.bitsets@[k].bits(), other.bitsets@[k].bits()),
                forall|k: int| i <= k < N ==> self.bitsets@[k] == pre.bitsets@[k],
            decreases N - i,
        {
            let mut w = self.bitsets[i];
            w.xor_mut(&other.bitsets[i]);
            self.bitsets[i] = w;
            i += 1;
        }
        proof {
            let w = T::width() as int;
            assert forall|p: int| 0 <= p < Self::width() implies self.bits()[p] == xor_bits(pre.bits(), other.bits())[p] by {
                lemma_split(p, N as int, w);
                let k = p / w;
                T::lemma_bits_len(pre.bitsets@[k]);
                T::lemma_bits_len(other.bitsets@[k]);
            }
            assert(self.bits() =~= xor_bits(pre.bits(), other.bits()));
        }
    }

    fn nor_mut(&mut self, other: &Self) {
        let ghost pre = *self;
        let mut i: usize = 0;
        while i < N
            invariant
                0 <= i <= N,
                forall|k: int| 0 <= k < i ==> (#[trigger] self.bitsets@[k]).bits() == nor_bits(pre.bitsets@[k].bits(), other.bitsets@[k].bits()),
                forall|k: int| i <= k < N ==> self.bitsets@[k] == pre.bitsets@[k],
            decreases N - i,
        {
            let mut w = self.bitsets[i];
            w.nor_mut(&other.bitsets[i]);
            self.bitsets[i] = w;
            i += 1;
        }
        proof {
            let w = T::width() as int;
            assert forall|p: int| 0 <= p < Self::width() implies self.bits()[p] == nor_bits(pre.bits(), other.bits())[p] by {
                lemma_split(p, N as int, w);
                let k = p / w;
                T::lemma_bits_len(pre.bitsets@[k]);
                T::lemma_bits_len(other.bitsets@[k]);
            }
            assert(self.bits() =~= nor_bits(pre.bits(), other.bits()));
        }
    }

    fn not_mut(&mut self) {
        let ghost pre = *self;
        let mut i: usize = 0;
        while i < N
            invariant
                0 <= i <= N,
                forall|k: int| 0 <= k < i ==> (#[trigger] self.bitsets@[k]).bits() == not_bits(pre.bitsets@[k].bits()),
                forall|k: int| i <= k < N ==> self.bitsets@[k] == pre.bitsets@[k],
            decreases N - i,
        {
            let mut w = self.bitsets[i];
            w.not_mut();
            self.bitsets[i] = w;
            i += 1;
        }
        proof {
            let w = T::width() as int;
            assert forall|p: int| 0 <= p < Self::width() implies self.bits()[p] == not_bits(pre.bits())[p] by {
                lemma_split(p, N as int, w);
                let k = p / w;
                T::lemma_bits_len(pre.bitsets@[k]);
            }
            assert(self.bits() =~= not_bits(pre.bits()));
        }
    }

    fn shift_left_mut(&mut self, amount: usize) {
        let ghost pre = *self;
        let ghost w = T::width() as int;
        let ghost target = shl_bits(pre.bits(), amount as nat);
        proof {
            Self::lemma_word_width();
        }
        let wl = T::length();
        let q = amount / wl;
        let r = amount % wl;
        proof {
            lemma_fundamental_div_mod(amount as int, w);
            assert(amount == q * w + r) by (nonlinear_arith)
                requires
                    amount == w * (amount as int / w) + amount as int % w,
                    q == amount as int / w,
                    r == amount as int % w,
            ;
        }
        // Word `idx` takes source word `idx - q` shifted left by `r`, and the
        // top `r` bits of source word `idx - q - 1`. Words are written from
        // the top down, so each source word is read before it is overwritten.
        let mut k: usize = N;
        while k > 0
            invariant
                0 <= k <= N,
                wl == w,
                w == T::width(),
                0 < w <= usize::MAX,
                0 <= r < w,
                amount == q * w + r,
                target == shl_bits(pre.bits(), amount as nat),
                forall|m: int|
                    k <= m < N ==> (#[trigger] self.bitsets@[m]).bits() == Seq::new(
                        w as nat,
                        |j: int| target[m * w + j],
                    ),
                forall|m: int| 0 <= m < k ==> self.bitsets@[m] == pre.bitsets@[m],
            decreases k,
        {
            let idx = k - 1;
            let word = if q > idx {
                T::zeroes()
            } else if idx - q == 0 {
                self.bitsets[idx - q].shift_left(r)
            } else {
                self.bitsets[idx - q].shift_left(r).or(
                    self.bitsets[idx - q - 1].shift_right(wl - r),
                )
            };
            proof {
                assert forall|j: int| 0 <= j < w implies word.bits()[j] == target[idx * w + j] by {
                    let p = idx * w + j;
                    lemma_shl_pos(idx as int, q as int, j, r as int, w);
                    pre.lemma_bit_at(idx as int, j);
                    assert(target[p] == (p >= amount && pre.bits()[p - amount]));
                    if q > idx {
                        assert(!word.bits()[j]);
                        assert(p < amount);
                        assert(word.bits()[j] == target[p]);
                    } else {
                        let s = (idx - q) as int;
                        let a = pre.bitsets@[s].bits();
                        T::lemma_bits_len(pre.bitsets@[s]);
                        assert(shl_bits(a, r as nat)[j] == (j >= r && a[j - r]));
                        if j >= r {
                            if s > 0 {
                                T::lemma_bits_len(pre.bitsets@[s - 1]);
                            }
                            pre.lemma_bit_at(s, j - r);
                            assert(p - amount == s * w + (j - r));
                            assert(s * w >= 0) by (nonlinear_arith)
                                requires
                                    s >= 0,
                                    w > 0,
                            ;
                            assert(target[p] == a[j - r]);
                            assert(word.bits()[j] == target[p]);
                        } else if s > 0 {
                            let b = pre.bitsets@[s - 1].bits();
                            T::lemma_bits_len(pre.bitsets@[s - 1]);
                            pre.lemma_bit_at(s - 1, w + j - r);
                            assert(p - amount == (s - 1) * w + (w + j - r));
                            assert((s - 1) * w >= 0) by (nonlinear_arith)
                                requires
                                    s >= 1,
                                    w > 0,
                            ;
                            assert(shr_bits(b, (w - r) as nat)[j] == b[w + j - r]);
                            assert(target[p] == b[w + j - r]);
                            assert(word.bits()[j] == target[p]);
                        } else {
                            assert(p - amount == j - r);
                            assert(!target[p]);
                            assert(word.bits()[j] == target[p]);
                        }
                    }
                }
                T::lemma_bits_len(word);
                assert(word.bits() =~= Seq::new(w as nat, |j: int| target[idx * w + j]));
            }
            self.bitsets[idx] = word;
            k = idx;
        }
        proof {
            assert forall|p: int| 0 <= p < Self::width() implies self.bits()[p] == target[p] by {
                lemma_split(p, N as int, w);
            }
            assert(self.bits() =~= target);
        }
    }

    fn shift_right_mut(&mut self, amount: usize) {
        let ghost pre = *self;
        let ghost w = T::width() as int;
        let ghost target = shr_bits(pre.bits(), amount as nat);
        proof {
            Self::lemma_word_width();
        }
        let wl = T::length();
        let q = amount / wl;
        let r = amount % wl;
        proof {
            lemma_fundamental_div_mod(amount as int, w);
            assert(amount == q * w + r) by (nonlinear_arith)
                requires
                    amount == w * (amount as int / w) + amount as int % w,
                    q == amount as int / w,
                    r == amount as int % w,
            ;
        }
        // Word `idx` takes source word `idx + q` shifted right by `r`, and the
        // low `r` bits of source word `idx + q + 1`. Words are written from
        // the bottom up, so each source word is read before it is overwritten.
        let mut idx: usize = 0;
        while idx < N
            invariant
                0 <= idx <= N,
                wl == w,
                w == T::width(),
                0 < w <= usize::MAX,
                0 <= r < w,
                amount == q * w + r,
                target == shr_bits(pre.bits(), amount as nat),
                forall|m: int|
                    0 <= m < idx ==> (#[trigger] self.bitsets@[m]).bits() == Seq::new(
                        w as nat,
                        |j: int| target[m * w + j],
                    ),
                forall|m: int| idx <= m < N ==> self.bitsets@[m] == pre.bitsets@[m],
            decreases N - idx,
        {
            let word = if q >= N - idx {
                T::zeroes()
            } else if idx + q == N - 1 {
                self.bitsets[idx + q].shift_right(r)
            } else {
                self.bitsets[idx + q].shift_right(r).or(
                    self.bitsets[idx + q + 1].shift_left(wl - r),
                )
            };
            proof {
                assert forall|j: int| 0 <= j < w implies word.bits()[j] == target[idx * w + j] by {
                    let p = idx * w + j;
                    lemma_shr_pos(idx as int, q as int, j, r as int, w, N as int);
                    pre.lemma_bit_at(idx as int, j);
                    assert(target[p] == (p + amount < N * w && pre.bits()[p + amount]));
                    if q >= N - idx {
                        assert(!word.bits()[j]);
                    } else {
                        let s = (idx + q) as int;
                        let a = pre.bitsets@[s].bits();
                        T::lemma_bits_len(pre.bitsets@[s]);
                        if s + 1 < N {
                            T::lemma_bits_len(pre.bitsets@[s + 1]);
                        }
                        assert(shr_bits(a, r as nat)[j] == (j + r < w && a[j + r]));
                        if j + r < w {
                            pre.lemma_bit_at(s, j + r);
                            assert(target[p] == a[j + r]);
                        } else if s + 1 < N {
                            let b = pre.bitsets@[s + 1].bits();
                            pre.lemma_bit_at(s + 1, j + r - w);
                            assert(shl_bits(b, (w - r) as nat)[j] == b[j + r - w]);
                            assert(target[p] == b[j + r - w]);
                        } else {
                            assert(!target[p]);
                        }
                    }
                }
                T::lemma_bits_len(word);
                assert(word.bits() =~= Seq::new(w as nat, |j: int| target[idx * w + j]));
            }
            self.bitsets[idx] = word;
            idx += 1;
        }
        proof {
            assert forall|p: int| 0 <= p < Self::width() implies self.bits()[p] == target[p] by {
                lemma_split(p, N as int, w);
            }
            assert(self.bits() =~= target);
        }
    }

    fn set(&mut self, field: usize, flag: bool) {
        let ghost pre = *self;
        let ghost w = T::width() as int;
        proof {
            Self::lemma_word_width();
        }
        let q = field / T::length();
        let r = field % T::length();
        proof {
            lemma_split(field as int, N as int, w);
        }
        let mut word = self.bitsets[q];
        word.set(r, flag);
        self.bitsets[q] = word;
        proof {
            assert forall|p: int| 0 <= p < Self::width() implies self.bits()[p] == pre.bits().update(
                field as int,
                flag,
            )[p] by {
                lemma_split(p, N as int, w);
                T::lemma_bits_len(pre.bitsets@[q as int]);
            }
            assert(self.bits() =~= pre.bits().update(field as int, flag));
        }
    }

    fn get(&self, field: usize) -> (r: bool) {
        proof {
            Self::lemma_word_width();
            lemma_split(field as int, N as int, T::width() as int);
        }
        let q = field / T::length();
        let r = field % T::length();
        self.bitsets[q].get(r)
    }

    fn length() -> (r: usize) {
        proof {
            Self::lemma_word_width();
        }
        N * T::length()
    }
}

} // verus!
