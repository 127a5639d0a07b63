use bitset_rs::Bitset;
use bitset_rs::Bitvec;
use bitset_rs::Bitvec512;

fn join(bv: Bitvec<2, u32>) -> u64 {
    let [a, b] = bv.slice();
    (*b as u64) << 32 | (*a as u64)
}

fn split(x: u64) -> Bitvec<2, u32> {
    Bitvec::new([x as u32, (x >> 32) as u32])
}

#[test]
fn shift_left_by_five_crosses_the_word_boundary() {
    let v = Bitvec::<2, u32>::new([0xFFFFFB97, 0x00000998]);
    assert_eq!(join(v), 0x00000998FFFFFB97);
    let shifted = v.shift_left(5);
    assert_eq!(shifted.slice(), &[0xFFFF72E0, 0x0001331F]);
    assert_eq!(join(shifted), 0x00000998FFFFFB97u64 << 5);
}

#[test]
fn shift_by_full_width_or_more_gives_zero() {
    let v = Bitvec::<2, u32>::new([0xFFFFFB97, 0x00000998]);
    for amount in [64usize, 65, 100, usize::MAX] {
        assert_eq!(v.shift_left(amount).slice(), &[0, 0]);
        assert_eq!(v.shift_right(amount).slice(), &[0, 0]);
    }
    let ones = Bitvec::<3, u8>::ones();
    assert_eq!(ones.shift_left(24).slice(), Bitvec::<3, u8>::zeroes().slice());
    assert_eq!(ones.shift_right(24).slice(), &[0, 0, 0]);
    assert_eq!(0xFFu8.shift_left(8), 0);
    assert_eq!(0xFFu8.shift_right(200), 0);
    assert_eq!(u64::MAX.shift_left(64), 0);
    assert_eq!(u128::MAX.shift_right(128), 0);
}

#[test]
fn every_shift_matches_the_native_64_bit_shift() {
    let x = 0x00000998FFFFFB97u64;
    let v = split(x);
    for amount in 0..64usize {
        assert_eq!(join(v.shift_left(amount)), x << amount);
        assert_eq!(join(v.shift_right(amount)), x >> amount);
    }
}

#[test]
fn shift_by_whole_words() {
    let v = Bitvec::<4, u16>::new([0x1111, 0x2222, 0x3333, 0x4444]);
    assert_eq!(v.shift_left(16).slice(), &[0, 0x1111, 0x2222, 0x3333]);
    assert_eq!(v.shift_left(32).slice(), &[0, 0, 0x1111, 0x2222]);
    assert_eq!(v.shift_right(16).slice(), &[0x2222, 0x3333, 0x4444, 0]);
    assert_eq!(v.shift_right(48).slice(), &[0x4444, 0, 0, 0]);
    assert_eq!(v.shift_left(0).slice(), v.slice());
}

#[test]
fn shifts_compose() {
    let x = 0xDEADBEEF01234567u64;
    let v = split(x);
    for (a, b) in [(3usize, 7usize), (30, 5), (40, 40), (0, 63), (64, 1)] {
        assert_eq!(
            v.shift_left(a).shift_left(b).slice(),
            v.shift_left(a + b).slice()
        );
        assert_eq!(
            v.shift_right(a).shift_right(b).slice(),
            v.shift_right(a + b).slice()
        );
    }
}

#[test]
fn double_negation() {
    let v = Bitvec::<3, u16>::new([0x0F0F, 0x1234, 0xFFFF]);
    assert_eq!(v.not().slice(), &[0xF0F0, 0xEDCB, 0x0000]);
    assert_eq!(v.not().not().slice(), v.slice());
    assert_eq!(0x5Ai8.not().not(), 0x5A);
}

#[test]
fn de_morgan_duals() {
    let v = split(0xDEADBEEF01234567);
    let w = split(0x0F0F0F0FF0F0F0F0);
    assert_eq!(v.nand(w).slice(), v.and(w).not().slice());
    assert_eq!(v.nor(w).slice(), v.or(w).not().slice());
    assert_eq!(join(v.nand(w)), !(0xDEADBEEF01234567u64 & 0x0F0F0F0FF0F0F0F0));
    assert_eq!(join(v.xor(w)), 0xDEADBEEF01234567u64 ^ 0x0F0F0F0FF0F0F0F0);
}

#[test]
fn in_place_forms_agree_with_pure_forms() {
    let v = split(0xDEADBEEF01234567);
    let w = split(0x0F0F0F0FF0F0F0F0);

    let mut c = v;
    c.and_mut(&w);
    assert_eq!(c.slice(), v.and(w).slice());
    let mut c = v;
    c.nand_mut(&w);
    assert_eq!(c.slice(), v.nand(w).slice());
    let mut c = v;
    c.or_mut(&w);
    assert_eq!(c.slice(), v.or(w).slice());
    let mut c = v;
    c.xor_mut(&w);
    assert_eq!(c.slice(), v.xor(w).slice());
    let mut c = v;
    c.nor_mut(&w);
    assert_eq!(c.slice(), v.nor(w).slice());
    let mut c = v;
    c.not_mut();
    assert_eq!(c.slice(), v.not().slice());
    for amount in [0usize, 1, 31, 32, 33, 63, 64, 1000] {
        let mut c = v;
        c.shift_left_mut(amount);
        assert_eq!(c.slice(), v.shift_left(amount).slice());
        let mut c = v;
        c.shift_right_mut(amount);
        assert_eq!(c.slice(), v.shift_right(amount).slice());
    }
}

#[test]
fn set_then_get_round_trip() {
    let mut v = Bitvec::<2, u32>::zeroes();
    v.set(40, true);
    assert!(v.get(40));
    assert_eq!(v.slice(), &[0, 1 << 8]);
    for field in 0..64usize {
        assert_eq!(v.get(field), field == 40);
    }
    v.set(0, true);
    v.set(63, true);
    assert_eq!(join(v), 1 | 1 << 40 | 1 << 63);
    v.set(40, false);
    assert!(!v.get(40));
    assert_eq!(join(v), 1 | 1 << 63);
}

#[test]
fn bit_index_divides_by_word_width() {
    // Three words of eight bits: bit 9 lies in word 1 at offset 1.
    let mut v = Bitvec::<3, u8>::zeroes();
    v.set(9, true);
    assert_eq!(v.slice(), &[0, 0b10, 0]);
    assert!(v.get(9));
    assert!(!v.get(3));
}

#[test]
fn length_is_words_times_word_width() {
    assert_eq!(Bitvec::<2, u32>::length(), 64);
    assert_eq!(Bitvec::<3, u16>::length(), 48);
    assert_eq!(Bitvec512::length(), 512);
    assert_eq!(u8::length(), 8);
    assert_eq!(i128::length(), 128);
    assert_eq!(usize::length(), usize::BITS as usize);
}

#[test]
fn ones_and_zeroes() {
    assert_eq!(Bitvec::<2, u32>::ones().slice(), &[u32::MAX, u32::MAX]);
    assert_eq!(Bitvec::<2, u32>::zeroes().slice(), &[0, 0]);
    assert_eq!(i16::ones(), -1);
    assert_eq!(u16::zeroes(), 0);
}

#[test]
fn vector_of_vectors_matches_native_word() {
    let x = 0x89ABCDEFu32;
    let inner = |y: u32| Bitvec::<2, u8>::new([y as u8, (y >> 8) as u8]);
    let v = Bitvec::<2, Bitvec<2, u8>>::new([inner(x), inner(x >> 16)]);
    let back = |bv: Bitvec<2, Bitvec<2, u8>>| {
        let [lo, hi] = bv.slice();
        let [a, b] = lo.slice();
        let [c, d] = hi.slice();
        (*a as u32) | (*b as u32) << 8 | (*c as u32) << 16 | (*d as u32) << 24
    };
    assert_eq!(back(v), x);
    assert_eq!(Bitvec::<2, Bitvec<2, u8>>::length(), 32);
    for amount in [0usize, 3, 8, 13, 16, 27, 31, 32] {
        assert_eq!(back(v.shift_left(amount)), x.shift_left(amount));
        assert_eq!(back(v.shift_right(amount)), x.shift_right(amount));
    }
    assert!(v.get(0));
    assert!(!v.get(4));
    assert!(v.get(31));
}

#[test]
fn signed_words_shift_logically() {
    assert_eq!((-1i8).shift_right(1), 0x7F);
    assert_eq!((-128i8).shift_right(7), 1);
    assert_eq!(1i32.shift_left(31), i32::MIN);
    assert_eq!((-1i64).shift_left(64), 0);
    let mut x = 0i16;
    x.set(15, true);
    assert_eq!(x, i16::MIN);
    assert!(x.get(15));
    assert!(!x.get(14));
}

#[test]
fn single_word_bit_access() {
    let mut x = 0u64;
    x.set(5, true);
    assert_eq!(x, 32);
    assert!(x.get(5));
    x.set(5, false);
    assert_eq!(x, 0);
    assert!(0x80u8.get(7));
    assert!(!0x80u8.get(6));
    let mut y = usize::MAX;
    y.set(0, false);
    assert_eq!(y, usize::MAX - 1);
}
