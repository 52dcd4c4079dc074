#![allow(non_snake_case)]

use bitsets::{DenseBitSet, BITS_PER_WORD};

#[test]
fn can_create() {
    let bs = DenseBitSet::with_capacity(128);

    assert!(bs.len() == 128);
}

#[test]
fn can_set_and_test_bits() {
    let mut bs = DenseBitSet::with_capacity(128);
    assert_eq!(bs.test(0), Ok(false));
    assert_eq!(bs.test(10), Ok(false));
    assert_eq!(bs.test(30), Ok(false));
    bs.set(0).unwrap();
    bs.set(10).unwrap();
    bs.set(30).unwrap();
    assert_eq!(bs.test(0), Ok(true));
    assert_eq!(bs.test(10), Ok(true));
    assert_eq!(bs.test(30), Ok(true));
}

#[test]
fn can_report_num_words() {
    // initialize with non-aligned value
    let bs = DenseBitSet::with_capacity(100);
    assert_eq!(128, bs.len());
    assert_eq!(2, bs.words());
}

#[test]
fn can_clear_bits() {
    let mut bs = DenseBitSet::with_capacity(64);

    bs.set(45).unwrap();
    assert_eq!(bs.test(45), Ok(true));

    bs.flip(45).unwrap();
    assert_eq!(bs.test(45), Ok(false));
}

#[test]
fn can_initialize_from_literal() {
    // 1010101110101110101010101010000000000000000000000000000000000000
    let bs = DenseBitSet::from_bits(0b0101010101010111010111010101);
    assert!(bs.test(0).unwrap());
    assert!(!bs.test(1).unwrap());
    assert!(bs.test(2).unwrap());
    assert!(!bs.test(3).unwrap());
    assert!(bs.test(4).unwrap());
}

#[test]
fn can_compare() {
    let A = DenseBitSet::from_bits(0b111000111);
    let B = DenseBitSet::from_bits(0b111000111);
    let C = DenseBitSet::from_bits(0b110111111);

    assert!(A == B);
    assert!(B == A);

    assert!(A != C);
    assert!(C != A);
}

#[test]
fn can_union_bits() {
    let A = DenseBitSet::from_bits(0b1000110001);
    let B = DenseBitSet::from_bits(0b0010000100);
    let C = A.or(&B).unwrap();

    let bits = DenseBitSet::from_bits(0b1010110101);

    assert_eq!(bits, C);
}

#[test]
fn can_intersect_bits() {
    let A = DenseBitSet::from_bits(0b1000110001);
    let B = DenseBitSet::from_bits(0b1010100100);
    let C = A.and(&B).unwrap();

    let bits = DenseBitSet::from_bits(0b1000100000);

    assert_eq!(bits, C);
}

#[test]
fn can_xor_bits() {
    let A = DenseBitSet::from_bits(0b11100010101);
    let B = DenseBitSet::from_bits(0b11110100100);
    let C = A.xor(&B).unwrap();

    let bits = DenseBitSet::from_bits(0b00010110001);

    assert_eq!(bits, C);
}

#[test]
fn can_not_bits() {
    let mut bs = DenseBitSet::from_bits(0b11100011101);
    let sb = DenseBitSet::from_bits(
        0b1111111111111111111111111111111111111111111111111111100011100010,
    );

    bs.inplace_not();

    assert_eq!(sb, bs);
}

#[test]
fn iter_bits() {
    let bit_pattern: usize = 0b00110100;
    let bs = DenseBitSet::from_bits(bit_pattern);
    let expected_values: Vec<bool> = (0..BITS_PER_WORD)
        .map(|i| if (bit_pattern >> i) & 0x01 != 0 { true } else { false })
        .collect();

    let mut bits = bs.into_iter();
    for expected in expected_values.into_iter() {
        let bit_is_set = bits.next().unwrap();
        assert_eq!(expected, bit_is_set);
    }
}

#[test]
fn iter_bits_known_size() {
    let bit_pattern: usize = 0b00111010;
    let bs = DenseBitSet::from_bits(bit_pattern);

    assert_eq!(bs.into_iter().len(), BITS_PER_WORD);
}
