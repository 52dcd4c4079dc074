use bitsets::word::{get_bit_offset, get_bitmask, get_word_offset};
use bitsets::BITS_PER_WORD;

#[test]
fn word_width_is_that_of_usize() {
    assert_eq!(BITS_PER_WORD, std::mem::size_of::<usize>() * 8);
}

#[test]
fn word_offset_is_the_quotient() {
    assert_eq!(get_word_offset(0), 0);
    assert_eq!(get_word_offset(BITS_PER_WORD - 1), 0);
    assert_eq!(get_word_offset(BITS_PER_WORD), 1);
    assert_eq!(get_word_offset(2 * BITS_PER_WORD + 2), 2);
    assert_eq!(get_word_offset(usize::MAX), usize::MAX / BITS_PER_WORD);
}

#[test]
fn bit_offset_is_the_remainder() {
    assert_eq!(get_bit_offset(0), 0);
    assert_eq!(get_bit_offset(BITS_PER_WORD - 1), BITS_PER_WORD - 1);
    assert_eq!(get_bit_offset(BITS_PER_WORD), 0);
    assert_eq!(get_bit_offset(2 * BITS_PER_WORD + 2), 2);
    assert_eq!(get_bit_offset(usize::MAX), BITS_PER_WORD - 1);
}

#[test]
fn bitmask_has_one_bit() {
    assert_eq!(get_bitmask(0), 1);
    assert_eq!(get_bitmask(5), 0b100000);
    assert_eq!(get_bitmask(2 * BITS_PER_WORD + 2), 0b100);
    assert_eq!(get_bitmask(BITS_PER_WORD - 1), 1 << (BITS_PER_WORD - 1));
    for pos in 0..(3 * BITS_PER_WORD) {
        assert_eq!(get_bitmask(pos).count_ones(), 1);
        assert_eq!(get_bitmask(pos).trailing_zeros() as usize, get_bit_offset(pos));
    }
}
