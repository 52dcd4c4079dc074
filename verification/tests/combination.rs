use bitsets::{BitSetError, DenseBitSet, BITS_PER_WORD};

fn sample_a() -> DenseBitSet {
    DenseBitSet::from_vec(vec![0b1100, usize::MAX, 0, 0xF0F0])
}

fn sample_b() -> DenseBitSet {
    DenseBitSet::from_vec(vec![0b1010, 0, usize::MAX, 0x0FF0])
}

#[test]
fn and_or_xor_commute() {
    let a = sample_a();
    let b = sample_b();
    assert_eq!(a.and(&b).unwrap(), b.and(&a).unwrap());
    assert_eq!(a.or(&b).unwrap(), b.or(&a).unwrap());
    assert_eq!(a.xor(&b).unwrap(), b.xor(&a).unwrap());
}

#[test]
fn and_or_xor_work_word_by_word() {
    let a = sample_a();
    let b = sample_b();
    assert_eq!(a.and(&b).unwrap(), DenseBitSet::from_vec(vec![0b1000, 0, 0, 0x00F0]));
    assert_eq!(
        a.or(&b).unwrap(),
        DenseBitSet::from_vec(vec![0b1110, usize::MAX, usize::MAX, 0xFFF0])
    );
    assert_eq!(
        a.xor(&b).unwrap(),
        DenseBitSet::from_vec(vec![0b0110, usize::MAX, usize::MAX, 0xFF00])
    );
}

#[test]
fn and_or_xor_work_bit_by_bit() {
    let a = sample_a();
    let b = sample_b();
    let and = a.and(&b).unwrap();
    let or = a.or(&b).unwrap();
    let xor = a.xor(&b).unwrap();
    for i in 0..a.len() {
        let x = a.test(i).unwrap();
        let y = b.test(i).unwrap();
        assert_eq!(and.test(i), Ok(x && y));
        assert_eq!(or.test(i), Ok(x || y));
        assert_eq!(xor.test(i), Ok(x != y));
    }
}

#[test]
fn xor_repeats_its_result() {
    let a = sample_a();
    let b = sample_b();
    let first = a.xor(&b).unwrap();
    let second = a.xor(&b).unwrap();
    assert_eq!(first, second);
    assert_eq!(a, sample_a());
    assert_eq!(b, sample_b());
}

#[test]
fn xor_with_itself_is_all_zero() {
    let a = sample_a();
    let zero = a.xor(&a).unwrap();
    assert_eq!(zero, DenseBitSet::with_capacity(a.len()));
    for i in 0..zero.len() {
        assert_eq!(zero.test(i), Ok(false));
    }
}

#[test]
fn copying_operations_leave_operands_alone() {
    let a = sample_a();
    let b = sample_b();
    let _ = a.and(&b).unwrap();
    let _ = a.or(&b).unwrap();
    let _ = a.xor(&b).unwrap();
    assert_eq!(a, sample_a());
    assert_eq!(b, sample_b());
}

#[test]
fn inplace_operations_agree_with_copying_ones() {
    let b = sample_b();

    let mut a = sample_a();
    assert_eq!(a.inplace_and(&b), Ok(()));
    assert_eq!(a, sample_a().and(&b).unwrap());

    let mut a = sample_a();
    assert_eq!(a.inplace_or(&b), Ok(()));
    assert_eq!(a, sample_a().or(&b).unwrap());

    let mut a = sample_a();
    assert_eq!(a.inplace_xor(&b), Ok(()));
    assert_eq!(a, sample_a().xor(&b).unwrap());

    assert_eq!(b, sample_b());
}

#[test]
fn size_mismatch_is_reported_by_copying_operations() {
    let a = DenseBitSet::with_capacity(BITS_PER_WORD);
    let b = DenseBitSet::with_capacity(2 * BITS_PER_WORD);
    assert_eq!(a.and(&b), Err(BitSetError::SizeMismatch));
    assert_eq!(a.or(&b), Err(BitSetError::SizeMismatch));
    assert_eq!(a.xor(&b), Err(BitSetError::SizeMismatch));
    assert_eq!(b.and(&a), Err(BitSetError::SizeMismatch));
    assert_eq!(b.or(&a), Err(BitSetError::SizeMismatch));
    assert_eq!(b.xor(&a), Err(BitSetError::SizeMismatch));
}

#[test]
fn size_mismatch_leaves_both_operands_unmodified() {
    let mut a = DenseBitSet::from_vec(vec![0b1011, 42]);
    let b = DenseBitSet::from_vec(vec![0b0110]);
    let a_before = a.clone();
    let b_before = b.clone();

    assert_eq!(a.inplace_and(&b), Err(BitSetError::SizeMismatch));
    assert_eq!(a, a_before);
    assert_eq!(b, b_before);
    assert_eq!(a.inplace_or(&b), Err(BitSetError::SizeMismatch));
    assert_eq!(a, a_before);
    assert_eq!(b, b_before);
    assert_eq!(a.inplace_xor(&b), Err(BitSetError::SizeMismatch));
    assert_eq!(a, a_before);
    assert_eq!(b, b_before);

    assert_eq!(a.and(&b), Err(BitSetError::SizeMismatch));
    assert_eq!(a.or(&b), Err(BitSetError::SizeMismatch));
    assert_eq!(a.xor(&b), Err(BitSetError::SizeMismatch));
    assert_eq!(a, a_before);
    assert_eq!(b, b_before);
}

#[test]
fn size_mismatch_with_the_empty_set() {
    let mut empty = DenseBitSet::with_capacity(0);
    let one = DenseBitSet::from_bits(1);
    assert_eq!(empty.inplace_and(&one), Err(BitSetError::SizeMismatch));
    assert_eq!(empty.words(), 0);
    let other_empty = DenseBitSet::with_capacity(0);
    assert_eq!(empty.inplace_or(&other_empty), Ok(()));
    assert_eq!(empty.and(&other_empty), Ok(DenseBitSet::from_vec(vec![])));
}

#[test]
fn not_twice_restores_the_words() {
    let mut bs = sample_a();
    bs.inplace_not();
    assert_eq!(bs, DenseBitSet::from_vec(vec![!0b1100, 0, usize::MAX, !0xF0F0]));
    bs.inplace_not();
    assert_eq!(bs, sample_a());
}

#[test]
fn not_inverts_every_bit_padding_included() {
    let mut bs = DenseBitSet::with_capacity(100);
    bs.set(7).unwrap();
    bs.inplace_not();
    for i in 0..bs.len() {
        assert_eq!(bs.test(i), Ok(i != 7));
    }
    assert_eq!(bs.test(100), Ok(true));
    assert_eq!(bs.test(127), Ok(true));
    assert_eq!(bs.len(), 128);
}
