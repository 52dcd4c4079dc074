//! What holds of every bit set, stated over the model and proved once and for all.
//!
//! The executable operations promise results in terms of [`crate::model`]; the proof
//! functions here say what those results amount to when operations are combined.

use vstd::prelude::*;
use vstd::std_specs::cmp::PartialEqSpec;
use crate::bitset::DenseBitSet;
use crate::model::{
    bit_at, bits_of, capacity_of, filled, lemma_bit_at_filled, lemma_bit_at_with_bit_flipped,
    lemma_bit_at_with_bit_set, lemma_index_join, lemma_index_split, lemma_words_needed,
    with_bit_flipped, with_bit_set, words_and, words_needed, words_not, words_or, words_xor,
};
use crate::word::{
    BITS_PER_WORD, lemma_word_bit_zero, lemma_word_commutes, lemma_word_not_twice,
    lemma_word_raise_twice, lemma_word_toggle_twice, lemma_word_xor_self, word_bit,
};

verus! {

/// Bit `j` of word `k` is bit `k * BITS_PER_WORD + j` of the set.
pub proof fn law_bit_layout(words: Seq<usize>, k: int, j: int)
    requires
        0 <= k < words.len(),
        0 <= j < BITS_PER_WORD,
    ensures
        0 <= k * BITS_PER_WORD + j < capacity_of(words),
        bit_at(words, k * BITS_PER_WORD + j) == word_bit(words[k], j as usize),
{
    let b = BITS_PER_WORD as int;
    lemma_index_join(k, j);
    assert(0 <= k * b && k * b + j < words.len() * b) by (nonlinear_arith)
        requires
            0 <= k < words.len(),
            0 <= j < b,
    ;
}

/// A set made for `num_bits` bits has the least capacity that is a whole number of words
/// and not below `num_bits`: the capacity is a multiple of the word width, it is at least
/// `num_bits`, and no multiple `m * BITS_PER_WORD` that is at least `num_bits` is smaller.
pub proof fn law_capacity_is_least_multiple(num_bits: nat, fill: usize, m: nat)
    ensures
        ({
            let capacity = capacity_of(filled(words_needed(num_bits), fill));
            &&& capacity == words_needed(num_bits) * BITS_PER_WORD
            &&& capacity % (BITS_PER_WORD as nat) == 0
            &&& capacity >= num_bits
            &&& m * BITS_PER_WORD >= num_bits ==> m * BITS_PER_WORD >= capacity
        }),
{
    let b = BITS_PER_WORD as int;
    let w = words_needed(num_bits) as int;
    lemma_words_needed(num_bits);
    vstd::arithmetic::div_mod::lemma_mod_multiples_basic(w, b);
    if m < w {
        assert(m * b <= w * b - b) by (nonlinear_arith)
            requires
                m <= w - 1,
                b > 0,
        ;
    } else {
        assert(m * b >= w * b) by (nonlinear_arith)
            requires
                m >= w,
                b > 0,
        ;
    }
}

/// In a set whose words are all zero, every bit is clear.
pub proof fn law_fresh_set_is_clear(words: nat, i: int)
    requires
        0 <= i < capacity_of(filled(words, 0)),
    ensures
        !bit_at(filled(words, 0), i),
{
    lemma_bit_at_filled(words, 0, i);
    lemma_index_split(i, words);
    lemma_word_bit_zero((i % (BITS_PER_WORD as int)) as usize);
}

/// After bit `i` was set it reads as set and every other bit reads as before; setting it
/// again changes nothing. Setting reports whether the bit was clear before, so it reports
/// `true` for the first transition and `false` from then on, until the bit is cleared:
/// after that it is clear again and the next setting reports `true`.
pub proof fn law_set_then_test(words: Seq<usize>, i: int, j: int)
    requires
        0 <= i < capacity_of(words),
        0 <= j < capacity_of(words),
    ensures
        capacity_of(with_bit_set(words, i)) == capacity_of(words),
        bit_at(with_bit_set(words, i), i),
        j != i ==> bit_at(with_bit_set(words, i), j) == bit_at(words, j),
        with_bit_set(with_bit_set(words, i), i) == with_bit_set(words, i),
        !bit_at(with_bit_flipped(with_bit_set(words, i), i), i),
{
    let b = BITS_PER_WORD as int;
    let once = with_bit_set(words, i);
    lemma_index_split(i, words.len());
    lemma_bit_at_with_bit_set(words, i, i);
    lemma_bit_at_with_bit_set(words, i, j);
    lemma_word_raise_twice(words[i / b], 1usize << ((i % b) as usize));
    assert(with_bit_set(once, i) =~= once);
    lemma_bit_at_with_bit_flipped(once, i, i);
}

/// Flipping bit `i` inverts what it reads, and flipping it twice restores the words and
/// so what every bit reads.
pub proof fn law_flip_twice(words: Seq<usize>, i: int)
    requires
        0 <= i < capacity_of(words),
    ensures
        bit_at(with_bit_flipped(words, i), i) == !bit_at(words, i),
        bit_at(with_bit_flipped(with_bit_flipped(words, i), i), i) == bit_at(words, i),
        with_bit_flipped(with_bit_flipped(words, i), i) == words,
{
    let b = BITS_PER_WORD as int;
    lemma_index_split(i, words.len());
    lemma_word_toggle_twice(words[i / b], 1usize << ((i % b) as usize));
    assert(with_bit_flipped(with_bit_flipped(words, i), i) =~= words);
    lemma_bit_at_with_bit_flipped(words, i, i);
}

/// Flipping one bit of a set makes it unequal to what it was.
pub proof fn law_flip_changes_words(words: Seq<usize>, i: int)
    requires
        0 <= i < capacity_of(words),
    ensures
        with_bit_flipped(words, i) != words,
{
    lemma_bit_at_with_bit_flipped(words, i, i);
}

/// Complementing twice restores the exact word sequence.
pub proof fn law_not_twice(words: Seq<usize>)
    ensures
        words_not(words_not(words)) == words,
{
    assert forall|k: int| 0 <= k < words.len() implies !!words[k] == words[k] by {
        lemma_word_not_twice(words[k]);
    }
    assert(words_not(words_not(words)) =~= words);
}

/// AND, OR and XOR of two sets of the same size do not depend on the order of the
/// operands.
pub proof fn law_combination_commutes(a: Seq<usize>, b: Seq<usize>)
    requires
        a.len() == b.len(),
    ensures
        words_and(a, b) == words_and(b, a),
        words_or(a, b) == words_or(b, a),
        words_xor(a, b) == words_xor(b, a),
{
    assert forall|k: int| 0 <= k < a.len() implies a[k] & b[k] == b[k] & a[k] && a[k] | b[k]
        == b[k] | a[k] && a[k] ^ b[k] == b[k] ^ a[k] by {
        lemma_word_commutes(a[k], b[k]);
    }
    assert(words_and(a, b) =~= words_and(b, a));
    assert(words_or(a, b) =~= words_or(b, a));
    assert(words_xor(a, b) =~= words_xor(b, a));
}

/// XOR of two sets is determined by their words: the sets that two evaluations on the
/// same operands return are equal.
pub proof fn law_xor_repeats(
    a: DenseBitSet,
    b: DenseBitSet,
    first: DenseBitSet,
    second: DenseBitSet,
)
    requires
        a@.len() == b@.len(),
        first@ == words_xor(a@, b@),
        second@ == words_xor(a@, b@),
    ensures
        first.eq_spec(&second),
{
}

/// XOR of a set with itself has every word zero, and so every bit clear.
pub proof fn law_xor_self_is_zero(a: Seq<usize>)
    ensures
        words_xor(a, a) == filled(a.len(), 0),
        forall|i: int| 0 <= i < capacity_of(a) ==> !#[trigger] bit_at(words_xor(a, a), i),
{
    assert forall|k: int| 0 <= k < a.len() implies a[k] ^ a[k] == 0 by {
        lemma_word_xor_self(a[k]);
    }
    assert(words_xor(a, a) =~= filled(a.len(), 0));
    assert forall|i: int| 0 <= i < capacity_of(a) implies !#[trigger] bit_at(
        words_xor(a, a),
        i,
    ) by {
        law_fresh_set_is_clear(a.len(), i);
    }
}

/// Sets are equal exactly when their word sequences are; equality is therefore
/// reflexive, symmetric and transitive, and equal sets have the same capacity.
pub proof fn law_equality_is_equivalence(a: DenseBitSet, b: DenseBitSet, c: DenseBitSet)
    ensures
        a.eq_spec(&b) <==> a@ == b@,
        a.eq_spec(&a),
        a.eq_spec(&b) ==> b.eq_spec(&a),
        a.eq_spec(&b) && b.eq_spec(&c) ==> a.eq_spec(&c),
        a.eq_spec(&b) ==> a.capacity() == b.capacity(),
{
}

/// The bits of a set are as many as its capacity, and the one at index `i` is bit `i`.
pub proof fn law_bits_in_order(words: Seq<usize>, i: int)
    requires
        0 <= i < capacity_of(words),
    ensures
        bits_of(words).len() == capacity_of(words),
        bits_of(words)[i] == bit_at(words, i),
{
}

} // verus!
