//! One storage word: how a bit index addresses it, and what the bitwise operators do to
//! its bits.

use vstd::prelude::*;

verus! {

/// Number of bits held by one storage word.
pub const BITS_PER_WORD: usize = usize::BITS as usize;

/// Index of the word that holds bit `pos`.
pub open spec fn word_offset(pos: usize) -> usize {
    pos / BITS_PER_WORD
}

/// Position of bit `pos` inside its word, counted from the least significant bit.
pub open spec fn bit_offset(pos: usize) -> usize {
    pos % BITS_PER_WORD
}

/// The word in which only the bit for `pos` is raised.
pub open spec fn bitmask(pos: usize) -> usize {
    1usize << bit_offset(pos)
}

/// Whether bit `j` of `w` is raised, bit 0 being the least significant one.
pub open spec fn word_bit(w: usize, j: usize) -> bool
    recommends
        j < BITS_PER_WORD,
{
    w & (1usize << j) != 0
}

/// Index of the word that holds bit `pos`.
#[verifier::when_used_as_spec(word_offset)]
pub fn get_word_offset(pos: usize) -> (idx: usize)
    ensures
        idx == word_offset(pos),
        idx == pos / BITS_PER_WORD,
{
    pos / BITS_PER_WORD
}

/// Position of bit `pos` inside its word.
#[verifier::when_used_as_spec(bit_offset)]
pub fn get_bit_offset(pos: usize) -> (off: usize)
    ensures
        off == bit_offset(pos),
        off == pos % BITS_PER_WORD,
        off < BITS_PER_WORD,
{
    pos % BITS_PER_WORD
}

/// The word in which only the bit for `pos` is raised.
#[verifier::when_used_as_spec(bitmask)]
pub fn get_bitmask(pos: usize) -> (mask: usize)
    ensures
        mask == bitmask(pos),
        mask == 1usize << (pos % BITS_PER_WORD),
        forall|j: usize|
            j < BITS_PER_WORD ==> #[trigger] word_bit(mask, j) == (j == bit_offset(pos)),
{
    let mask = 1usize << get_bit_offset(pos);
    proof {
        assert forall|j: usize| j < BITS_PER_WORD implies #[trigger] word_bit(mask, j) == (j
            == bit_offset(pos)) by {
            lemma_word_bit_mask(bit_offset(pos), j);
        }
    }
    mask
}

/// The mask of bit `k` has bit `k` raised and no other.
pub proof fn lemma_word_bit_mask(k: usize, j: usize)
    by (bit_vector)
    requires
        k < usize::BITS,
        j < usize::BITS,
    ensures
        word_bit(1usize << k, j) == (j == k),
{
}

/// No bit of zero is raised.
pub proof fn lemma_word_bit_zero(j: usize)
    by (bit_vector)
    requires
        j < usize::BITS,
    ensures
        !word_bit(0usize, j),
{
}

/// OR with the mask of bit `k` raises bit `k` and leaves the other bits alone.
pub proof fn lemma_word_bit_raise(w: usize, k: usize, j: usize)
    by (bit_vector)
    requires
        k < usize::BITS,
        j < usize::BITS,
    ensures
        word_bit(w | (1usize << k), j) == (j == k || word_bit(w, j)),
{
}

/// XOR with the mask of bit `k` inverts bit `k` and leaves the other bits alone.
pub proof fn lemma_word_bit_toggle(w: usize, k: usize, j: usize)
    by (bit_vector)
    requires
        k < usize::BITS,
        j < usize::BITS,
    ensures
        word_bit(w ^ (1usize << k), j) == (if j == k {
            !word_bit(w, j)
        } else {
            word_bit(w, j)
        }),
{
}

/// The complement inverts every bit.
pub proof fn lemma_word_bit_not(w: usize, j: usize)
    by (bit_vector)
    requires
        j < usize::BITS,
    ensures
        word_bit(!w, j) == !word_bit(w, j),
{
}

/// A bit of `a & b` is raised when it is in both.
pub proof fn lemma_word_bit_and(a: usize, b: usize, j: usize)
    by (bit_vector)
    requires
        j < usize::BITS,
    ensures
        word_bit(a & b, j) == (word_bit(a, j) && word_bit(b, j)),
{
}

/// A bit of `a | b` is raised when it is in either.
pub proof fn lemma_word_bit_or(a: usize, b: usize, j: usize)
    by (bit_vector)
    requires
        j < usize::BITS,
    ensures
        word_bit(a | b, j) == (word_bit(a, j) || word_bit(b, j)),
{
}

/// A bit of `a ^ b` is raised when it is in exactly one.
pub proof fn lemma_word_bit_xor(a: usize, b: usize, j: usize)
    by (bit_vector)
    requires
        j < usize::BITS,
    ensures
        word_bit(a ^ b, j) == (word_bit(a, j) != word_bit(b, j)),
{
}

/// Complementing twice gives the word back.
pub proof fn lemma_word_not_twice(w: usize)
    by (bit_vector)
    ensures
        !!w == w,
{
}

/// OR with the same mask a second time changes nothing.
pub proof fn lemma_word_raise_twice(w: usize, m: usize)
    by (bit_vector)
    ensures
        (w | m) | m == w | m,
{
}

/// XOR with the same mask a second time gives the word back.
pub proof fn lemma_word_toggle_twice(w: usize, m: usize)
    by (bit_vector)
    ensures
        (w ^ m) ^ m == w,
{
}

/// AND, OR and XOR do not depend on the order of their operands.
pub proof fn lemma_word_commutes(a: usize, b: usize)
    by (bit_vector)
    ensures
        a & b == b & a,
        a | b == b | a,
        a ^ b == b ^ a,
{
}

/// XOR of a word with itself is zero.
pub proof fn lemma_word_xor_self(a: usize)
    by (bit_vector)
    ensures
        a ^ a == 0,
{
}

} // verus!
