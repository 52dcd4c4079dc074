//! The mathematical model of a bit set: a sequence of words read as a sequence of bits.
//!
//! Every contract of the executable code is stated over the functions of this module.

use vstd::prelude::*;
use crate::word::{
    BITS_PER_WORD, lemma_word_bit_and, lemma_word_bit_not, lemma_word_bit_or, lemma_word_bit_raise,
    lemma_word_bit_toggle, lemma_word_bit_xor, word_bit,
};

verus! {

/// Number of words needed to hold `num_bits` bits: the quotient rounded up.
pub open spec fn words_needed(num_bits: nat) -> nat {
    ((num_bits + BITS_PER_WORD - 1) / (BITS_PER_WORD as int)) as nat
}

/// Number of bit positions that `words` offers.
pub open spec fn capacity_of(words: Seq<usize>) -> nat {
    words.len() * (BITS_PER_WORD as nat)
}

/// Bit `i` of the set stored in `words`: bit `i % BITS_PER_WORD` of word `i / BITS_PER_WORD`.
pub open spec fn bit_at(words: Seq<usize>, i: int) -> bool
    recommends
        0 <= i < capacity_of(words),
{
    word_bit(words[i / (BITS_PER_WORD as int)], (i % (BITS_PER_WORD as int)) as usize)
}

/// All bits of the set stored in `words`, in ascending index order.
pub open spec fn bits_of(words: Seq<usize>) -> Seq<bool> {
    Seq::new(capacity_of(words), |i: int| bit_at(words, i))
}

/// The text that shows `bits`: `'1'` for a set bit and `'0'` for a clear one, in order.
pub open spec fn rendering(bits: Seq<bool>) -> Seq<char> {
    Seq::new(
        bits.len(),
        |i: int|
            if bits[i] {
                '1'
            } else {
                '0'
            },
    )
}

/// `n` words that all equal `w`.
pub open spec fn filled(n: nat, w: usize) -> Seq<usize> {
    Seq::new(n, |k: int| w)
}

/// `words` with bit `i` raised.
pub open spec fn with_bit_set(words: Seq<usize>, i: int) -> Seq<usize>
    recommends
        0 <= i < capacity_of(words),
{
    let k = i / (BITS_PER_WORD as int);
    words.update(k, words[k] | (1usize << ((i % (BITS_PER_WORD as int)) as usize)))
}

/// `words` with bit `i` inverted.
pub open spec fn with_bit_flipped(words: Seq<usize>, i: int) -> Seq<usize>
    recommends
        0 <= i < capacity_of(words),
{
    let k = i / (BITS_PER_WORD as int);
    words.update(k, words[k] ^ (1usize << ((i % (BITS_PER_WORD as int)) as usize)))
}

/// Every word complemented.
pub open spec fn words_not(words: Seq<usize>) -> Seq<usize> {
    Seq::new(words.len(), |k: int| !words[k])
}

/// Word-wise AND of two sequences of the same length.
pub open spec fn words_and(a: Seq<usize>, b: Seq<usize>) -> Seq<usize>
    recommends
        a.len() == b.len(),
{
    Seq::new(a.len(), |k: int| a[k] & b[k])
}

/// Word-wise OR of two sequences of the same length.
pub open spec fn words_or(a: Seq<usize>, b: Seq<usize>) -> Seq<usize>
    recommends
        a.len() == b.len(),
{
    Seq::new(a.len(), |k: int| a[k] | b[k])
}

/// Word-wise XOR of two sequences of the same length.
pub open spec fn words_xor(a: Seq<usize>, b: Seq<usize>) -> Seq<usize>
    recommends
        a.len() == b.len(),
{
    Seq::new(a.len(), |k: int| a[k] ^ b[k])
}

/// A bit index below `n` words' capacity splits into a word index below `n` and an offset
/// below the word width, and is recovered from the two.
pub proof fn lemma_index_split(i: int, n: nat)
    requires
        0 <= i < n * BITS_PER_WORD,
    ensures
        0 <= i / (BITS_PER_WORD as int) < n,
        0 <= i % (BITS_PER_WORD as int) < BITS_PER_WORD,
        i == (i / (BITS_PER_WORD as int)) * BITS_PER_WORD + i % (BITS_PER_WORD as int),
{
    let b = BITS_PER_WORD as int;
    assert(0 <= i / b < n && 0 <= i % b < b && i == (i / b) * b + i % b) by (nonlinear_arith)
        requires
            0 <= i < n * b,
            b > 0,
    ;
}

/// Word `k` and offset `j` address bit `k * BITS_PER_WORD + j`, and no other.
pub proof fn lemma_index_join(k: int, j: int)
    requires
        0 <= k,
        0 <= j < BITS_PER_WORD,
    ensures
        (k * BITS_PER_WORD + j) / (BITS_PER_WORD as int) == k,
        (k * BITS_PER_WORD + j) % (BITS_PER_WORD as int) == j,
{
    let b = BITS_PER_WORD as int;
    vstd::arithmetic::div_mod::lemma_fundamental_div_mod_converse(k * b + j, b, k, j);
}

/// `words_needed(num_bits)` words are enough for `num_bits` bits, and one word fewer is not.
pub proof fn lemma_words_needed(num_bits: nat)
    ensures
        num_bits <= words_needed(num_bits) * BITS_PER_WORD < num_bits + BITS_PER_WORD,
        num_bits % (BITS_PER_WORD as nat) == 0 ==> words_needed(num_bits) == num_bits / (
        BITS_PER_WORD as nat),
        num_bits % (BITS_PER_WORD as nat) > 0 ==> words_needed(num_bits) == num_bits / (
        BITS_PER_WORD as nat) + 1,
{
    let b = BITS_PER_WORD as int;
    let n = num_bits as int;
    let q = n / b;
    let r = n % b;
    assert(0 <= r < b && n == q * b + r && q >= 0) by (nonlinear_arith)
        requires
            b > 0,
            n >= 0,
            q == n / b,
            r == n % b,
    ;
    if r > 0 {
        assert(n + b - 1 == (q + 1) * b + (r - 1)) by (nonlinear_arith)
            requires
                n == q * b + r,
        ;
        vstd::arithmetic::div_mod::lemma_fundamental_div_mod_converse(n + b - 1, b, q + 1, r - 1);
        assert((q + 1) * b == q * b + b) by (nonlinear_arith);
    } else {
        assert(n + b - 1 == q * b + (b - 1));
        vstd::arithmetic::div_mod::lemma_fundamental_div_mod_converse(n + b - 1, b, q, b - 1);
    }
}

/// Every word of `filled(n, w)` is `w`, so bit `i` reads as bit `i % BITS_PER_WORD` of `w`.
pub proof fn lemma_bit_at_filled(n: nat, w: usize, i: int)
    requires
        0 <= i < n * BITS_PER_WORD,
    ensures
        bit_at(filled(n, w), i) == word_bit(w, (i % (BITS_PER_WORD as int)) as usize),
{
    lemma_index_split(i, n);
}

/// Raising bit `i` makes bit `i` true and leaves every other bit as it was.
pub proof fn lemma_bit_at_with_bit_set(words: Seq<usize>, i: int, j: int)
    requires
        0 <= i < capacity_of(words),
        0 <= j < capacity_of(words),
    ensures
        bit_at(with_bit_set(words, i), j) == (j == i || bit_at(words, j)),
{
    let b = BITS_PER_WORD as int;
    lemma_index_split(i, words.len());
    lemma_index_split(j, words.len());
    if i / b == j / b {
        lemma_word_bit_raise(words[i / b], (i % b) as usize, (j % b) as usize);
    }
}

/// Inverting bit `i` inverts bit `i` and leaves every other bit as it was.
pub proof fn lemma_bit_at_with_bit_flipped(words: Seq<usize>, i: int, j: int)
    requires
        0 <= i < capacity_of(words),
        0 <= j < capacity_of(words),
    ensures
        bit_at(with_bit_flipped(words, i), j) == (if j == i {
            !bit_at(words, j)
        } else {
            bit_at(words, j)
        }),
{
    let b = BITS_PER_WORD as int;
    lemma_index_split(i, words.len());
    lemma_index_split(j, words.len());
    if i / b == j / b {
        lemma_word_bit_toggle(words[i / b], (i % b) as usize, (j % b) as usize);
    }
}

/// Complementing the words inverts every bit.
pub proof fn lemma_bit_at_not(words: Seq<usize>, i: int)
    requires
        0 <= i < capacity_of(words),
    ensures
        bit_at(words_not(words), i) == !bit_at(words, i),
{
    let b = BITS_PER_WORD as int;
    lemma_index_split(i, words.len());
    lemma_word_bit_not(words[i / b], (i % b) as usize);
}

/// A bit of the word-wise AND is the conjunction of the operands' bits.
pub proof fn lemma_bit_at_and(a: Seq<usize>, b: Seq<usize>, i: int)
    requires
        a.len() == b.len(),
        0 <= i < capacity_of(a),
    ensures
        bit_at(words_and(a, b), i) == (bit_at(a, i) && bit_at(b, i)),
{
    let w = BITS_PER_WORD as int;
    lemma_index_split(i, a.len());
    lemma_word_bit_and(a[i / w], b[i / w], (i % w) as usize);
}

/// A bit of the word-wise OR is the disjunction of the operands' bits.
pub proof fn lemma_bit_at_or(a: Seq<usize>, b: Seq<usize>, i: int)
    requires
        a.len() == b.len(),
        0 <= i < capacity_of(a),
    ensures
        bit_at(words_or(a, b), i) == (bit_at(a, i) || bit_at(b, i)),
{
    let w = BITS_PER_WORD as int;
    lemma_index_split(i, a.len());
    lemma_word_bit_or(a[i / w], b[i / w], (i % w) as usize);
}

/// A bit of the word-wise XOR tells whether the operands' bits differ.
pub proof fn lemma_bit_at_xor(a: Seq<usize>, b: Seq<usize>, i: int)
    requires
        a.len() == b.len(),
        0 <= i < capacity_of(a),
    ensures
        bit_at(words_xor(a, b), i) == (bit_at(a, i) != bit_at(b, i)),
{
    let w = BITS_PER_WORD as int;
    lemma_index_split(i, a.len());
    lemma_word_bit_xor(a[i / w], b[i / w], (i % w) as usize);
}

} // verus!
