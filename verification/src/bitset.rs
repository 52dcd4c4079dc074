//! The bit set itself.

use vstd::prelude::*;
use vstd::string::StringExecFns;
use crate::error::BitSetError;
use crate::model::{
    bit_at, bits_of, capacity_of, filled, lemma_bit_at_and, lemma_bit_at_filled, lemma_bit_at_not,
    lemma_bit_at_or, lemma_bit_at_with_bit_flipped, lemma_bit_at_with_bit_set, lemma_bit_at_xor,
    lemma_index_split, lemma_words_needed, rendering, with_bit_flipped, with_bit_set, words_and,
    words_needed, words_not, words_or, words_xor,
};
use crate::word::{BITS_PER_WORD, get_bitmask, get_word_offset, lemma_word_bit_zero, word_bit};

verus! {

/// A dense bit set stored in a `Vec<usize>`.
///
/// The capacity is fixed when the set is made and is always a whole number of words.
#[derive(Debug)]
pub struct DenseBitSet {
    num_bits: usize,
    storage: Vec<usize>,
}

impl View for DenseBitSet {
    type V = Seq<usize>;

    /// The backing words, in storage order.
    closed spec fn view(&self) -> Seq<usize> {
        self.storage@
    }
}

impl DenseBitSet {
    #[verifier::type_invariant]
    spec fn well_formed(&self) -> bool {
        self.num_bits == self.storage@.len() * BITS_PER_WORD
    }

    /// Number of addressable bits.
    pub open spec fn capacity(&self) -> nat {
        capacity_of(self@)
    }

    /// Whether bit `i` is set.
    pub open spec fn bit(&self, i: int) -> bool
        recommends
            0 <= i < self.capacity(),
    {
        bit_at(self@, i)
    }

    /// All bits, in ascending index order.
    pub open spec fn bits(&self) -> Seq<bool> {
        bits_of(self@)
    }

    /// Creates a set that can contain at least `num_bits` bits, all clear.
    ///
    /// The capacity is `num_bits` rounded up to the next multiple of the word width,
    /// which has to fit in a `usize`.
    pub fn with_capacity(num_bits: usize) -> (set: DenseBitSet)
        requires
            num_bits <= usize::MAX - (BITS_PER_WORD - 1),
        ensures
            set@ == filled(words_needed(num_bits as nat), 0),
            num_bits <= set.capacity() < num_bits + BITS_PER_WORD,
            forall|i: int| 0 <= i < set.capacity() ==> !#[trigger] set.bit(i),
    {
        let set = DenseBitSet::with_capacity_and_state(num_bits, 0);
        proof {
            assert forall|i: int| 0 <= i < set.capacity() implies !#[trigger] set.bit(i) by {
                lemma_index_split(i, set@.len());
                lemma_word_bit_zero((i % (BITS_PER_WORD as int)) as usize);
            }
        }
        set
    }

    /// Creates a set that can contain at least `num_bits` bits, with every word of the
    /// storage equal to `initial_state`.
    ///
    /// The capacity is `num_bits` rounded up to the next multiple of the word width,
    /// which has to fit in a `usize`. Bit `i` of the set is bit `i % BITS_PER_WORD` of
    /// `initial_state`.
    pub fn with_capacity_and_state(num_bits: usize, initial_state: usize) -> (set: DenseBitSet)
        requires
            num_bits <= usize::MAX - (BITS_PER_WORD - 1),
        ensures
            set@ == filled(words_needed(num_bits as nat), initial_state),
            num_bits <= set.capacity() < num_bits + BITS_PER_WORD,
            forall|i: int|
                0 <= i < set.capacity() ==> #[trigger] set.bit(i) == word_bit(
                    initial_state,
                    (i % (BITS_PER_WORD as int)) as usize,
                ),
    {
        let full_words = num_bits / BITS_PER_WORD;
        let remaining_bits = num_bits % BITS_PER_WORD;
        let words_to_allocate: usize = if remaining_bits > 0 {
            full_words + 1
        } else {
            full_words
        };
        proof {
            lemma_words_needed(num_bits as nat);
        }
        let storage = vec![initial_state; words_to_allocate];
        proof {
            assert(storage@ =~= filled(words_needed(num_bits as nat), initial_state));
            assert forall|i: int| 0 <= i < capacity_of(storage@) implies #[trigger] bit_at(
                storage@,
                i,
            ) == word_bit(initial_state, (i % (BITS_PER_WORD as int)) as usize) by {
                lemma_bit_at_filled(storage@.len(), initial_state, i);
            }
        }
        DenseBitSet { storage, num_bits: words_to_allocate * BITS_PER_WORD }
    }

    /// Creates a set of exactly one word, holding `bit_pattern`: bit `i` of the set is
    /// bit `i` of `bit_pattern`.
    pub fn from_bits(bit_pattern: usize) -> (set: DenseBitSet)
        ensures
            set@ == seq![bit_pattern],
            set.capacity() == BITS_PER_WORD,
            forall|i: int|
                0 <= i < BITS_PER_WORD ==> #[trigger] set.bit(i) == word_bit(
                    bit_pattern,
                    i as usize,
                ),
    {
        proof {
            lemma_words_needed(BITS_PER_WORD as nat);
            assert(words_needed(BITS_PER_WORD as nat) == 1) by (nonlinear_arith)
                requires
                    BITS_PER_WORD <= words_needed(BITS_PER_WORD as nat) * BITS_PER_WORD
                        < BITS_PER_WORD + BITS_PER_WORD,
            ;
        }
        let set = DenseBitSet::with_capacity_and_state(BITS_PER_WORD, bit_pattern);
        proof {
            assert(set@ =~= seq![bit_pattern]);
            assert forall|i: int| 0 <= i < BITS_PER_WORD implies #[trigger] set.bit(i) == word_bit(
                bit_pattern,
                i as usize,
            ) by {
                lemma_index_split(i, 1);
            }
        }
        set
    }

    /// Creates a set that uses `v` as its storage.
    ///
    /// The capacity, `v.len()` words' worth of bits, has to fit in a `usize`.
    pub fn from_vec(v: Vec<usize>) -> (set: DenseBitSet)
        requires
            v@.len() * BITS_PER_WORD <= usize::MAX,
        ensures
            set@ == v@,
    {
        assert(BITS_PER_WORD * v@.len() == v@.len() * BITS_PER_WORD) by (nonlinear_arith);
        DenseBitSet { num_bits: BITS_PER_WORD * v.len(), storage: v }
    }

    /// Number of words in the storage.
    pub fn words(&self) -> (n: usize)
        ensures
            n == self@.len(),
    {
        self.storage.len()
    }

    /// Number of bits this set can accommodate.
    pub fn len(&self) -> (n: usize)
        ensures
            n == self.capacity(),
    {
        proof {
            use_type_invariant(self);
        }
        self.num_bits
    }

    /// Tests whether bit `i` is set.
    pub fn test(&self, i: usize) -> (r: Result<bool, BitSetError>)
        ensures
            i < self.capacity() ==> r == Ok::<bool, BitSetError>(self.bit(i as int)),
            i >= self.capacity() ==> r == Err::<bool, BitSetError>(BitSetError::OutOfRange),
    {
        proof {
            use_type_invariant(self);
        }
        if i >= self.num_bits {
            return Err(BitSetError::OutOfRange);
        }
        Ok(self.read(i))
    }

    /// Reads bit `i`, which the caller knows to be in range.
    pub(crate) fn read(&self, i: usize) -> (b: bool)
        requires
            i < self.capacity(),
        ensures
            b == self.bit(i as int),
    {
        proof {
            lemma_index_split(i as int, self.storage@.len());
        }
        (self.storage[get_word_offset(i)] & get_bitmask(i)) != 0
    }

    /// Sets bit `i` and tells whether it was clear before.
    pub fn set(&mut self, i: usize) -> (r: Result<bool, BitSetError>)
        ensures
            final(self)@.len() == old(self)@.len(),
            i >= old(self).capacity() ==> r == Err::<bool, BitSetError>(BitSetError::OutOfRange)
                && *final(self) == *old(self),
            i < old(self).capacity() ==> {
                &&& r == Ok::<bool, BitSetError>(!old(self).bit(i as int))
                &&& final(self)@ == with_bit_set(old(self)@, i as int)
                &&& final(self).bit(i as int)
                &&& forall|j: int|
                    0 <= j < old(self).capacity() && j != i ==> #[trigger] final(self).bit(j)
                        == old(self).bit(j)
            },
    {
        proof {
            use_type_invariant(&*self);
        }
        if i >= self.num_bits {
            return Err(BitSetError::OutOfRange);
        }
        proof {
            lemma_index_split(i as int, self.storage@.len());
        }
        let idx = get_word_offset(i);
        let prior = self.storage[idx];
        let bitmask = get_bitmask(i);

        self.storage[idx] |= bitmask;
        proof {
            assert forall|j: int| 0 <= j < old(self).capacity() implies self.bit(j) == (j == i
                || old(self).bit(j)) by {
                lemma_bit_at_with_bit_set(old(self)@, i as int, j);
            }
        }
        Ok((prior & bitmask) == 0)
    }

    /// Flips the value of bit `i`.
    pub fn flip(&mut self, i: usize) -> (r: Result<(), BitSetError>)
        ensures
            final(self)@.len() == old(self)@.len(),
            i >= old(self).capacity() ==> r == Err::<(), BitSetError>(BitSetError::OutOfRange)
                && *final(self) == *old(self),
            i < old(self).capacity() ==> {
                &&& r == Ok::<(), BitSetError>(())
                &&& final(self)@ == with_bit_flipped(old(self)@, i as int)
                &&& final(self).bit(i as int) == !old(self).bit(i as int)
                &&& forall|j: int|
                    0 <= j < old(self).capacity() && j != i ==> #[trigger] final(self).bit(j)
                        == old(self).bit(j)
            },
    {
        proof {
            use_type_invariant(&*self);
        }
        if i >= self.num_bits {
            return Err(BitSetError::OutOfRange);
        }
        proof {
            lemma_index_split(i as int, self.storage@.len());
        }
        self.storage[get_word_offset(i)] ^= get_bitmask(i);
        proof {
            assert forall|j: int| 0 <= j < old(self).capacity() implies self.bit(j) == (if j == i {
                !old(self).bit(j)
            } else {
                old(self).bit(j)
            }) by {
                lemma_bit_at_with_bit_flipped(old(self)@, i as int, j);
            }
        }
        Ok(())
    }

    /// Complements every word in place, and with it every bit of the capacity: the bits
    /// beyond the number asked for at construction are inverted like the others.
    pub fn inplace_not(&mut self)
        ensures
            final(self)@.len() == old(self)@.len(),
            final(self)@ == words_not(old(self)@),
            forall|i: int|
                0 <= i < old(self).capacity() ==> #[trigger] final(self).bit(i) == !old(self).bit(
                    i,
                ),
    {
        proof {
            use_type_invariant(&*self);
        }
        let n = self.storage.len();
        for i in 0..n
            invariant
                n == old(self).storage@.len(),
                self.num_bits == old(self).num_bits,
                self.num_bits == n * BITS_PER_WORD,
                self.storage@.len() == n,
                forall|k: int| 0 <= k < i ==> self.storage@[k] == !old(self).storage@[k],
                forall|k: int| i <= k < n ==> self.storage@[k] == old(self).storage@[k],
        {
            self.storage[i] = !self.storage[i];
        }
        proof {
            assert(self@ =~= words_not(old(self)@));
            assert forall|i: int| 0 <= i < old(self).capacity() implies self.bit(i) == !old(
                self,
            ).bit(i) by {
                lemma_bit_at_not(old(self)@, i);
            }
        }
    }

    /// In-place bitwise AND with `other`, which must have as many words as `self`.
    pub fn inplace_and(&mut self, other: &DenseBitSet) -> (r: Result<(), BitSetError>)
        ensures
            final(self)@.len() == old(self)@.len(),
            old(self)@.len() != other@.len() ==> r == Err::<(), BitSetError>(
                BitSetError::SizeMismatch,
            ) && *final(self) == *old(self),
            old(self)@.len() == other@.len() ==> {
                &&& r == Ok::<(), BitSetError>(())
                &&& final(self)@ == words_and(old(self)@, other@)
                &&& forall|i: int|
                    0 <= i < old(self).capacity() ==> #[trigger] final(self).bit(i) == (old(
                        self,
                    ).bit(i) && other.bit(i))
            },
    {
        proof {
            use_type_invariant(&*self);
        }
        if self.words() != other.words() {
            return Err(BitSetError::SizeMismatch);
        }
        let n = self.storage.len();
        for i in 0..n
            invariant
                n == old(self).storage@.len(),
                n == other.storage@.len(),
                self.num_bits == old(self).num_bits,
                self.num_bits == n * BITS_PER_WORD,
                self.storage@.len() == n,
                forall|k: int|
                    0 <= k < i ==> self.storage@[k] == old(self).storage@[k] & other.storage@[k],
                forall|k: int| i <= k < n ==> self.storage@[k] == old(self).storage@[k],
        {
            self.storage[i] &= other.storage[i];
        }
        proof {
            assert(self@ =~= words_and(old(self)@, other@));
            assert forall|i: int| 0 <= i < old(self).capacity() implies #[trigger] self.bit(i)
                == (old(self).bit(i) && other.bit(i)) by {
                lemma_bit_at_and(old(self)@, other@, i);
            }
        }
        Ok(())
    }

    /// In-place bitwise OR with `other`, which must have as many words as `self`.
    pub fn inplace_or(&mut self, other: &DenseBitSet) -> (r: Result<(), BitSetError>)
        ensures
            final(self)@.len() == old(self)@.len(),
            old(self)@.len() != other@.len() ==> r == Err::<(), BitSetError>(
                BitSetError::SizeMismatch,
            ) && *final(self) == *old(self),
            old(self)@.len() == other@.len() ==> {
                &&& r == Ok::<(), BitSetError>(())
                &&& final(self)@ == words_or(old(self)@, other@)
                &&& forall|i: int|
                    0 <= i < old(self).capacity() ==> #[trigger] final(self).bit(i) == (old(
                        self,
                    ).bit(i) || other.bit(i))
            },
    {
        proof {
            use_type_invariant(&*self);
        }
        if self.words() != other.words() {
            return Err(BitSetError::SizeMismatch);
        }
        let n = self.storage.len();
        for i in 0..n
            invariant
                n == old(self).storage@.len(),
                n == other.storage@.len(),
                self.num_bits == old(self).num_bits,
                self.num_bits == n * BITS_PER_WORD,
                self.storage@.len() == n,
                forall|k: int|
                    0 <= k < i ==> self.storage@[k] == old(self).storage@[k] | other.storage@[k],
                forall|k: int| i <= k < n ==> self.storage@[k] == old(self).storage@[k],
        {
            self.storage[i] |= other.storage[i];
        }
        proof {
            assert(self@ =~= words_or(old(self)@, other@));
            assert forall|i: int| 0 <= i < old(self).capacity() implies #[trigger] self.bit(i)
                == (old(self).bit(i) || other.bit(i)) by {
                lemma_bit_at_or(old(self)@, other@, i);
            }
        }
        Ok(())
    }

    /// In-place bitwise XOR with `other`, which must have as many words as `self`.
    pub fn inplace_xor(&mut self, other: &DenseBitSet) -> (r: Result<(), BitSetError>)
        ensures
            final(self)@.len() == old(self)@.len(),
            old(self)@.len() != other@.len() ==> r == Err::<(), BitSetError>(
                BitSetError::SizeMismatch,
            ) && *final(self) == *old(self),
            old(self)@.len() == other@.len() ==> {
                &&& r == Ok::<(), BitSetError>(())
                &&& final(self)@ == words_xor(old(self)@, other@)
                &&& forall|i: int|
                    0 <= i < old(self).capacity() ==> #[trigger] final(self).bit(i) == (old(
                        self,
                    ).bit(i) != other.bit(i))
            },
    {
        proof {
            use_type_invariant(&*self);
        }
        if self.words() != other.words() {
            return Err(BitSetError::SizeMismatch);
        }
        let n = self.storage.len();
        for i in 0..n
            invariant
                n == old(self).storage@.len(),
                n == other.storage@.len(),
                self.num_bits == old(self).num_bits,
                self.num_bits == n * BITS_PER_WORD,
                self.storage@.len() == n,
                forall|k: int|
                    0 <= k < i ==> self.storage@[k] == old(self).storage@[k] ^ other.storage@[k],
                forall|k: int| i <= k < n ==> self.storage@[k] == old(self).storage@[k],
        {
            self.storage[i] ^= other.storage[i];
        }
        proof {
            assert(self@ =~= words_xor(old(self)@, other@));
            assert forall|i: int| 0 <= i < old(self).capacity() implies #[trigger] self.bit(i)
                == (old(self).bit(i) != other.bit(i)) by {
                lemma_bit_at_xor(old(self)@, other@, i);
            }
        }
        Ok(())
    }

    /// Bitwise AND of `self` and `other` as a new set; both operands stay as they are.
    pub fn and(&self, other: &DenseBitSet) -> (r: Result<DenseBitSet, BitSetError>)
        ensures
            match r {
                Ok(output) => {
                    &&& self@.len() == other@.len()
                    &&& output@ == words_and(self@, other@)
                    &&& forall|i: int|
                        0 <= i < self.capacity() ==> #[trigger] output.bit(i) == (self.bit(i)
                            && other.bit(i))
                },
                Err(e) => self@.len() != other@.len() && e == BitSetError::SizeMismatch,
            },
    {
        if self.words() != other.words() {
            return Err(BitSetError::SizeMismatch);
        }
        let mut output = self.clone();
        output.inplace_and(other)?;
        Ok(output)
    }

    /// Bitwise OR of `self` and `other` as a new set; both operands stay as they are.
    pub fn or(&self, other: &DenseBitSet) -> (r: Result<DenseBitSet, BitSetError>)
        ensures
            match r {
                Ok(output) => {
                    &&& self@.len() == other@.len()
                    &&& output@ == words_or(self@, other@)
                    &&& forall|i: int|
                        0 <= i < self.capacity() ==> #[trigger] output.bit(i) == (self.bit(i)
                            || other.bit(i))
                },
                Err(e) => self@.len() != other@.len() && e == BitSetError::SizeMismatch,
            },
    {
        if self.words() != other.words() {
            return Err(BitSetError::SizeMismatch);
        }
        let mut output = self.clone();
        output.inplace_or(other)?;
        Ok(output)
    }

    /// Bitwise XOR of `self` and `other` as a new set; both operands stay as they are.
    pub fn xor(&self, other: &DenseBitSet) -> (r: Result<DenseBitSet, BitSetError>)
        ensures
            match r {
                Ok(output) => {
                    &&& self@.len() == other@.len()
                    &&& output@ == words_xor(self@, other@)
                    &&& forall|i: int|
                        0 <= i < self.capacity() ==> #[trigger] output.bit(i) == (self.bit(i)
                            != other.bit(i))
                },
                Err(e) => self@.len() != other@.len() && e == BitSetError::SizeMismatch,
            },
    {
        if self.words() != other.words() {
            return Err(BitSetError::SizeMismatch);
        }
        let mut output = self.clone();
        output.inplace_xor(other)?;
        Ok(output)
    }

    /// The bits as text: one character per bit in ascending index order, `'1'` for a set
    /// bit and `'0'` for a clear one.
    pub fn to_bit_string(&self) -> (text: String)
        ensures
            text@ == rendering(self.bits()),
    {
        let n = self.len();
        let mut text = String::new();
        for i in 0..n
            invariant
                n == self.capacity(),
                text@.len() == i,
                forall|k: int|
                    0 <= k < i ==> text@[k] == (if self.bit(k) {
                        '1'
                    } else {
                        '0'
                    }),
        {
            proof {
                reveal_strlit("1");
                reveal_strlit("0");
            }
            if self.read(i) {
                text.append("1");
            } else {
                text.append("0");
            }
        }
        assert(text@ =~= rendering(self.bits()));
        text
    }
}

impl Clone for DenseBitSet {
    /// A deep copy: the new set has storage of its own with the same words.
    fn clone(&self) -> (copy: Self)
        ensures
            copy@ == self@,
    {
        proof {
            use_type_invariant(self);
        }
        DenseBitSet { num_bits: self.num_bits, storage: self.storage.clone() }
    }
}

impl PartialEq for DenseBitSet {
    /// Two sets are equal when their word sequences are.
    fn eq(&self, other: &Self) -> (equal: bool) {
        proof {
            use_type_invariant(self);
            use_type_invariant(other);
        }
        let equal = self.num_bits == other.num_bits && self.storage == other.storage;
        proof {
            if equal {
                assert(self.storage@ =~= other.storage@);
            }
        }
        equal
    }
}

impl Eq for DenseBitSet {

}

impl vstd::std_specs::cmp::PartialEqSpecImpl for DenseBitSet {
    open spec fn obeys_eq_spec() -> bool {
        true
    }

    open spec fn eq_spec(&self, other: &Self) -> bool {
        self@ == other@
    }
}

} // verus!
