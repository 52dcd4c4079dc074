//! Reading a bit set bit by bit.

use vstd::prelude::*;
use crate::bitset::DenseBitSet;

verus! {

/// A cursor over the bits of a [`DenseBitSet`], from bit 0 upwards.
///
/// The cursor holds a shared borrow of the set and a position. It keeps no copy of the
/// bits: each step reads the set through the borrow. While a cursor is alive the borrow
/// keeps the set from being changed, so what a cursor yields is what the set held when the
/// cursor was made.
#[derive(Debug, PartialEq, Eq)]
pub struct DenseBitIterator<'a> {
    collection: &'a DenseBitSet,
    index: usize,
}

impl<'a> View for DenseBitIterator<'a> {
    type V = Seq<bool>;

    /// The bits still to be yielded, in the order in which they will come.
    open spec fn view(&self) -> Seq<bool> {
        self.source().bits().skip(self.position() as int)
    }
}

impl<'a> DenseBitIterator<'a> {
    #[verifier::type_invariant]
    spec fn well_formed(&self) -> bool {
        self.index <= self.collection.capacity()
    }

    /// The set that is read.
    pub closed spec fn source(&self) -> DenseBitSet {
        *self.collection
    }

    /// Index of the bit that comes next; the capacity of the set once all were yielded.
    pub closed spec fn position(&self) -> nat {
        self.index as nat
    }

    /// Yields the next bit, or `None` once every bit of the set has been yielded.
    pub fn next(&mut self) -> (item: Option<bool>)
        ensures
            final(self).source() == old(self).source(),
            match item {
                Some(b) => {
                    &&& old(self).position() < old(self).source().capacity()
                    &&& b == old(self).source().bit(old(self).position() as int)
                    &&& final(self).position() == old(self).position() + 1
                    &&& old(self)@.len() > 0
                    &&& b == old(self)@[0]
                    &&& final(self)@ == old(self)@.drop_first()
                },
                None => {
                    &&& old(self).position() == old(self).source().capacity()
                    &&& old(self)@.len() == 0
                    &&& *final(self) == *old(self)
                },
            },
    {
        proof {
            use_type_invariant(&*self);
        }
        if self.index < self.collection.len() {
            let result = self.collection.read(self.index);
            self.index += 1;
            assert(self@ =~= old(self)@.drop_first());
            Some(result)
        } else {
            None
        }
    }

    /// Number of bits of the set that is read. It is known from the start and stays the
    /// same whatever has been yielded.
    pub fn len(&self) -> (n: usize)
        ensures
            n == self.source().capacity(),
    {
        self.collection.len()
    }

    /// Runs the cursor to its end and returns what it yields, in order.
    pub fn collect(self) -> (rest: Vec<bool>)
        ensures
            rest@ == self@,
    {
        let mut cursor = self;
        let mut rest: Vec<bool> = Vec::new();
        loop
            invariant
                rest@ + cursor@ == self@,
            ensures
                rest@ == self@,
            decreases cursor@.len(),
        {
            match cursor.next() {
                Some(b) => {
                    rest.push(b);
                    assert(rest@ + cursor@ =~= self@);
                },
                None => {
                    assert(rest@ + cursor@ =~= rest@);
                    break ;
                },
            }
        }
        rest
    }
}

impl<'a> Clone for DenseBitIterator<'a> {
    /// A second cursor on the same set, at the same place.
    fn clone(&self) -> (copy: Self)
        ensures
            copy.source() == self.source(),
            copy.position() == self.position(),
            copy@ == self@,
    {
        proof {
            use_type_invariant(self);
        }
        DenseBitIterator { collection: self.collection, index: self.index }
    }
}

impl DenseBitSet {
    /// A cursor placed before bit 0: it will yield every bit of the set, in ascending
    /// index order.
    pub fn into_iter(&self) -> (cursor: DenseBitIterator<'_>)
        ensures
            cursor.source() == *self,
            cursor.position() == 0,
            cursor@ == self.bits(),
            cursor@.len() == self.capacity(),
            forall|i: int| 0 <= i < self.capacity() ==> #[trigger] cursor@[i] == self.bit(i),
    {
        let cursor = DenseBitIterator { collection: self, index: 0 };
        assert(cursor@ =~= self.bits());
        cursor
    }
}

} // verus!
