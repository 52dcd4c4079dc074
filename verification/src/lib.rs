//! A dense, fixed-capacity bit set packed into machine words.
//!
//! A [`DenseBitSet`] owns a sequence of `usize` words. Bit `i` of the set is bit
//! `i % BITS_PER_WORD` of word `i / BITS_PER_WORD`, counted from the least significant
//! bit. The capacity is fixed at construction and is always a whole number of words.
//!
//! Every operation is verified against the model in [`model`]: single bits can be tested,
//! set and flipped, whole sets complemented and combined with AND, OR and XOR. An index
//! beyond the capacity and operands of different sizes are refused with a
//! [`BitSetError`], and a refused operation changes nothing. [`laws`] holds what follows
//! for combinations of operations.

pub mod bitset;
pub mod error;
pub mod iter;
pub mod laws;
pub mod model;
pub mod word;

pub use bitset::DenseBitSet;
pub use error::BitSetError;
pub use iter::DenseBitIterator;
pub use word::BITS_PER_WORD;
