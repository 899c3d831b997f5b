//! A growable, contiguous sequence container built in two layers: a raw slot
//! buffer that only knows its capacity, and an array that tracks how many of
//! those slots hold live elements. An array can be turned into an iterator
//! that owns the buffer and hands the elements out from either end.

pub mod array;
pub mod into_iter;
pub mod raw_array;

pub use array::Array;
pub use into_iter::IntoIter;
pub use raw_array::RawArray;
