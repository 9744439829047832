//! Marks of how a value is framed in the bytes of a module.

use vstd::prelude::*;

verus! {

/// Data that stands behind the number of its bytes.
#[derive(Debug, Default, PartialEq, Eq)]
pub struct ByteLengthEncoded<T>(pub T);

/// Items that stand behind their count.
#[derive(Clone, Debug, Default, PartialEq, Eq, Hash)]
pub struct LengthEncodedVector<T>(pub Vec<T>);

/// Items that stand behind the number of their bytes and their count, as
/// the sections of a module do.
pub type DoubleLengthEncodedVector<T> = ByteLengthEncoded<LengthEncodedVector<T>>;

impl<T> ByteLengthEncoded<T> {
    /// What stands behind the number of bytes.
    pub fn data(&self) -> (data: &T)
        ensures
            *data == self.0,
    {
        &self.0
    }
}

impl<T> LengthEncodedVector<T> {
    /// The count that stands before the items.
    pub fn len(&self) -> (count: usize)
        ensures
            count == self.0@.len(),
    {
        self.0.len()
    }

    /// Whether the count is zero.
    pub fn is_empty(&self) -> (empty: bool)
        ensures
            empty == (self.0@.len() == 0),
    {
        self.0.len() == 0
    }
}

} // verus!
