//! A dynamic array as a scripting host exposes it: one-based indexing,
//! with negative indices counting from the end, and a length capped so
//! that it always fits the host's integer type.

use vstd::prelude::*;

use vstd::pervasive::VecAdditionalExecFns;

verus! {

/// A rejected vector operation.
#[derive(Clone, Copy, Debug, PartialEq, Eq, Structural)]
pub enum VectorError {
    /// A vector length is required to be non-negative and was not.
    InvalidLength,
}

/// A dynamic array of host values. The element type is the host's
/// business; the vector only stores, hands out and replaces elements.
pub struct ScriptVector<T> {
    /// The stored elements, position 0 first.
    items: Vec<T>,
}

impl<T> ScriptVector<T> {
    /// The stored elements, position 0 first.
    pub closed spec fn contents(&self) -> Seq<T> {
        self.items@
    }

    /// The vector never grows past the host's integer range, so its
    /// length is always representable as a host integer.
    pub open spec fn wf(&self) -> bool {
        self.contents().len() <= i64::MAX
    }

    /// Where a one-based index lands in a vector of length `len`:
    /// a positive index counts from the front, a negative one from the
    /// back, and zero or anything past either end lands nowhere.
    pub open spec fn index_of(len: int, one_based: int) -> Option<int> {
        if one_based == 0 {
            None
        } else if one_based > len {
            None
        } else if one_based < -len {
            None
        } else if one_based > 0 {
            Some(one_based - 1)
        } else {
            Some(one_based + len)
        }
    }

    /// Converts a one-based index, possibly negative, to the stored
    /// position it designates; nothing for an index out of bounds.
    fn zero_based_index(&self, one_based: i64) -> (r: Option<usize>)
        requires
            self.wf(),
        ensures
            match r {
                Some(i) => Self::index_of(self.contents().len() as int, one_based as int)
                    == Some(i as int) && i < self.contents().len(),
                None => Self::index_of(self.contents().len() as int, one_based as int)
                    is None,
            },
    {
        let len = self.items.len() as i64;

        if one_based == 0 {
            None
        } else if one_based > len {
            None
        } else if one_based < -len {
            None
        } else if one_based > 0 {
            Some((one_based - 1) as usize)
        } else {
            Some((one_based + len) as usize)
        }
    }
}

impl<T: Clone> ScriptVector<T> {
    /// Creates a vector of the given length with every position holding
    /// a clone of the filler. A negative length is rejected and nothing
    /// is created.
    pub fn new(size: i64, filler: T) -> (r: Result<Self, VectorError>)
        ensures
            size >= 0 ==> (r matches Ok(v) && v.wf() && v.contents().len() == size && forall|
                i: int,
            | 0 <= i < size ==> cloned(filler, #[trigger] v.contents()[i])),
            size < 0 ==> r == Err::<Self, VectorError>(VectorError::InvalidLength),
    {
        if size < 0 {
            return Err(VectorError::InvalidLength);
        }
        let mut items: Vec<T> = Vec::new();
        let mut count: i64 = 0;
        while count < size
            invariant
                0 <= count <= size,
                items@.len() == count,
                forall|i: int| 0 <= i < count ==> cloned(filler, #[trigger] items@[i]),
            decreases size - count,
        {
            items.push(filler.clone());
            count = count + 1;
        }
        Ok(ScriptVector { items })
    }

    /// Wraps a pre-existing collection of values, first one at position
    /// 0. The collection must fit the host's integer range, as anything
    /// a host hands over does.
    pub fn of(values: Vec<T>) -> (r: Self)
        requires
            values@.len() <= i64::MAX,
        ensures
            r.wf(),
            r.contents() == values@,
    {
        ScriptVector { items: values }
    }

    /// Hands out a clone of the value at a one-based index, possibly
    /// negative; nothing for an index out of bounds.
    pub fn get(&self, index: i64) -> (r: Option<T>)
        requires
            self.wf(),
        ensures
            match Self::index_of(self.contents().len() as int, index as int) {
                Some(i) => r matches Some(v) && cloned(self.contents()[i], v),
                None => r is None,
            },
    {
        match self.zero_based_index(index) {
            Some(i) => Some(self.items[i].clone()),
            None => None,
        }
    }

    /// The number of stored elements, as a host integer.
    pub fn len(&self) -> (r: i64)
        requires
            self.wf(),
        ensures
            r == self.contents().len(),
    {
        self.items.len() as i64
    }

    /// Appends a value; reports failure instead when the vector is at
    /// the host's integer ceiling.
    pub fn push(&mut self, value: T) -> (r: bool)
        requires
            old(self).wf(),
        ensures
            final(self).wf(),
            old(self).contents().len() < i64::MAX ==> r && final(self).contents() == old(
                self).contents().push(value),
            old(self).contents().len() == i64::MAX ==> !r && *final(self) == *old(self),
    {
        if (self.items.len() as u64) < (i64::MAX as u64) {
            self.items.push(value);
            return true;
        }
        false
    }

    /// Removes and returns the last element; nothing if the vector is
    /// empty.
    pub fn pop(&mut self) -> (r: Option<T>)
        requires
            old(self).wf(),
        ensures
            final(self).wf(),
            old(self).contents().len() == 0 ==> r is None && final(self).contents() == old(
                self).contents(),
            old(self).contents().len() > 0 ==> r == Some(old(self).contents().last())
                && final(self).contents() == old(self).contents().drop_last(),
    {
        self.items.pop()
    }

    /// Replaces the value at a one-based index, possibly negative, and
    /// reports whether the index was in bounds; nothing changes when it
    /// was not.
    pub fn set(&mut self, index: i64, new_value: T) -> (r: bool)
        requires
            old(self).wf(),
        ensures
            final(self).wf(),
            match Self::index_of(old(self).contents().len() as int, index as int) {
                Some(i) => r && final(self).contents() == old(self).contents().update(
                    i, new_value),
                None => !r && *final(self) == *old(self),
            },
    {
        match self.zero_based_index(index) {
            Some(i) => {
                self.items.set(i, new_value);
                true
            },
            None => false,
        }
    }
}

} // verus!
