//! A vector whose length is fixed by a const parameter.

use vstd::prelude::*;

verus! {

/// An alternative to `[T; K]` that works with const trait params.
#[derive(Debug)]
pub struct FixedLengthVec<T, const K: usize>(Vec<T>);

impl<T, const K: usize> FixedLengthVec<T, K> {
    /// The elements.
    pub closed spec fn spec_items(&self) -> Seq<T> {
        self.0@
    }

    /// Whether the invariant holds: exactly `K` elements.
    pub closed spec fn wf(&self) -> bool {
        self.0@.len() == K
    }

    /// Wraps `v` when it has exactly `K` elements; otherwise returns its length.
    pub fn try_from(v: Vec<T>) -> (res: Result<Self, usize>)
        ensures
            v@.len() == K ==> (res matches Ok(f) && f.spec_items() == v@ && f.wf()),
            v@.len() != K ==> res == Err::<Self, usize>(v@.len() as usize),
    {
        if v.len() == K {
            Ok(FixedLengthVec(v))
        } else {
            Err(v.len())
        }
    }

    /// The elements.
    pub fn as_slice(&self) -> (res: &[T])
        ensures
            res@ == self.spec_items(),
    {
        self.0.as_slice()
    }
}

} // verus!
