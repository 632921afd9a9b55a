//! The mutably-borrowing values-only iterator: yields an exclusive reference
//! to each occupied position's value and discards its key.

use vstd::prelude::*;

verus! {

use crate::iter::iter_mut::IterMut;
use crate::indexer::occupied_from;
use crate::Slab;

/// A mutable iterator over the values of a slab, ascending by position. It
/// yields the same references, in the same order, as the pair-yielding
/// mutable iterator would.
pub struct ValuesMut<'a, T> {
    pub inner: IterMut<'a, T>,
}

impl<'a, T> ValuesMut<'a, T> {
    /// The underlying synchronized traversal is intact.
    pub open spec fn wf(&self) -> bool {
        self.inner.wf()
    }

    /// The positions whose values are still to be yielded, ascending.
    pub open spec fn remaining(&self) -> Seq<int> {
        self.inner.remaining()
    }

    /// The store the values live in, as it stands now.
    pub open spec fn slots(&self) -> Seq<Option<T>> {
        self.inner.entries@
    }

    /// A fresh mutable iterator over all values of `slab`. The slab the
    /// caller gets back once the iterator is dropped has the same occupancy,
    /// and holds at each position whatever was last written through the
    /// reference yielded for it (the original value where none was).
    pub fn new(slab: &'a mut Slab<T>) -> (r: Self)
        requires
            old(slab).wf(),
        ensures
            r.wf(),
            r.slots() == old(slab).slots(),
            r.remaining() == occupied_from(old(slab).occ(), 0),
            final(slab).index == old(slab).index,
            final(slab).entries == *final(r.inner.entries),
    {
        ValuesMut { inner: IterMut::new(slab) }
    }

    /// Yields an exclusive reference to the value of the least
    /// not-yet-visited occupied position; nothing once every occupied
    /// position has been yielded, and nothing on every later call.
    pub fn next(&mut self) -> (r: Option<&mut T>)
        requires
            old(self).wf(),
        ensures
            final(self).wf(),
            *final(final(self).inner.entries) == *final(old(self).inner.entries),
            match r {
                Some(v) => {
                    &&& old(self).remaining().len() > 0
                    &&& old(self).slots()[old(self).remaining()[0]] == Some(*v)
                    &&& final(self).remaining() == old(self).remaining().drop_first()
                    &&& final(self).slots() == old(self).slots().update(
                        old(self).remaining()[0],
                        Some(*final(v)),
                    )
                },
                None => {
                    &&& old(self).remaining().len() == 0
                    &&& final(self).remaining().len() == 0
                    &&& final(self).slots() == old(self).slots()
                },
            },
    {
        match self.inner.next() {
            Some(item) => Some(item.1),
            None => None,
        }
    }
}

} // verus!
