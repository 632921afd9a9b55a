//! The consuming values-only iterator: dismantles the slab, yielding each
//! occupied position's owned value and discarding its key.

use vstd::prelude::*;

verus! {

use crate::iter::into_iter::IntoIter;
use crate::indexer::occupied_from;
use crate::Slab;

/// An owning iterator over the values of a slab, ascending by position. It
/// consumes the slab and yields the same values, in the same order, as the
/// pair-yielding owning iterator would.
pub struct IntoValues<T> {
    pub inner: IntoIter<T>,
}

impl<T> IntoValues<T> {
    /// The underlying synchronized traversal is intact.
    pub open spec fn wf(&self) -> bool {
        self.inner.wf()
    }

    /// The positions whose values are still to be yielded, ascending.
    pub open spec fn remaining(&self) -> Seq<int> {
        self.inner.remaining()
    }

    /// The store the values are drawn from.
    pub open spec fn slots(&self) -> Seq<Option<T>> {
        self.inner.entries@
    }

    /// A fresh owning iterator over all values of `slab`; the slab itself is
    /// consumed.
    pub fn new(slab: Slab<T>) -> (r: Self)
        requires
            slab.wf(),
        ensures
            r.wf(),
            r.slots() == slab.slots(),
            r.remaining() == occupied_from(slab.occ(), 0),
    {
        IntoValues { inner: IntoIter::new(slab) }
    }

    /// Yields the value of the least not-yet-visited occupied position;
    /// nothing once every occupied position has been yielded, and nothing on
    /// every later call.
    pub fn next(&mut self) -> (r: Option<T>)
        requires
            old(self).wf(),
        ensures
            final(self).wf(),
            match r {
                Some(v) => {
                    &&& old(self).remaining().len() > 0
                    &&& old(self).slots()[old(self).remaining()[0]] == Some(v)
                    &&& final(self).remaining() == old(self).remaining().drop_first()
                    &&& final(self).slots() == old(self).slots().update(
                        old(self).remaining()[0],
                        None,
                    )
                },
                None => {
                    &&& old(self).remaining().len() == 0
                    &&& final(self).remaining().len() == 0
                },
            },
    {
        match self.inner.next() {
            Some(item) => Some(item.1),
            None => None,
        }
    }
}

} // verus!
