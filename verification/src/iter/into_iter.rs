//! The consuming iterator: dismantles the slab, yielding each occupied
//! position's key together with the owned value stored there.

use vstd::prelude::*;

verus! {

use crate::indexer::{lemma_all_vacant, lemma_skip_vacant, occupied_from, Indexer};
use crate::{Key, Slab};

/// An owning iterator over the items of a slab, ascending by position. It
/// consumes the slab, so no access to the container remains once it is
/// built; values are moved out one by one as they are yielded.
pub struct IntoIter<T> {
    pub occupancy: Vec<bool>,
    pub entries: Vec<Option<T>>,
    pub pos: usize,
}

impl<T> IntoIter<T> {
    /// The cursor and the store agree on every position not yet passed:
    /// same length, and a position at or past the cursor is marked occupied
    /// exactly when its slot still holds a value.
    pub open spec fn wf(&self) -> bool {
        &&& self.pos <= self.occupancy@.len()
        &&& self.entries@.len() == self.occupancy@.len()
        &&& forall|i: int|
            self.pos <= i < self.entries@.len() ==> (self.occupancy@[i] <==> (
            #[trigger] self.entries@[i]) is Some)
    }

    /// The positions still to be yielded, in ascending order.
    pub open spec fn remaining(&self) -> Seq<int> {
        occupied_from(self.occupancy@, self.pos as int)
    }

    /// A fresh owning iterator over all occupied positions of `slab`; the
    /// slab itself is consumed.
    pub fn new(slab: Slab<T>) -> (r: Self)
        requires
            slab.wf(),
        ensures
            r.wf(),
            r.entries@ == slab.slots(),
            r.occupancy@ == slab.occ(),
            r.pos == 0usize,
            r.remaining() == occupied_from(slab.occ(), 0),
    {
        let Slab { entries, index } = slab;
        let Indexer { occupancy, free: _ } = index;
        IntoIter { occupancy, entries, pos: 0 }
    }

    /// Yields the least not-yet-visited occupied position, its key paired
    /// with the value moved out of that slot; nothing once every occupied
    /// position has been yielded, and nothing on every later call.
    pub fn next(&mut self) -> (r: Option<(Key, T)>)
        requires
            old(self).wf(),
        ensures
            final(self).wf(),
            final(self).occupancy@ == old(self).occupancy@,
            match r {
                Some(item) => {
                    &&& old(self).remaining().len() > 0
                    &&& item.0.0 as int == old(self).remaining()[0]
                    &&& item.0.0 < old(self).entries@.len()
                    &&& old(self).entries@[item.0.0 as int] == Some(item.1)
                    &&& final(self).remaining() == old(self).remaining().drop_first()
                    &&& final(self).entries@ == old(self).entries@.update(item.0.0 as int, None)
                    &&& final(self).pos == item.0.0 + 1
                },
                None => {
                    &&& old(self).remaining().len() == 0
                    &&& final(self).remaining().len() == 0
                    &&& final(self).entries@ == old(self).entries@
                },
            },
    {
        while self.pos < self.occupancy.len()
            invariant
                old(self).pos <= self.pos <= self.occupancy@.len(),
                self.occupancy@ == old(self).occupancy@,
                self.entries@ == old(self).entries@,
                self.entries@.len() == self.occupancy@.len(),
                forall|q: int| old(self).pos <= q < self.pos ==> !self.occupancy@[q],
                forall|i: int|
                    self.pos <= i < self.entries@.len() ==> (self.occupancy@[i] <==> (
                    #[trigger] self.entries@[i]) is Some),
            decreases self.occupancy@.len() - self.pos,
        {
            if self.occupancy[self.pos] {
                let p = self.pos;
                self.pos = p + 1;
                proof {
                    lemma_skip_vacant(self.occupancy@, old(self).pos as int, p as int);
                }
                let slot = &mut self.entries[p];
                let v = slot.take().unwrap();
                return Some((Key(p), v));
            }
            self.pos = self.pos + 1;
        }
        proof {
            lemma_all_vacant(self.occupancy@, old(self).pos as int);
            lemma_all_vacant(self.occupancy@, self.pos as int);
        }
        None
    }
}

} // verus!
