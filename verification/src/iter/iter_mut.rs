//! The mutably-borrowing iterator: yields each occupied position's key
//! together with an exclusive reference to its value.

use vstd::prelude::*;

verus! {

use crate::indexer::{occupied_from, Occupied};
use crate::{Key, Slab};

/// A mutable iterator over the items of a slab, ascending by position. It
/// holds the slab's backing store exclusively for its lifetime, so the
/// occupancy it walks cannot change under it; writing through a yielded
/// reference replaces a value but never vacates its slot.
pub struct IterMut<'a, T> {
    pub occupied: Occupied<'a>,
    pub entries: &'a mut Vec<Option<T>>,
}

impl<'a, T> IterMut<'a, T> {
    /// The cursor and the store it walks agree: same length, and a position
    /// is marked occupied exactly when its slot holds a value.
    pub open spec fn wf(&self) -> bool {
        &&& self.occupied.wf()
        &&& self.entries@.len() == self.occupied.occ().len()
        &&& forall|i: int|
            0 <= i < self.entries@.len() ==> (self.occupied.occ()[i] <==> (
            #[trigger] self.entries@[i]) is Some)
    }

    /// The positions still to be yielded, in ascending order.
    pub open spec fn remaining(&self) -> Seq<int> {
        self.occupied.remaining()
    }

    /// A fresh iterator over all occupied positions of `slab`. The slab the
    /// caller gets back once the iterator is dropped has the same occupancy,
    /// and holds at each position whatever was last written through the
    /// reference yielded for it (the original value where none was).
    pub fn new(slab: &'a mut Slab<T>) -> (r: Self)
        requires
            old(slab).wf(),
        ensures
            r.wf(),
            r.entries@ == old(slab).slots(),
            r.occupied.occ() == old(slab).occ(),
            r.remaining() == occupied_from(old(slab).occ(), 0),
            final(slab).index == old(slab).index,
            final(slab).entries == *final(r.entries),
    {
        let occupied = slab.index.occupied();
        let entries = &mut slab.entries;
        IterMut { occupied, entries }
    }

    /// Yields the least not-yet-visited occupied position, its key paired
    /// with an exclusive reference to the value stored there; nothing once
    /// every occupied position has been yielded, and nothing on every later
    /// call.
    pub fn next(&mut self) -> (r: Option<(Key, &mut T)>)
        requires
            old(self).wf(),
        ensures
            final(self).wf(),
            final(self).occupied.occ() == old(self).occupied.occ(),
            *final(final(self).entries) == *final(old(self).entries),
            match r {
                Some(item) => {
                    &&& old(self).remaining().len() > 0
                    &&& item.0.0 as int == old(self).remaining()[0]
                    &&& item.0.0 < old(self).entries@.len()
                    &&& old(self).entries@[item.0.0 as int] == Some(*item.1)
                    &&& final(self).remaining() == old(self).remaining().drop_first()
                    &&& final(self).entries@ == old(self).entries@.update(
                        item.0.0 as int,
                        Some(*final(item.1)),
                    )
                },
                None => {
                    &&& old(self).remaining().len() == 0
                    &&& final(self).remaining().len() == 0
                    &&& final(self).entries@ == old(self).entries@
                },
            },
    {
        match self.occupied.next() {
            Some(p) => {
                let slot = &mut self.entries[p];
                let v = slot.as_mut().unwrap();
                Some((Key(p), v))
            },
            None => None,
        }
    }
}

} // verus!
