//! The borrowing iterator: yields each occupied position's key together with
//! a read-only reference to its value.

use vstd::prelude::*;

verus! {

use crate::indexer::{occupied_from, Occupied};
use crate::{Key, Slab};

/// A borrowing iterator over the items of a slab, ascending by position.
/// While it is alive the slab is borrowed read-only, so the occupancy it
/// walks cannot change under it.
pub struct Iter<'a, T> {
    pub occupied: Occupied<'a>,
    pub entries: &'a Vec<Option<T>>,
}

impl<'a, T> Iter<'a, T> {
    /// The cursor and the store it walks agree: same length, and a position
    /// is marked occupied exactly when its slot holds a value.
    pub open spec fn wf(&self) -> bool {
        &&& self.occupied.wf()
        &&& self.entries@.len() == self.occupied.occ().len()
        &&& forall|i: int|
            0 <= i < self.entries@.len() ==> (self.occupied.occ()[i] <==> (
            #[trigger] self.entries@[i]) is Some)
    }

    /// The positions still to be yielded, in ascending order.
    pub open spec fn remaining(&self) -> Seq<int> {
        self.occupied.remaining()
    }

    /// A fresh iterator over all occupied positions of `slab`.
    pub fn new(slab: &'a Slab<T>) -> (r: Self)
        requires
            slab.wf(),
        ensures
            r.wf(),
            r.entries@ == slab.slots(),
            r.occupied.occ() == slab.occ(),
            r.remaining() == occupied_from(slab.occ(), 0),
    {
        Iter { occupied: slab.index.occupied(), entries: &slab.entries }
    }

    /// Yields the least not-yet-visited occupied position, its key paired
    /// with a reference to the value stored there; nothing once every
    /// occupied position has been yielded, and nothing on every later call.
    pub fn next(&mut self) -> (r: Option<(Key, &'a T)>)
        requires
            old(self).wf(),
        ensures
            final(self).wf(),
            final(self).entries == old(self).entries,
            final(self).occupied.occ() == old(self).occupied.occ(),
            match r {
                Some(item) => {
                    &&& old(self).remaining().len() > 0
                    &&& item.0.0 as int == old(self).remaining()[0]
                    &&& item.0.0 < old(self).entries@.len()
                    &&& old(self).entries@[item.0.0 as int] == Some(*item.1)
                    &&& final(self).remaining() == old(self).remaining().drop_first()
                },
                None => {
                    &&& old(self).remaining().len() == 0
                    &&& final(self).remaining().len() == 0
                },
            },
    {
        match self.occupied.next() {
            Some(p) => {
                let v = self.entries[p].as_ref().unwrap();
                Some((Key(p), v))
            },
            None => None,
        }
    }
}

} // verus!
