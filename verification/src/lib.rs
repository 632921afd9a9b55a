//! A slab: a collection that stores values at stable integer positions,
//! reuses freed positions, and iterates efficiently over only the occupied
//! positions. An occupancy index records which slots are live; the backing
//! store holds one optional value per slot; the two never disagree, and every
//! iterator walks them in lockstep.

use vstd::prelude::*;

pub mod indexer;
pub mod iter;
pub mod laws;

pub use crate::iter::{IntoIter, IntoValues, Iter, IterMut, ValuesMut};

verus! {

use crate::indexer::Indexer;

/// A key handed out by [`Slab::insert`]: a bare position in the slab. Keys
/// carry no generation tag, so after the position is freed and reused the
/// same key refers to the new value.
#[derive(Clone, Copy, Debug, PartialEq, Eq, Structural)]
pub struct Key(pub usize);

impl From<usize> for Key {
    /// The key for position `pos`: a bare integer conversion, no validation.
    fn from(pos: usize) -> (k: Key)
        ensures
            k.0 == pos,
    {
        Key(pos)
    }
}

impl vstd::std_specs::convert::FromSpecImpl<usize> for Key {
    open spec fn obeys_from_spec() -> bool {
        true
    }

    open spec fn from_spec(pos: usize) -> Key {
        Key(pos)
    }
}

impl From<Key> for usize {
    /// The position a key stands for: a bare integer conversion.
    fn from(key: Key) -> (pos: usize)
        ensures
            pos == key.0,
    {
        key.0
    }
}

impl vstd::std_specs::convert::FromSpecImpl<Key> for usize {
    open spec fn obeys_from_spec() -> bool {
        true
    }

    open spec fn from_spec(key: Key) -> usize {
        key.0
    }
}

/// What a slab looks like after inserting `value`: the most recently freed
/// position is reused when one exists, else the store grows by one slot.
pub open spec fn model_insert<T>(slots: Seq<Option<T>>, free: Seq<usize>, value: T) -> (
    Seq<Option<T>>,
    Seq<usize>,
    usize,
) {
    if free.len() > 0 {
        (slots.update(free.last() as int, Some(value)), free.drop_last(), free.last())
    } else {
        (slots.push(Some(value)), free, slots.len() as usize)
    }
}

/// What a slab looks like after removing the value at `pos`: the slot is
/// vacated and `pos` becomes the first candidate for reuse.
pub open spec fn model_remove<T>(slots: Seq<Option<T>>, free: Seq<usize>, pos: usize) -> (
    Seq<Option<T>>,
    Seq<usize>,
) {
    (slots.update(pos as int, None), free.push(pos))
}

/// Slot-based storage with stable keys and position reuse.
pub struct Slab<T> {
    pub entries: Vec<Option<T>>,
    pub index: Indexer,
}

impl<T> Slab<T> {
    /// The backing store: one optional value per position.
    pub open spec fn slots(&self) -> Seq<Option<T>> {
        self.entries@
    }

    /// The occupancy record, position by position.
    pub open spec fn occ(&self) -> Seq<bool> {
        self.index.occ()
    }

    /// The vacant positions eligible for reuse.
    pub open spec fn free_list(&self) -> Seq<usize> {
        self.index.free_list()
    }

    /// Well-formedness: index and store cover the same positions, and a
    /// position is marked occupied exactly when its slot holds a value.
    pub open spec fn wf(&self) -> bool {
        &&& self.index.wf()
        &&& self.entries@.len() == self.index.occ().len()
        &&& forall|i: int|
            0 <= i < self.entries@.len() ==> (self.index.occ()[i] <==> (
            #[trigger] self.entries@[i]) is Some)
    }

    /// An empty slab.
    pub fn new() -> (s: Self)
        ensures
            s.wf(),
            s.slots() == Seq::<Option<T>>::empty(),
            s.free_list() == Seq::<usize>::empty(),
    {
        Slab { entries: Vec::new(), index: Indexer::new() }
    }

    /// Stores `value` and returns its key. The position is the most recently
    /// freed one when any is free, else a brand-new slot at the end.
    pub fn insert(&mut self, value: T) -> (k: Key)
        requires
            old(self).wf(),
            old(self).slots().len() < usize::MAX,
        ensures
            final(self).wf(),
            (final(self).slots(), final(self).free_list(), k.0) == model_insert(
                old(self).slots(),
                old(self).free_list(),
                value,
            ),
            k.0 < final(self).slots().len(),
            final(self).slots()[k.0 as int] == Some(value),
            forall|i: int|
                0 <= i < old(self).slots().len() && i != k.0 ==> final(self).slots()[i] == old(
                    self,
                ).slots()[i],
    {
        let pos = self.index.allocate();
        if pos == self.entries.len() {
            self.entries.push(Some(value));
        } else {
            self.entries[pos] = Some(value);
        }
        Key(pos)
    }

    /// Takes the value stored under `key` out of the slab, vacating its
    /// position for reuse. Returns the value when the position is occupied;
    /// returns nothing, and leaves the slab unchanged, when it is not.
    pub fn remove(&mut self, key: Key) -> (r: Option<T>)
        requires
            old(self).wf(),
        ensures
            final(self).wf(),
            if key.0 < old(self).slots().len() && old(self).slots()[key.0 as int] is Some {
                &&& r == old(self).slots()[key.0 as int]
                &&& (final(self).slots(), final(self).free_list()) == model_remove(
                    old(self).slots(),
                    old(self).free_list(),
                    key.0,
                )
            } else {
                &&& r is None
                &&& *final(self) == *old(self)
            },
    {
        let pos = key.0;
        if self.index.is_occupied(pos) {
            self.index.mark_vacant(pos);
            let slot = &mut self.entries[pos];
            slot.take()
        } else {
            None
        }
    }

    /// The value stored under `key`, when its position is occupied.
    pub fn get(&self, key: Key) -> (r: Option<&T>)
        requires
            self.wf(),
        ensures
            match r {
                Some(v) => key.0 < self.slots().len() && self.slots()[key.0 as int] == Some(*v),
                None => key.0 >= self.slots().len() || self.slots()[key.0 as int] is None,
            },
    {
        if key.0 < self.entries.len() {
            self.entries[key.0].as_ref()
        } else {
            None
        }
    }

    /// A borrowing iterator over all items, ascending by position.
    pub fn iter(&self) -> (r: Iter<T>)
        requires
            self.wf(),
        ensures
            r.wf(),
            r.entries@ == self.slots(),
            r.remaining() == crate::indexer::occupied_from(self.occ(), 0),
    {
        Iter::new(self)
    }

    /// A mutably-borrowing iterator over all items, ascending by position.
    pub fn iter_mut(&mut self) -> (r: IterMut<T>)
        requires
            old(self).wf(),
        ensures
            r.wf(),
            r.entries@ == old(self).slots(),
            r.remaining() == crate::indexer::occupied_from(old(self).occ(), 0),
            final(self).index == old(self).index,
            final(self).entries == *final(r.entries),
    {
        IterMut::new(self)
    }

    /// An owning iterator over all items, ascending by position; the slab is
    /// consumed and no access to it remains.
    pub fn into_iter(self) -> (r: IntoIter<T>)
        requires
            self.wf(),
        ensures
            r.wf(),
            r.entries@ == self.slots(),
            r.remaining() == crate::indexer::occupied_from(self.occ(), 0),
    {
        IntoIter::new(self)
    }

    /// An owning iterator over all values, ascending by position; the slab is
    /// consumed and no access to it remains.
    pub fn into_values(self) -> (r: IntoValues<T>)
        requires
            self.wf(),
        ensures
            r.wf(),
            r.slots() == self.slots(),
            r.remaining() == crate::indexer::occupied_from(self.occ(), 0),
    {
        IntoValues::new(self)
    }

    /// A mutably-borrowing iterator over all values, ascending by position.
    pub fn values_mut(&mut self) -> (r: ValuesMut<T>)
        requires
            old(self).wf(),
        ensures
            r.wf(),
            r.slots() == old(self).slots(),
            r.remaining() == crate::indexer::occupied_from(old(self).occ(), 0),
            final(self).index == old(self).index,
            final(self).entries == *final(r.inner.entries),
    {
        ValuesMut::new(self)
    }
}

} // verus!
