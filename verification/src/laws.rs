//! The laws the slab obeys, stated over its mathematical model and proved
//! once and for all: what a full traversal yields, what a round trip of
//! inserts and removals leaves behind, and how freed positions are reused.

use vstd::prelude::*;

verus! {

use crate::indexer::{lemma_occupied_from, occupied_from};
use crate::{model_insert, model_remove};

/// The occupancy record a backing store induces: a position is occupied
/// exactly when its slot holds a value.
pub open spec fn occ_of<T>(slots: Seq<Option<T>>) -> Seq<bool> {
    Seq::new(slots.len(), |i: int| slots[i] is Some)
}

/// The key/value pairs a full traversal of `slots` yields, in order: one pair
/// per occupied position, ascending.
pub open spec fn yielded_pairs<T>(slots: Seq<Option<T>>) -> Seq<(int, T)> {
    occupied_from(occ_of(slots), 0).map(|j: int, p: int| (p, slots[p].unwrap()))
}

/// A full traversal yields exactly one pair per occupied position, in
/// strictly ascending position order, pairing each position with the value
/// stored there: no duplicates, no omissions, nothing from a vacant slot.
pub proof fn lemma_iteration_exact<T>(slots: Seq<Option<T>>)
    ensures
        forall|p: int, v: T| #[trigger]
            yielded_pairs(slots).contains((p, v)) <==> 0 <= p < slots.len() && slots[p] == Some(v),
        forall|k: int, l: int|
            0 <= k < l < yielded_pairs(slots).len() ==> yielded_pairs(slots)[k].0 < yielded_pairs(
                slots,
            )[l].0,
{
    let occ = occ_of(slots);
    let positions = occupied_from(occ, 0);
    let pairs = yielded_pairs(slots);
    lemma_occupied_from(occ, 0);
    assert forall|p: int, v: T| #[trigger]
        pairs.contains((p, v)) implies 0 <= p < slots.len() && slots[p] == Some(v) by {
        let j = choose|j: int| 0 <= j < pairs.len() && pairs[j] == (p, v);
        assert(positions[j] == p);
        assert(occ[p]);
    }
    assert forall|p: int, v: T|
        0 <= p < slots.len() && slots[p] == Some(v) implies #[trigger] pairs.contains(
        (p, v),
    ) by {
        assert(occ[p]);
        assert(positions.contains(p));
        let j = choose|j: int| 0 <= j < positions.len() && positions[j] == p;
        assert(pairs[j] == (p, v));
    }
}

/// The backing store and free list after inserting each value of `vs`, in
/// order, into an empty slab.
pub open spec fn after_inserts<T>(vs: Seq<T>) -> (Seq<Option<T>>, Seq<usize>)
    decreases vs.len(),
{
    if vs.len() == 0 {
        (Seq::empty(), Seq::empty())
    } else {
        let prev = after_inserts(vs.drop_last());
        let next = model_insert(prev.0, prev.1, vs.last());
        (next.0, next.1)
    }
}

/// Inserting `vs` into an empty slab stores each value at its own index:
/// value `i` at position `i`, with nothing free afterwards.
pub proof fn lemma_after_inserts<T>(vs: Seq<T>)
    ensures
        after_inserts(vs).0 == Seq::new(vs.len() as nat, |i: int| Some(vs[i])),
        after_inserts(vs).1 == Seq::<usize>::empty(),
    decreases vs.len(),
{
    if vs.len() > 0 {
        lemma_after_inserts(vs.drop_last());
        assert(after_inserts(vs).0 =~= Seq::new(vs.len() as nat, |i: int| Some(vs[i])));
    } else {
        assert(after_inserts(vs).0 =~= Seq::new(vs.len() as nat, |i: int| Some(vs[i])));
    }
}

/// Whether the position list `ps` holds position `p`.
pub open spec fn has_position(ps: Seq<usize>, p: int) -> bool {
    exists|i: int| 0 <= i < ps.len() && ps[i] as int == p
}

/// The backing store and free list after removing the positions of `ps`, in
/// order.
pub open spec fn after_removes<T>(slots: Seq<Option<T>>, free: Seq<usize>, ps: Seq<usize>) -> (
    Seq<Option<T>>,
    Seq<usize>,
)
    decreases ps.len(),
{
    if ps.len() == 0 {
        (slots, free)
    } else {
        let prev = after_removes(slots, free, ps.drop_last());
        model_remove(prev.0, prev.1, ps.last())
    }
}

/// Removing the positions of `ps` vacates exactly those slots and leaves
/// every other slot as it was.
pub proof fn lemma_after_removes<T>(slots: Seq<Option<T>>, free: Seq<usize>, ps: Seq<usize>)
    requires
        forall|i: int| 0 <= i < ps.len() ==> (#[trigger] ps[i] as int) < slots.len(),
    ensures
        after_removes(slots, free, ps).0.len() == slots.len(),
        forall|p: int|
            0 <= p < slots.len() ==> after_removes(slots, free, ps).0[p] == (if has_position(ps, p) {
                None
            } else {
                slots[p]
            }),
    decreases ps.len(),
{
    if ps.len() > 0 {
        lemma_after_removes(slots, free, ps.drop_last());
        assert forall|p: int| 0 <= p < slots.len() implies after_removes(slots, free, ps).0[p]
            == (if has_position(ps, p) {
            None
        } else {
            slots[p]
        }) by {
            if has_position(ps, p) {
                let i = choose|i: int| 0 <= i < ps.len() && ps[i] as int == p;
                if i < ps.len() - 1 {
                    assert(has_position(ps.drop_last(), p)) by {
                        assert(ps.drop_last()[i] as int == p);
                    }
                }
            } else {
                assert(!has_position(ps.drop_last(), p)) by {
                    if has_position(ps.drop_last(), p) {
                        let i = choose|i: int|
                            0 <= i < ps.drop_last().len() && ps.drop_last()[i] as int == p;
                        assert(ps[i] as int == p);
                    }
                }
            }
        }
    }
}

/// Round trip: insert the values of `vs` into an empty slab, then remove the
/// positions of `rs`; a full traversal now yields exactly the surviving
/// values under their original keys, in original position order.
pub proof fn lemma_round_trip<T>(vs: Seq<T>, rs: Seq<usize>)
    requires
        forall|i: int| 0 <= i < rs.len() ==> (#[trigger] rs[i] as int) < vs.len(),
    ensures
        ({
            let inserted = after_inserts(vs);
            let state = after_removes(inserted.0, inserted.1, rs);
            let pairs = yielded_pairs(state.0);
            &&& forall|p: int, v: T| #[trigger]
                pairs.contains((p, v)) <==> 0 <= p < vs.len() && !has_position(rs, p) && v
                    == vs[p]
            &&& forall|k: int, l: int| 0 <= k < l < pairs.len() ==> pairs[k].0 < pairs[l].0
        }),
{
    let inserted = after_inserts(vs);
    lemma_after_inserts(vs);
    lemma_after_removes(inserted.0, inserted.1, rs);
    lemma_iteration_exact(after_removes(inserted.0, inserted.1, rs).0);
}

/// Silent key reuse: removing the value at an occupied position and then
/// inserting a new one reuses exactly that position, so the old key, an
/// unchanged bare integer, now refers to the new value. This is the
/// documented behaviour of generation-free keys, not an accident.
pub proof fn lemma_key_reuse<T>(slots: Seq<Option<T>>, free: Seq<usize>, pos: usize, value: T)
    requires
        pos < slots.len(),
    ensures
        ({
            let removed = model_remove(slots, free, pos);
            let inserted = model_insert(removed.0, removed.1, value);
            &&& inserted.2 == pos
            &&& inserted.0[pos as int] == Some(value)
            &&& inserted.0.len() == slots.len()
        }),
{
}

} // verus!
