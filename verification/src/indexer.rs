//! The occupancy index: the single source of truth for which positions of the
//! backing store hold live values, and the allocator of positions for new
//! inserts. Vacant positions are recycled in LIFO order through a free list.

use vstd::prelude::*;

verus! {

/// The ascending sequence of occupied positions of `occ`, starting at `from`.
pub open spec fn occupied_from(occ: Seq<bool>, from: int) -> Seq<int>
    decreases occ.len() - from,
    when 0 <= from <= occ.len()
{
    if from >= occ.len() {
        Seq::empty()
    } else if occ[from] {
        seq![from] + occupied_from(occ, from + 1)
    } else {
        occupied_from(occ, from + 1)
    }
}

/// The positions listed by `occupied_from` are exactly the occupied positions
/// at or past `from`, and they are listed in strictly ascending order (so no
/// position is listed twice, and none is left out).
pub proof fn lemma_occupied_from(occ: Seq<bool>, from: int)
    requires
        0 <= from <= occ.len(),
    ensures
        forall|k: int|
            0 <= k < occupied_from(occ, from).len() ==> from <= #[trigger] occupied_from(occ, from)[k]
                < occ.len() && occ[occupied_from(occ, from)[k]],
        forall|k: int, l: int|
            0 <= k < l < occupied_from(occ, from).len() ==> occupied_from(occ, from)[k]
                < occupied_from(occ, from)[l],
        forall|p: int| from <= p < occ.len() && occ[p] ==> occupied_from(occ, from).contains(p),
    decreases occ.len() - from,
{
    if from < occ.len() {
        lemma_occupied_from(occ, from + 1);
        let rest = occupied_from(occ, from + 1);
        if occ[from] {
            let whole = occupied_from(occ, from);
            assert forall|p: int| from <= p < occ.len() && occ[p] implies whole.contains(p) by {
                if p == from {
                    assert(whole[0] == p);
                } else {
                    let k = choose|k: int| 0 <= k < rest.len() && rest[k] == p;
                    assert(whole[k + 1] == p);
                }
            }
        } else {
            let whole = occupied_from(occ, from);
            assert forall|p: int| from <= p < occ.len() && occ[p] implies whole.contains(p) by {
                let k = choose|k: int| 0 <= k < rest.len() && rest[k] == p;
                assert(whole[k] == p);
            }
        }
    }
}

/// Skipping a prefix of vacant positions does not change the sequence of
/// occupied positions: if everything in `[from, p)` is vacant and `p` is
/// occupied, the sequence starting at `from` begins with `p`.
pub proof fn lemma_skip_vacant(occ: Seq<bool>, from: int, p: int)
    requires
        0 <= from <= p < occ.len(),
        occ[p],
        forall|q: int| from <= q < p ==> !occ[q],
    ensures
        occupied_from(occ, from) == seq![p] + occupied_from(occ, p + 1),
    decreases p - from,
{
    if from < p {
        lemma_skip_vacant(occ, from + 1, p);
    }
}

/// If everything at or past `from` is vacant, no position remains.
pub proof fn lemma_all_vacant(occ: Seq<bool>, from: int)
    requires
        0 <= from <= occ.len(),
        forall|q: int| from <= q < occ.len() ==> !occ[q],
    ensures
        occupied_from(occ, from) == Seq::<int>::empty(),
    decreases occ.len() - from,
{
    if from < occ.len() {
        lemma_all_vacant(occ, from + 1);
    }
}

/// Tracks which positions of a backing store of matching size are occupied,
/// and recycles vacant positions for future inserts. The free list holds
/// exactly the vacant positions, each once; allocation pops the most recently
/// freed position first (LIFO reuse).
pub struct Indexer {
    pub occupancy: Vec<bool>,
    pub free: Vec<usize>,
}

impl Indexer {
    /// Which positions are occupied: the mathematical model of the index.
    pub open spec fn occ(&self) -> Seq<bool> {
        self.occupancy@
    }

    /// The vacant positions eligible for reuse, oldest first.
    pub open spec fn free_list(&self) -> Seq<usize> {
        self.free@
    }

    /// Well-formedness: the free list holds exactly the vacant positions,
    /// each exactly once.
    pub open spec fn wf(&self) -> bool {
        &&& forall|i: int|
            0 <= i < self.free@.len() ==> (#[trigger] self.free@[i]) < self.occupancy@.len()
                && !self.occupancy@[self.free@[i] as int]
        &&& forall|i: int, j: int| 0 <= i < j < self.free@.len() ==> self.free@[i] != self.free@[j]
        &&& forall|p: usize|
            p < self.occupancy@.len() && !self.occupancy@[p as int] ==> self.free@.contains(p)
    }

    /// An empty index: no positions at all.
    pub fn new() -> (r: Self)
        ensures
            r.wf(),
            r.occ() == Seq::<bool>::empty(),
            r.free_list() == Seq::<usize>::empty(),
    {
        Indexer { occupancy: Vec::new(), free: Vec::new() }
    }

    /// How many positions the index covers, occupied or not.
    pub fn len(&self) -> (r: usize)
        ensures
            r == self.occ().len(),
    {
        self.occupancy.len()
    }

    /// Whether `pos` currently holds a live value.
    pub fn is_occupied(&self, pos: usize) -> (r: bool)
        ensures
            r == (pos < self.occ().len() && self.occ()[pos as int]),
    {
        pos < self.occupancy.len() && self.occupancy[pos]
    }

    /// Picks a vacant position, marks it occupied, and returns it: the most
    /// recently freed position when one exists, else a brand-new position one
    /// past the old end.
    pub fn allocate(&mut self) -> (pos: usize)
        requires
            old(self).wf(),
            old(self).occ().len() < usize::MAX,
        ensures
            final(self).wf(),
            pos < final(self).occ().len(),
            final(self).occ()[pos as int],
            if old(self).free_list().len() > 0 {
                &&& pos == old(self).free_list().last()
                &&& pos < old(self).occ().len()
                &&& !old(self).occ()[pos as int]
                &&& final(self).occ() == old(self).occ().update(pos as int, true)
                &&& final(self).free_list() == old(self).free_list().drop_last()
            } else {
                &&& pos == old(self).occ().len()
                &&& final(self).occ() == old(self).occ().push(true)
                &&& final(self).free_list() == old(self).free_list()
            },
    {
        match self.free.pop() {
            Some(pos) => {
                self.occupancy[pos] = true;
                proof {
                    let oldf = old(self).free_list();
                    assert forall|p: usize|
                        p < self.occupancy@.len() && !self.occupancy@[p as int] implies self
                        .free@.contains(p) by {
                        assert(oldf.contains(p));
                        let i = choose|i: int| 0 <= i < oldf.len() && oldf[i] == p;
                        assert(i < oldf.len() - 1);
                        assert(self.free@[i] == p);
                    }
                }
                pos
            },
            None => {
                let pos = self.occupancy.len();
                self.occupancy.push(true);
                pos
            },
        }
    }

    /// Records that `pos`, a vacant position, now holds a live value, and
    /// withdraws it from the candidates for reuse. [`Indexer::allocate`] does
    /// both steps at once in constant time; this operation stands alone for
    /// callers that pick the position themselves, and pays a scan of the
    /// free list for it.
    pub fn mark_occupied(&mut self, pos: usize)
        requires
            old(self).wf(),
            pos < old(self).occ().len(),
            !old(self).occ()[pos as int],
        ensures
            final(self).wf(),
            final(self).occ() == old(self).occ().update(pos as int, true),
            final(self).free_list().len() == old(self).free_list().len() - 1,
            forall|q: usize|
                #[trigger] final(self).free_list().contains(q) <==> old(
                    self,
                ).free_list().contains(q) && q != pos,
    {
        proof {
            assert(self.free@.contains(pos));
        }
        let n = self.free.len();
        let mut i: usize = 0;
        while i < n && self.free[i] != pos
            invariant
                n == self.free@.len(),
                self.free@ == old(self).free@,
                self.occupancy@ == old(self).occupancy@,
                i <= n,
                forall|j: int| 0 <= j < i ==> self.free@[j] != pos,
                self.free@.contains(pos),
            decreases n - i,
        {
            i = i + 1;
        }
        proof {
            assert(i < n) by {
                if i == n {
                    let j0 = choose|j: int| 0 <= j < self.free@.len() && self.free@[j] == pos;
                    assert(self.free@[j0] != pos);
                }
            }
        }
        self.free.swap_remove(i);
        self.occupancy[pos] = true;
        proof {
            let oldf = old(self).free_list();
            let newf = self.free@;
            assert(newf =~= oldf.update(i as int, oldf.last()).drop_last());
            assert forall|q: usize| #[trigger]
                newf.contains(q) implies oldf.contains(q) && q != pos by {
                let j = choose|j: int| 0 <= j < newf.len() && newf[j] == q;
                if j == i {
                    assert(oldf[oldf.len() - 1] == q);
                } else {
                    assert(oldf[j] == q);
                }
            }
            assert forall|q: usize| oldf.contains(q) && q != pos implies #[trigger] newf.contains(
                q,
            ) by {
                let j = choose|j: int| 0 <= j < oldf.len() && oldf[j] == q;
                if j == oldf.len() - 1 {
                    assert(newf[i as int] == q);
                } else {
                    assert(newf[j] == q);
                }
            }
            assert forall|p: usize|
                p < self.occupancy@.len() && !self.occupancy@[p as int] implies newf.contains(
                p,
            ) by {
                assert(!old(self).occupancy@[p as int]);
                assert(oldf.contains(p));
                assert(p != pos);
            }
            assert forall|j: int, l: int| 0 <= j < l < newf.len() implies newf[j] != newf[l] by {
                assert(newf[j] == if j == i {
                    oldf[oldf.len() - 1]
                } else {
                    oldf[j]
                });
                assert(newf[l] == if l == i {
                    oldf[oldf.len() - 1]
                } else {
                    oldf[l]
                });
            }
        }
    }

    /// Records that `pos` no longer holds a value; `pos` becomes the first
    /// candidate for reuse.
    pub fn mark_vacant(&mut self, pos: usize)
        requires
            old(self).wf(),
            pos < old(self).occ().len(),
            old(self).occ()[pos as int],
        ensures
            final(self).wf(),
            final(self).occ() == old(self).occ().update(pos as int, false),
            final(self).free_list() == old(self).free_list().push(pos),
    {
        self.occupancy[pos] = false;
        self.free.push(pos);
        proof {
            let oldf = old(self).free_list();
            assert forall|p: usize|
                p < self.occupancy@.len() && !self.occupancy@[p as int] implies self.free@.contains(
                p,
            ) by {
                if p == pos {
                    assert(self.free@.last() == pos);
                } else {
                    assert(oldf.contains(p));
                    let i = choose|i: int| 0 <= i < oldf.len() && oldf[i] == p;
                    assert(self.free@[i] == p);
                }
            }
        }
    }

    /// A fresh cursor over the occupied positions, as of this call.
    pub fn occupied(&self) -> (c: Occupied)
        ensures
            c.wf(),
            c.occ() == self.occ(),
            c.cursor() == 0,
    {
        Occupied { occupancy: &self.occupancy, pos: 0 }
    }
}

/// A lazy, single-pass, ascending cursor over the occupied positions of an
/// index. It borrows the index read-only: while the cursor is alive the
/// index cannot be mutated, so every position it yields is occupied both at
/// construction and when yielded.
pub struct Occupied<'a> {
    pub occupancy: &'a Vec<bool>,
    pub pos: usize,
}

impl<'a> Occupied<'a> {
    /// The occupancy the cursor walks over.
    pub open spec fn occ(&self) -> Seq<bool> {
        self.occupancy@
    }

    /// The next position the cursor will examine.
    pub open spec fn cursor(&self) -> int {
        self.pos as int
    }

    /// The cursor never points past the end of the index.
    pub open spec fn wf(&self) -> bool {
        self.pos <= self.occupancy@.len()
    }

    /// The occupied positions the cursor has yet to yield, in ascending order.
    pub open spec fn remaining(&self) -> Seq<int> {
        occupied_from(self.occ(), self.cursor())
    }

    /// Yields the least occupied position not yet examined, or nothing when
    /// none remains. Once exhausted, every further call yields nothing.
    pub fn next(&mut self) -> (r: Option<usize>)
        requires
            old(self).wf(),
        ensures
            final(self).wf(),
            final(self).occ() == old(self).occ(),
            match r {
                Some(p) => {
                    &&& old(self).remaining().len() > 0
                    &&& p as int == old(self).remaining()[0]
                    &&& p < old(self).occ().len()
                    &&& old(self).occ()[p as int]
                    &&& final(self).cursor() == p + 1
                    &&& final(self).remaining() == old(self).remaining().drop_first()
                },
                None => {
                    &&& old(self).remaining().len() == 0
                    &&& final(self).remaining().len() == 0
                    &&& final(self).cursor() == old(self).occ().len()
                },
            },
    {
        while self.pos < self.occupancy.len()
            invariant
                old(self).cursor() <= self.pos <= self.occupancy@.len(),
                self.occupancy == old(self).occupancy,
                forall|q: int| old(self).cursor() <= q < self.pos ==> !self.occupancy@[q],
            decreases self.occupancy@.len() - self.pos,
        {
            if self.occupancy[self.pos] {
                let p = self.pos;
                self.pos = p + 1;
                proof {
                    lemma_skip_vacant(self.occupancy@, old(self).cursor(), p as int);
                    assert(occupied_from(self.occupancy@, old(self).cursor()) == seq![p as int]
                        + occupied_from(self.occupancy@, p + 1));
                    assert(occupied_from(self.occupancy@, p + 1) == occupied_from(
                        self.occupancy@,
                        old(self).cursor(),
                    ).drop_first());
                }
                return Some(p);
            }
            self.pos = self.pos + 1;
        }
        proof {
            lemma_all_vacant(self.occupancy@, old(self).cursor());
            lemma_all_vacant(self.occupancy@, self.pos as int);
        }
        None
    }
}

} // verus!
