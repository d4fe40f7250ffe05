use vstd::prelude::*;
use crate::handle::Handle;

verus! {

/// A sparse array grown to at least `n` entries, the new ones holding the sentinel.
pub open spec fn padded(sparse: Seq<Handle>, n: nat) -> Seq<Handle> {
    if sparse.len() >= n {
        sparse
    } else {
        sparse + Seq::new((n - sparse.len()) as nat, |k: int| Handle::sentinel())
    }
}

/// The sparse array after entity `e` was appended to the dense array at position `pos`:
/// grown to reach `e`'s slot, and holding `e`'s generation and `pos` there.
pub open spec fn recorded(sparse: Seq<Handle>, e: Handle, pos: nat) -> Seq<Handle> {
    padded(sparse, e.i as nat + 1).update(e.i as int, Handle { g: e.g, i: pos as u32 })
}

/// The sparse array that belongs to a dense array: the insertions replayed in order.
pub open spec fn sparse_of(dense: Seq<Handle>) -> Seq<Handle>
    decreases dense.len(),
{
    if dense.len() == 0 {
        Seq::empty()
    } else {
        recorded(sparse_of(dense.drop_last()), dense.last(), (dense.len() - 1) as nat)
    }
}

/// `p` is the last position of the dense array that holds entity slot `slot`.
pub open spec fn last_at(dense: Seq<Handle>, slot: int, p: int) -> bool {
    &&& 0 <= p < dense.len()
    &&& dense[p].i == slot
    &&& forall|q: int| p < q < dense.len() ==> (#[trigger] dense[q]).i != slot
}

/// No two entries of the dense array share a slot.
pub open spec fn distinct_slots(dense: Seq<Handle>) -> bool {
    forall|p: int, q: int| 0 <= p < q < dense.len() ==> dense[p].i != dense[q].i
}

/// Two-way mapping between entity slots and positions in one component table.
///
/// `c2e` is the dense array: the entities in insertion order. `e2c` is the sparse
/// array: indexed by entity slot, each entry holds the generation at insertion and
/// the dense position. The sparse array is derived from the dense one.
#[derive(Debug)]
pub struct ComponentIndex {
    /// dense
    pub c2e: Vec<Handle>,
    /// sparse
    pub e2c: Vec<Handle>,
}

impl Default for ComponentIndex {
    /// An index of no entities.
    fn default() -> (r: ComponentIndex)
        ensures
            r.c2e@ == Seq::<Handle>::empty(),
            r.e2c@ == Seq::<Handle>::empty(),
            r.wf(),
    {
        ComponentIndex::new()
    }
}

impl Clone for ComponentIndex {
    /// A snapshot: an independent index with the same two arrays.
    fn clone(&self) -> (r: ComponentIndex)
        ensures
            r.c2e@ == self.c2e@,
            r.e2c@ == self.e2c@,
    {
        ComponentIndex { c2e: self.c2e.clone(), e2c: self.e2c.clone() }
    }
}

impl ComponentIndex {
    /// Positions fit in `u32`, and the sparse array is the replay of the dense one.
    pub open spec fn wf(&self) -> bool {
        &&& self.c2e@.len() <= u32::MAX
        &&& self.e2c@ == sparse_of(self.c2e@)
    }

    /// Membership: the slot is inside the sparse array and its generation matches.
    pub open spec fn has(&self, h: Handle) -> bool {
        h.i < self.e2c@.len() && self.e2c@[h.i as int].g == h.g
    }

    /// The dense position recorded for an entity slot, if the slot is occupied.
    pub open spec fn position_of(&self, slot: int) -> Option<int> {
        if 0 <= slot < self.e2c@.len() && self.e2c@[slot].i < self.c2e@.len() {
            Some(self.e2c@[slot].i as int)
        } else {
            None
        }
    }

    pub fn new() -> (r: ComponentIndex)
        ensures
            r.c2e@ == Seq::<Handle>::empty(),
            r.e2c@ == Seq::<Handle>::empty(),
            r.wf(),
    {
        ComponentIndex { c2e: Vec::new(), e2c: Vec::new() }
    }

    pub fn contains(&self, e: Handle) -> (r: bool)
        ensures
            r == self.has(e),
    {
        (e.i as usize) < self.e2c.len() && self.e2c[e.i as usize].g == e.g
    }

    /// The dense position of an entity slot; `None` for a slot that is out of
    /// bounds or was never filled.
    pub fn position(&self, slot: usize) -> (r: Option<usize>)
        ensures
            r.is_some() == self.position_of(slot as int).is_some(),
            r.is_some() ==> r.unwrap() as int == self.position_of(slot as int).unwrap(),
    {
        if slot < self.e2c.len() {
            let p = self.e2c[slot].i as usize;
            if p < self.c2e.len() {
                return Some(p);
            }
        }
        None
    }

    /// Appends `e` to the dense array and records its position in the sparse array,
    /// which grows to reach `e`'s slot.
    pub fn insert(&mut self, e: Handle)
        requires
            old(self).wf(),
            old(self).c2e@.len() < u32::MAX,
            e.i < usize::MAX,
        ensures
            final(self).wf(),
            final(self).c2e@ == old(self).c2e@.push(e),
            final(self).e2c@ == recorded(old(self).e2c@, e, old(self).c2e@.len()),
    {
        let slot = e.i as usize;
        grow(&mut self.e2c, slot + 1);
        let pos = self.c2e.len() as u32;
        self.e2c[slot] = Handle::new(e.g, pos);
        self.c2e.push(e);
        proof {
            assert(self.c2e@.drop_last() == old(self).c2e@);
        }
    }

    /// Rebuilds an index from its persisted form, the dense array alone.
    pub fn from_dense(c2e: Vec<Handle>) -> (r: ComponentIndex)
        requires
            c2e@.len() <= u32::MAX,
            forall|p: int| 0 <= p < c2e@.len() ==> c2e@[p].i < usize::MAX,
        ensures
            r.wf(),
            r.c2e@ == c2e@,
            r.e2c@ == sparse_of(c2e@),
    {
        let mut e2c: Vec<Handle> = Vec::new();
        let mut p: usize = 0;
        while p < c2e.len()
            invariant
                0 <= p <= c2e@.len() <= u32::MAX,
                forall|q: int| 0 <= q < c2e@.len() ==> c2e@[q].i < usize::MAX,
                e2c@ == sparse_of(c2e@.take(p as int)),
            decreases c2e@.len() - p,
        {
            let e = c2e[p];
            let slot = e.i as usize;
            grow(&mut e2c, slot + 1);
            e2c[slot] = Handle::new(e.g, p as u32);
            proof {
                assert(c2e@.take(p as int + 1).drop_last() == c2e@.take(p as int));
            }
            p = p + 1;
        }
        proof {
            assert(c2e@.take(c2e@.len() as int) == c2e@);
        }
        ComponentIndex { c2e, e2c }
    }
}

/// Every entry of a rebuilt sparse array is the sentinel, or holds a position of
/// the dense array at which the entry's generation and slot stand.
pub proof fn lemma_sparse_entry(dense: Seq<Handle>, slot: int)
    requires
        dense.len() <= u32::MAX,
        0 <= slot < sparse_of(dense).len(),
    ensures
        slot <= u32::MAX,
        ({
            let entry = sparse_of(dense)[slot];
            entry == Handle::sentinel() || (entry.i < dense.len() && dense[entry.i as int] == (
                Handle { g: entry.g, i: slot as u32 }
            ))
        }),
    decreases dense.len(),
{
    if dense.len() > 0 {
        let prev = sparse_of(dense.drop_last());
        if slot != dense.last().i && slot < prev.len() {
            lemma_sparse_entry(dense.drop_last(), slot);
        }
    }
}

/// What the sparse array holds, said without the replay: it reaches just past the
/// greatest slot of the dense array; a slot that the dense array never holds has
/// the sentinel; any other slot has the generation and the position of the last
/// dense entry for it.
pub proof fn lemma_sparse_meaning(dense: Seq<Handle>, slot: int)
    requires
        dense.len() <= u32::MAX,
        0 <= slot,
    ensures
        slot < sparse_of(dense).len() <==> exists|p: int|
            0 <= p < dense.len() && (#[trigger] dense[p]).i >= slot,
        slot < sparse_of(dense).len() && (forall|p: int|
            0 <= p < dense.len() ==> (#[trigger] dense[p]).i != slot) ==> sparse_of(dense)[slot]
            == Handle::sentinel(),
        forall|p: int|
            last_at(dense, slot, p) ==> slot < sparse_of(dense).len() && sparse_of(dense)[slot] == (
                Handle { g: dense[p].g, i: p as u32 }
            ),
    decreases dense.len(),
{
    if dense.len() > 0 {
        let front = dense.drop_last();
        let e = dense.last();
        lemma_sparse_meaning(front, slot);
        if slot < sparse_of(front).len() {
            let p = choose|p: int| 0 <= p < front.len() && (#[trigger] front[p]).i >= slot;
            assert(dense[p].i >= slot);
        }
        if slot < sparse_of(dense).len() && slot >= sparse_of(front).len() {
            assert(dense[dense.len() - 1].i >= slot);
        }
        if exists|p: int| 0 <= p < dense.len() && (#[trigger] dense[p]).i >= slot {
            let p = choose|p: int| 0 <= p < dense.len() && (#[trigger] dense[p]).i >= slot;
            if p < front.len() {
                assert(front[p].i >= slot);
            }
        }
        if forall|p: int| 0 <= p < dense.len() ==> (#[trigger] dense[p]).i != slot {
            assert(dense[dense.len() - 1].i != slot);
            assert forall|p: int| 0 <= p < front.len() implies (#[trigger] front[p]).i != slot by {
                assert(dense[p].i != slot);
            }
        }
        assert forall|p: int| last_at(dense, slot, p) implies slot < sparse_of(dense).len()
            && sparse_of(dense)[slot] == (Handle { g: dense[p].g, i: p as u32 }) by {
            if p < front.len() {
                assert(dense[dense.len() - 1].i != slot);
                assert forall|q: int| p < q < front.len() implies (#[trigger] front[q]).i
                    != slot by {
                    assert(dense[q].i != slot);
                }
                assert(last_at(front, slot, p));
            }
        }
    }
}

/// Where no two dense entries share a slot, the sparse array records each dense
/// entry at its slot: its generation and its position.
pub proof fn lemma_dense_entry_recorded(dense: Seq<Handle>, p: int)
    requires
        dense.len() <= u32::MAX,
        distinct_slots(dense),
        0 <= p < dense.len(),
    ensures
        dense[p].i < sparse_of(dense).len(),
        sparse_of(dense)[dense[p].i as int] == (Handle { g: dense[p].g, i: p as u32 }),
    decreases dense.len(),
{
    if p < dense.len() - 1 {
        let front = dense.drop_last();
        assert(front[p] == dense[p]);
        assert(dense[dense.len() - 1] == dense.last());
        lemma_dense_entry_recorded(front, p);
    }
}

/// Inserting at a vacant slot keeps the slots of the dense array distinct.
pub proof fn lemma_insert_at_vacant_keeps_distinct(index: ComponentIndex, e: Handle)
    requires
        index.wf(),
        distinct_slots(index.c2e@),
        index.position_of(e.i as int).is_none(),
    ensures
        distinct_slots(index.c2e@.push(e)),
{
    let dense = index.c2e@;
    assert forall|p: int, q: int| 0 <= p < q < dense.push(e).len() implies dense.push(e)[p].i
        != dense.push(e)[q].i by {
        if q == dense.len() {
            lemma_dense_entry_recorded(dense, p);
        }
    }
}

/// Generation-exact membership: an index has at most one generation of a slot.
pub proof fn lemma_one_generation_per_slot(index: ComponentIndex, h1: Handle, h2: Handle)
    requires
        index.has(h1),
        index.has(h2),
        h1.i == h2.i,
    ensures
        h1.g == h2.g,
{
}

/// A slot that was never filled has no real handle: beyond the sparse array, or at
/// a sentinel entry, `has` is false for every generation but the sentinel's.
pub proof fn lemma_vacant_slot_has_nothing(index: ComponentIndex, h: Handle)
    requires
        h.g != u32::MAX,
        h.i >= index.e2c@.len() || index.e2c@[h.i as int] == Handle::sentinel(),
    ensures
        !index.has(h),
{
}

/// A well-formed index lists every real handle that it has.
pub proof fn lemma_held_is_listed(index: ComponentIndex, h: Handle)
    requires
        index.wf(),
        index.has(h),
        h.g != u32::MAX,
    ensures
        index.c2e@.contains(h),
        index.position_of(h.i as int).is_some(),
        index.c2e@[index.position_of(h.i as int).unwrap()] == h,
{
    lemma_sparse_entry(index.c2e@, h.i as int);
}

/// The sparse array is derived state: two well-formed indices with the same dense
/// array agree on membership and on every position.
pub proof fn lemma_dense_determines_index(a: ComponentIndex, b: ComponentIndex)
    requires
        a.wf(),
        b.wf(),
        a.c2e@ == b.c2e@,
    ensures
        a.e2c@ == b.e2c@,
        forall|h: Handle| a.has(h) == b.has(h),
        forall|slot: int| a.position_of(slot) == b.position_of(slot),
{
}

/// Grows a sparse array to at least `n` entries, filling with the sentinel.
fn grow(sparse: &mut Vec<Handle>, n: usize)
    ensures
        final(sparse)@ == padded(old(sparse)@, n as nat),
{
    if sparse.len() < n {
        sparse.resize(n, Handle::invalid());
        assert(final(sparse)@ =~= padded(old(sparse)@, n as nat));
    }
}

} // verus!
