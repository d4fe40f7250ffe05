use vstd::prelude::*;
use crate::handle::Handle;
use crate::index::{
    distinct_slots, last_at, lemma_dense_entry_recorded, lemma_held_is_listed, lemma_sparse_entry,
    lemma_sparse_meaning, recorded, ComponentIndex,
};
use crate::join::{faithful, generation_exact, EntityStorage};

verus! {

/// The value stored for an entity slot: the value at the dense position that the
/// index records for the slot, or `None` where the slot is out of bounds or vacant.
pub open spec fn lookup<C>(values: Seq<C>, index: ComponentIndex, slot: int) -> Option<C> {
    match index.position_of(slot) {
        Some(p) => if p < values.len() {
            Some(values[p])
        } else {
            None
        },
        None => None,
    }
}

/// Values and dense array can form a table: they are equally many, at most
/// `u32::MAX`, and every slot can be reached in `usize`.
pub open spec fn loadable<C>(values: Seq<C>, dense: Seq<Handle>) -> bool {
    &&& values.len() == dense.len()
    &&& dense.len() <= u32::MAX
    &&& forall|p: int| 0 <= p < dense.len() ==> (#[trigger] dense[p]).i < usize::MAX
}

/// The exec form of `lookup`.
fn find<'a, C>(values: &'a Vec<C>, index: &ComponentIndex, slot: usize) -> (r: Option<&'a C>)
    ensures
        r.is_some() == lookup(values@, *index, slot as int).is_some(),
        r.is_some() ==> *r.unwrap() == lookup(values@, *index, slot as int).unwrap(),
{
    match index.position(slot) {
        Some(p) => if p < values.len() {
            Some(&values[p])
        } else {
            None
        },
        None => None,
    }
}

/// The dense array of component values of one table.
#[derive(Debug)]
pub struct ComponentData<C> {
    pub c: Vec<C>,
}

impl<C> Default for ComponentData<C> {
    fn default() -> (r: ComponentData<C>)
        ensures
            r.c@ == Seq::<C>::empty(),
    {
        ComponentData::new()
    }
}

impl<C> ComponentData<C> {
    pub fn new() -> (r: ComponentData<C>)
        ensures
            r.c@ == Seq::<C>::empty(),
    {
        ComponentData { c: Vec::new() }
    }
}

impl<C: Clone> Clone for ComponentData<C> {
    /// A snapshot: as many values, each a clone of the value at its position.
    fn clone(&self) -> (r: ComponentData<C>)
        ensures
            r.c@.len() == self.c@.len(),
            forall|p: int| 0 <= p < self.c@.len() ==> cloned::<C>(#[trigger] self.c@[p], r.c@[p]),
    {
        ComponentData { c: self.c.clone() }
    }
}

/// A read window into a table: values are reached by entity slot.
pub struct ReadStorage<'a, C> {
    pub c: &'a Vec<C>,
    pub index: &'a ComponentIndex,
}

impl<'a, C> ReadStorage<'a, C> {
    /// The value that the window shows for an entity slot.
    pub open spec fn value_of(&self, slot: int) -> Option<C> {
        lookup(self.c@, *self.index, slot)
    }

    /// The value of the entity at `slot`, if the table has one.
    pub fn get(&self, slot: usize) -> (r: Option<&'a C>)
        ensures
            r.is_some() == self.value_of(slot as int).is_some(),
            r.is_some() ==> *r.unwrap() == self.value_of(slot as int).unwrap(),
    {
        find(self.c, self.index, slot)
    }
}

/// A write window into a table: values are reached by entity slot and may be
/// replaced. It borrows the values exclusively; no other window exists beside it.
///
/// The window stays bound to its table through every call: the last clause of
/// each contract says that what the table holds once the window is gone is what
/// the window holds then.
pub struct WriteStorage<'a, C> {
    pub c: &'a mut Vec<C>,
    pub index: &'a ComponentIndex,
}

impl<'a, C> WriteStorage<'a, C> {
    /// The value that the window now shows for an entity slot.
    pub open spec fn value_of(&self, slot: int) -> Option<C> {
        lookup(self.c@, *self.index, slot)
    }

    /// The value of the entity at `slot`, if the table has one.
    pub fn get(&self, slot: usize) -> (r: Option<&C>)
        ensures
            r.is_some() == self.value_of(slot as int).is_some(),
            r.is_some() ==> *r.unwrap() == self.value_of(slot as int).unwrap(),
    {
        find(self.c, self.index, slot)
    }

    /// The value of the entity at `slot`, to be changed in place, if the table has
    /// one. What is written through the reference is the value that the window
    /// shows for `slot` from then on; no other value changes.
    pub fn get_mut(&mut self, slot: usize) -> (r: Option<&mut C>)
        ensures
            r.is_some() == old(self).value_of(slot as int).is_some(),
            r.is_some() ==> *r.unwrap() == old(self).value_of(slot as int).unwrap(),
            r.is_some() ==> final(self).c@ == old(self).c@.update(
                old(self).index.position_of(slot as int).unwrap(),
                *final(r.unwrap()),
            ),
            !r.is_some() ==> final(self).c@ == old(self).c@,
            final(self).index == old(self).index,
            *final(final(self).c) == *final(old(self).c),
    {
        match self.index.position(slot) {
            Some(p) => if p < self.c.len() {
                Some(&mut self.c[p])
            } else {
                None
            },
            None => None,
        }
    }

    /// Replaces the value of the entity at `slot`. Returns whether the table has
    /// the slot; where it has not, nothing changes.
    pub fn set(&mut self, slot: usize, value: C) -> (r: bool)
        ensures
            r == old(self).value_of(slot as int).is_some(),
            r ==> final(self).c@ == old(self).c@.update(
                old(self).index.position_of(slot as int).unwrap(),
                value,
            ),
            !r ==> final(self).c@ == old(self).c@,
            final(self).index == old(self).index,
            *final(final(self).c) == *final(old(self).c),
    {
        match self.index.position(slot) {
            Some(p) => if p < self.c.len() {
                self.c[p] = value;
                true
            } else {
                false
            },
            None => false,
        }
    }
}

/// The insert window into a table: the only way new pairs of entity and value
/// enter it. It borrows values and index exclusively, and stays bound to its
/// table through every call, as the write window does.
pub struct InsertStorage<'a, C> {
    pub c: &'a mut Vec<C>,
    pub index: &'a mut ComponentIndex,
}

impl<'a, C> InsertStorage<'a, C> {
    /// Index and values are aligned.
    pub open spec fn wf(&self) -> bool {
        self.index.wf() && self.c@.len() == self.index.c2e@.len()
    }

    /// The value that the window now shows for an entity slot.
    pub open spec fn value_of(&self, slot: int) -> Option<C> {
        lookup(self.c@, *self.index, slot)
    }

    /// Appends the pair: `e` to the dense array, `c` to the values, and `e`'s
    /// generation and dense position to the sparse array at `e`'s slot.
    pub fn insert(&mut self, e: Handle, c: C)
        requires
            old(self).wf(),
            old(self).index.c2e@.len() < u32::MAX,
            e.i < usize::MAX,
        ensures
            final(self).wf(),
            final(self).c@ == old(self).c@.push(c),
            final(self).index.c2e@ == old(self).index.c2e@.push(e),
            final(self).index.e2c@ == recorded(
                old(self).index.e2c@,
                e,
                old(self).index.c2e@.len(),
            ),
            final(self).index.has(e),
            final(self).value_of(e.i as int) == Some(c),
            forall|slot: int|
                slot != e.i ==> final(self).value_of(slot) == old(self).value_of(slot),
            *final(final(self).c) == *final(old(self).c),
            *final(final(self).index) == *final(old(self).index),
    {
        self.index.insert(e);
        self.c.push(c);
        proof {
            assert forall|slot: int| slot != e.i implies self.value_of(slot) == old(
                self,
            ).value_of(slot) by {
                if 0 <= slot < old(self).index.e2c@.len() {
                    lemma_sparse_entry(old(self).index.c2e@, slot);
                }
            }
        }
    }
}

/// One component table: a dense array of values and the index that maps entity
/// slots to positions in it.
#[derive(Debug)]
pub struct ComponentStorage<C> {
    pub data: ComponentData<C>,
    pub index: ComponentIndex,
}

impl<C> Default for ComponentStorage<C> {
    /// A table of no entities.
    fn default() -> (r: ComponentStorage<C>)
        ensures
            r.wf(),
            r.data.c@ == Seq::<C>::empty(),
            r.index.c2e@ == Seq::<Handle>::empty(),
    {
        ComponentStorage::new()
    }
}

impl<C: Clone> Clone for ComponentStorage<C> {
    /// A snapshot: the same index, and a clone of each value at its position.
    fn clone(&self) -> (r: ComponentStorage<C>)
        ensures
            self.wf() ==> r.wf(),
            r.index.c2e@ == self.index.c2e@,
            r.index.e2c@ == self.index.e2c@,
            r.data.c@.len() == self.data.c@.len(),
            forall|p: int|
                0 <= p < self.data.c@.len() ==> cloned::<C>(
                    #[trigger] self.data.c@[p],
                    r.data.c@[p],
                ),
    {
        ComponentStorage { data: self.data.clone(), index: self.index.clone() }
    }
}

impl<C> ComponentStorage<C> {
    /// The index is well formed and the values are aligned with its dense array.
    pub open spec fn wf(&self) -> bool {
        self.index.wf() && self.data.c@.len() == self.index.c2e@.len()
    }

    /// The value stored for an entity slot.
    pub open spec fn value_of(&self, slot: int) -> Option<C> {
        lookup(self.data.c@, self.index, slot)
    }

    pub fn new() -> (r: ComponentStorage<C>)
        ensures
            r.wf(),
            r.data.c@ == Seq::<C>::empty(),
            r.index.c2e@ == Seq::<Handle>::empty(),
    {
        ComponentStorage { data: ComponentData::new(), index: ComponentIndex::new() }
    }

    /// Builds a table from its persisted form: the values and the dense array of
    /// the index. The sparse array is rebuilt. `None` where the two differ in
    /// length, where there are more than `u32::MAX` entities, or where a slot
    /// cannot be reached in `usize`.
    pub fn from_parts(values: Vec<C>, dense: Vec<Handle>) -> (r: Option<ComponentStorage<C>>)
        ensures
            r.is_some() == loadable(values@, dense@),
            r.is_some() ==> r.unwrap().wf() && r.unwrap().data.c@ == values@
                && r.unwrap().index.c2e@ == dense@,
    {
        if values.len() != dense.len() || dense.len() > u32::MAX as usize {
            return None;
        }
        let mut p: usize = 0;
        while p < dense.len()
            invariant
                0 <= p <= dense@.len(),
                forall|q: int| 0 <= q < p ==> (#[trigger] dense@[q]).i < usize::MAX,
            decreases dense@.len() - p,
        {
            if dense[p].i as usize == usize::MAX {
                return None;
            }
            p = p + 1;
        }
        Some(
            ComponentStorage {
                data: ComponentData { c: values },
                index: ComponentIndex::from_dense(dense),
            },
        )
    }

    /// A read window. Any number may exist at a time; while one exists the table
    /// cannot be written.
    pub fn read(&self) -> (view: ReadStorage<'_, C>)
        ensures
            view.c@ == self.data.c@,
            *view.index == self.index,
    {
        ReadStorage { c: &self.data.c, index: &self.index }
    }

    /// The write window. While it exists no other window on this table does.
    pub fn write(&mut self) -> (view: WriteStorage<'_, C>)
        ensures
            view.c@ == old(self).data.c@,
            *view.index == old(self).index,
            final(self).data.c@ == final(view.c)@,
            final(self).index == old(self).index,
    {
        WriteStorage { c: &mut self.data.c, index: &self.index }
    }

    /// The insert window. While it exists no other window on this table does.
    pub fn insert(&mut self) -> (view: InsertStorage<'_, C>)
        ensures
            view.c@ == old(self).data.c@,
            *view.index == old(self).index,
            final(self).data.c@ == final(view.c)@,
            final(self).index == *final(view.index),
    {
        InsertStorage { c: &mut self.data.c, index: &mut self.index }
    }
}

impl<C> EntityStorage for ComponentStorage<C> {
    open spec fn valid(&self) -> bool {
        self.wf()
    }

    open spec fn listed(&self) -> Seq<Handle> {
        self.index.c2e@
    }

    open spec fn holds(&self, h: Handle) -> bool {
        self.index.has(h)
    }

    fn len(&self) -> (n: u32) {
        self.index.c2e.len() as u32
    }

    fn is_empty(&self) -> (r: bool) {
        self.index.c2e.len() == 0
    }

    fn entities(&self) -> (r: Vec<Handle>) {
        self.index.c2e.clone()
    }

    fn contains(&self, e: Handle) -> (r: bool) {
        self.index.contains(e)
    }
}

/// Round trip: a table rebuilt from the values and the dense array of a
/// well-formed table has the same dense order, holds the same handles and shows
/// the same value for every entity slot.
pub proof fn lemma_rebuilt_table_agrees<C>(a: ComponentStorage<C>, b: ComponentStorage<C>)
    requires
        a.wf(),
        b.wf(),
        b.data.c@ == a.data.c@,
        b.index.c2e@ == a.index.c2e@,
    ensures
        b.index.e2c@ == a.index.e2c@,
        b.listed() == a.listed(),
        forall|h: Handle| b.holds(h) == a.holds(h),
        forall|slot: int| b.value_of(slot) == a.value_of(slot),
{
}

/// A well-formed table shows for an entity slot the value that was inserted last
/// for it, and nothing for a slot for which none was inserted.
pub proof fn lemma_value_is_last_inserted<C>(s: ComponentStorage<C>, slot: int)
    requires
        s.wf(),
        0 <= slot,
    ensures
        forall|p: int| last_at(s.index.c2e@, slot, p) ==> s.value_of(slot) == Some(s.data.c@[p]),
        (forall|p: int| 0 <= p < s.index.c2e@.len() ==> (#[trigger] s.index.c2e@[p]).i != slot)
            ==> s.value_of(slot).is_none(),
{
    lemma_sparse_meaning(s.index.c2e@, slot);
}

/// A well-formed table shows, for every real handle that it holds, the value at
/// the dense position where that handle stands.
pub proof fn lemma_held_has_value<C>(s: ComponentStorage<C>, h: Handle)
    requires
        s.wf(),
        s.holds(h),
        h.g != u32::MAX,
    ensures
        s.value_of(h.i as int).is_some(),
        s.index.position_of(h.i as int).is_some(),
        s.index.c2e@[s.index.position_of(h.i as int).unwrap()] == h,
        s.value_of(h.i as int) == Some(s.data.c@[s.index.position_of(h.i as int).unwrap()]),
{
    lemma_held_is_listed(s.index, h);
}

/// A table holds at most one generation of a slot.
pub proof fn lemma_table_generation_exact<C>(s: &ComponentStorage<C>)
    ensures
        generation_exact(s),
{
}

/// A well-formed table whose dense entries have distinct slots and real
/// generations lists exactly the handles that it holds.
pub proof fn lemma_table_faithful<C>(s: &ComponentStorage<C>)
    requires
        s.wf(),
        distinct_slots(s.index.c2e@),
        forall|p: int| 0 <= p < s.index.c2e@.len() ==> (#[trigger] s.index.c2e@[p]).g != u32::MAX,
    ensures
        faithful(s),
{
    assert forall|p: int| 0 <= p < s.listed().len() implies s.holds(#[trigger] s.listed()[p])
        && s.listed()[p].g != u32::MAX by {
        lemma_dense_entry_recorded(s.index.c2e@, p);
        assert(s.index.c2e@[p].g != u32::MAX);
    }
    assert forall|h: Handle|
        #![trigger s.holds(h)]
        h.g != u32::MAX && s.holds(h) implies s.listed().contains(h) by {
        lemma_held_is_listed(s.index, h);
    }
}

} // verus!
