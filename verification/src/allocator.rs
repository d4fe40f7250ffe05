use vstd::prelude::*;
use crate::handle::Handle;
use crate::join::{faithful, generation_exact, EntityStorage};

verus! {

/// What an allocator is, mathematically: the current generation of every slot, and
/// the retired slots that wait for reuse, the next one to go out last.
pub struct AllocatorView {
    pub gen: Seq<u32>,
    pub dead: Seq<u32>,
}

impl AllocatorView {
    /// Every retired slot is a slot of the generation array, and slots fit in `u32`.
    pub open spec fn wf(self) -> bool {
        &&& self.gen.len() <= u32::MAX
        &&& forall|k: int| 0 <= k < self.dead.len() ==> (#[trigger] self.dead[k]) < self.gen.len()
    }

    /// A handle is live when its slot exists and is at the handle's generation.
    pub open spec fn live(self, h: Handle) -> bool {
        h.i < self.gen.len() && self.gen[h.i as int] == h.g
    }

    /// A handle is retired when its slot has moved past the handle's generation.
    pub open spec fn retired(self, h: Handle) -> bool {
        h.i < self.gen.len() && self.gen[h.i as int] > h.g
    }

    /// The handle that the next allocation returns.
    pub open spec fn next_handle(self) -> Handle {
        if self.dead.len() > 0 {
            Handle { g: self.gen[self.dead.last() as int], i: self.dead.last() }
        } else {
            Handle { g: 0, i: self.gen.len() as u32 }
        }
    }

    /// The state after an allocation: the last retired slot leaves the free list, or,
    /// with no retired slot, a fresh slot joins at generation 0.
    pub open spec fn after_alloc(self) -> AllocatorView {
        if self.dead.len() > 0 {
            AllocatorView { gen: self.gen, dead: self.dead.drop_last() }
        } else {
            AllocatorView { gen: self.gen.push(0), dead: self.dead }
        }
    }

    /// The state after `h` was handed back: unchanged unless `h` is live; else the
    /// slot's generation is one higher and the slot joins the free list.
    pub open spec fn after_dealloc(self, h: Handle) -> AllocatorView {
        if self.live(h) {
            AllocatorView {
                gen: self.gen.update(h.i as int, (h.g + 1) as u32),
                dead: self.dead.push(h.i),
            }
        } else {
            self
        }
    }

    /// Every slot at its current generation, in slot order.
    pub open spec fn handles(self) -> Seq<Handle> {
        Seq::new(self.gen.len(), |k: int| Handle { g: self.gen[k], i: k as u32 })
    }

    /// `later` has every slot of `self`, none at a lower generation.
    pub open spec fn precedes(self, later: AllocatorView) -> bool {
        &&& self.gen.len() <= later.gen.len()
        &&& forall|k: int| 0 <= k < self.gen.len() ==> self.gen[k] <= later.gen[k]
    }
}

/// Owns the universe of entity slots; issues and retires handles.
#[derive(Debug)]
pub struct Allocator {
    gen: Vec<u32>,
    dead: Vec<u32>,
}

impl View for Allocator {
    type V = AllocatorView;

    closed spec fn view(&self) -> AllocatorView {
        AllocatorView { gen: self.gen@, dead: self.dead@ }
    }
}

impl Default for Allocator {
    /// An allocator with no slots.
    fn default() -> (r: Allocator)
        ensures
            r.wf(),
            r@.gen == Seq::<u32>::empty(),
            r@.dead == Seq::<u32>::empty(),
    {
        Allocator::new()
    }
}

impl Clone for Allocator {
    /// A snapshot: an independent allocator in the same state.
    fn clone(&self) -> (r: Allocator)
        ensures
            r@ == self@,
    {
        Allocator { gen: self.gen.clone(), dead: self.dead.clone() }
    }
}

impl Allocator {
    pub open spec fn wf(&self) -> bool {
        self@.wf()
    }

    pub fn new() -> (r: Allocator)
        ensures
            r.wf(),
            r@.gen == Seq::<u32>::empty(),
            r@.dead == Seq::<u32>::empty(),
    {
        Allocator { gen: Vec::new(), dead: Vec::new() }
    }

    /// Builds an allocator from its persisted form. `None` where a retired slot
    /// lies outside the generation array, or the array has more than `u32::MAX`
    /// slots.
    pub fn from_parts(gen: Vec<u32>, dead: Vec<u32>) -> (r: Option<Allocator>)
        ensures
            r.is_some() == (AllocatorView { gen: gen@, dead: dead@ }).wf(),
            r.is_some() ==> r.unwrap()@ == (AllocatorView { gen: gen@, dead: dead@ }),
    {
        if gen.len() > u32::MAX as usize {
            return None;
        }
        let mut k: usize = 0;
        while k < dead.len()
            invariant
                0 <= k <= dead@.len(),
                forall|j: int| 0 <= j < k ==> (#[trigger] dead@[j]) < gen@.len(),
            decreases dead@.len() - k,
        {
            if dead[k] as usize >= gen.len() {
                proof {
                    let v = AllocatorView { gen: gen@, dead: dead@ };
                    assert(v.dead[k as int] >= v.gen.len());
                }
                return None;
            }
            k = k + 1;
        }
        proof {
            let v = AllocatorView { gen: gen@, dead: dead@ };
            assert forall|j: int| 0 <= j < v.dead.len() implies (#[trigger] v.dead[j])
                < v.gen.len() by {
                assert(dead@[j] < gen@.len());
            }
        }
        Some(Allocator { gen, dead })
    }

    /// The generation of every slot, as persisted.
    pub fn generations(&self) -> (r: &Vec<u32>)
        ensures
            r@ == self@.gen,
    {
        &self.gen
    }

    /// The free list, as persisted.
    pub fn free_slots(&self) -> (r: &Vec<u32>)
        ensures
            r@ == self@.dead,
    {
        &self.dead
    }

    /// Returns a handle at its slot's current generation: the slot retired last,
    /// or a fresh slot at generation 0 when none is retired.
    pub fn allocate(&mut self) -> (h: Handle)
        requires
            old(self).wf(),
            old(self)@.dead.len() == 0 ==> old(self)@.gen.len() < u32::MAX,
        ensures
            final(self).wf(),
            h == old(self)@.next_handle(),
            final(self)@ == old(self)@.after_alloc(),
            final(self)@.live(h),
            old(self)@.precedes(final(self)@),
    {
        let i: u32 = match self.dead.pop() {
            Some(i) => {
                proof {
                    let before = old(self)@;
                    assert(before.dead[before.dead.len() - 1] < before.gen.len());
                    lemma_step_precedes(before, AllocatorOp::Alloc);
                }
                i
            },
            None => {
                let i = self.gen.len() as u32;
                self.gen.push(0);
                i
            },
        };
        Handle { g: self.gen[i as usize], i }
    }

    /// Retires a live handle: its slot moves to the next generation and joins the
    /// free list. A handle that is not live changes nothing.
    pub fn dealloc(&mut self, h: Handle)
        requires
            old(self).wf(),
            old(self)@.live(h) ==> h.g < u32::MAX,
        ensures
            final(self).wf(),
            final(self)@ == old(self)@.after_dealloc(h),
            !final(self)@.live(h),
            old(self)@.live(h) ==> final(self)@.retired(h),
            old(self)@.precedes(final(self)@),
    {
        if !self.contains(h) {
            return ;
        }
        self.gen[h.i as usize] = h.g + 1;
        self.dead.push(h.i);
        proof {
            assert forall|k: int| 0 <= k < self@.dead.len() implies (#[trigger] self@.dead[k])
                < self@.gen.len() by {
                if k < old(self)@.dead.len() {
                    assert(self@.dead[k] == old(self)@.dead[k]);
                }
            }
        }
    }
}

impl EntityStorage for Allocator {
    open spec fn valid(&self) -> bool {
        self.wf()
    }

    open spec fn listed(&self) -> Seq<Handle> {
        self@.handles()
    }

    open spec fn holds(&self, h: Handle) -> bool {
        self@.live(h)
    }

    /// The number of slots, those on the free list included.
    fn len(&self) -> (n: u32) {
        self.gen.len() as u32
    }

    fn is_empty(&self) -> (r: bool) {
        self.gen.len() == 0
    }

    /// Every slot at its current generation, in slot order.
    fn entities(&self) -> (r: Vec<Handle>) {
        let mut out: Vec<Handle> = Vec::new();
        let mut k: usize = 0;
        while k < self.gen.len()
            invariant
                0 <= k <= self.gen@.len() <= u32::MAX,
                out@.len() == k,
                forall|j: int| 0 <= j < k ==> out@[j] == self@.handles()[j],
            decreases self.gen@.len() - k,
        {
            out.push(Handle { g: self.gen[k], i: k as u32 });
            k = k + 1;
        }
        assert(out@ =~= self@.handles());
        out
    }

    /// Whether `h` is live: its slot exists and is at `h`'s generation.
    fn contains(&self, h: Handle) -> (r: bool) {
        (h.i as usize) < self.gen.len() && self.gen[h.i as usize] == h.g
    }
}

/// An allocator holds at most one generation of a slot, and one with no slot at
/// the sentinel's generation lists exactly the handles that it holds.
pub proof fn lemma_allocator_faithful(a: &Allocator)
    requires
        a.wf(),
        forall|k: int| 0 <= k < a@.gen.len() ==> (#[trigger] a@.gen[k]) != u32::MAX,
    ensures
        generation_exact(a),
        faithful(a),
{
    assert forall|p: int| 0 <= p < a.listed().len() implies a.holds(#[trigger] a.listed()[p])
        && a.listed()[p].g != u32::MAX by {
        assert(a@.gen[p] != u32::MAX);
    }
    assert forall|h: Handle|
        #![trigger a.holds(h)]
        h.g != u32::MAX && a.holds(h) implies a.listed().contains(h) by {
        assert(a.listed()[h.i as int] == h);
    }
}

/// One call on an allocator.
pub enum AllocatorOp {
    Alloc,
    Dealloc(Handle),
}

impl AllocatorView {
    /// The state after one call.
    pub open spec fn step(self, op: AllocatorOp) -> AllocatorView {
        match op {
            AllocatorOp::Alloc => self.after_alloc(),
            AllocatorOp::Dealloc(h) => self.after_dealloc(h),
        }
    }

    /// The call meets the machine limits: a fresh slot fits in `u32`, and so does
    /// the next generation of a slot that is retired.
    pub open spec fn admits(self, op: AllocatorOp) -> bool {
        match op {
            AllocatorOp::Alloc => self.dead.len() == 0 ==> self.gen.len() < u32::MAX,
            AllocatorOp::Dealloc(h) => self.live(h) ==> h.g < u32::MAX,
        }
    }

    /// The state after a sequence of calls.
    pub open spec fn run(self, ops: Seq<AllocatorOp>) -> AllocatorView
        decreases ops.len(),
    {
        if ops.len() == 0 {
            self
        } else {
            self.run(ops.drop_last()).step(ops.last())
        }
    }

    /// Every call of the sequence meets the machine limits in the state it finds.
    pub open spec fn admits_all(self, ops: Seq<AllocatorOp>) -> bool
        decreases ops.len(),
    {
        ops.len() == 0 || (self.admits_all(ops.drop_last()) && self.run(ops.drop_last()).admits(
            ops.last(),
        ))
    }
}

/// One call keeps the allocator well formed, keeps every slot and lowers no
/// generation.
pub proof fn lemma_step_precedes(s: AllocatorView, op: AllocatorOp)
    requires
        s.wf(),
        s.admits(op),
    ensures
        s.step(op).wf(),
        s.precedes(s.step(op)),
{
    let t = s.step(op);
    match op {
        AllocatorOp::Alloc => {
            assert forall|k: int| 0 <= k < t.dead.len() implies (#[trigger] t.dead[k])
                < t.gen.len() by {
                assert(t.dead[k] == s.dead[k]);
            }
        },
        AllocatorOp::Dealloc(h) => {
            if s.live(h) {
                assert forall|k: int| 0 <= k < t.dead.len() implies (#[trigger] t.dead[k])
                    < t.gen.len() by {
                    if k < s.dead.len() {
                        assert(t.dead[k] == s.dead[k]);
                    }
                }
            }
        },
    }
}

/// Over any sequence of calls the allocator stays well formed, keeps every slot
/// and lowers no generation.
pub proof fn lemma_run_precedes(s: AllocatorView, ops: Seq<AllocatorOp>)
    requires
        s.wf(),
        s.admits_all(ops),
    ensures
        s.run(ops).wf(),
        s.precedes(s.run(ops)),
    decreases ops.len(),
{
    if ops.len() > 0 {
        lemma_run_precedes(s, ops.drop_last());
        lemma_step_precedes(s.run(ops.drop_last()), ops.last());
    }
}

/// The handle that an allocation returns is live right after it.
pub proof fn lemma_allocated_is_live(s: AllocatorView)
    requires
        s.wf(),
        s.admits(AllocatorOp::Alloc),
    ensures
        s.after_alloc().live(s.next_handle()),
{
    if s.dead.len() > 0 {
        assert(s.dead[s.dead.len() - 1] < s.gen.len());
    }
}

/// A live handle that is handed back is retired, and no sequence of later calls
/// makes a retired handle live again.
pub proof fn lemma_retired_forever(s: AllocatorView, h: Handle, ops: Seq<AllocatorOp>)
    requires
        s.wf(),
        s.live(h) && h.g < u32::MAX || s.retired(h),
        s.after_dealloc(h).admits_all(ops),
    ensures
        s.after_dealloc(h).retired(h),
        s.after_dealloc(h).run(ops).retired(h),
        !s.after_dealloc(h).run(ops).live(h),
{
    let t = s.after_dealloc(h);
    lemma_step_precedes(s, AllocatorOp::Dealloc(h));
    lemma_run_precedes(t, ops);
}

/// Slot reuse: where a handle was handed back and, after any calls, an allocation
/// returns its slot again, the new handle has a strictly greater generation and
/// the old handle is not live.
pub proof fn lemma_reuse_bumps_generation(s: AllocatorView, h: Handle, ops: Seq<AllocatorOp>)
    requires
        s.wf(),
        s.live(h),
        h.g < u32::MAX,
        s.after_dealloc(h).admits_all(ops),
        s.after_dealloc(h).run(ops).admits(AllocatorOp::Alloc),
        s.after_dealloc(h).run(ops).next_handle().i == h.i,
    ensures
        s.after_dealloc(h).run(ops).next_handle().g > h.g,
        !s.after_dealloc(h).run(ops).after_alloc().live(h),
        s.after_dealloc(h).run(ops).after_alloc().live(s.after_dealloc(h).run(ops).next_handle()),
{
    let t = s.after_dealloc(h).run(ops);
    lemma_retired_forever(s, h, ops);
    lemma_step_precedes(s, AllocatorOp::Dealloc(h));
    lemma_run_precedes(s.after_dealloc(h), ops);
    lemma_allocated_is_live(t);
    lemma_step_precedes(t, AllocatorOp::Alloc);
}

} // verus!
