//! Entity identity: a generational handle allocator.
//!
//! Identifiers carry a storage slot index and a generation counter.  A slot
//! is recycled after its entity is released, with a strictly newer
//! generation, so an old identifier never compares equal to the identifier
//! of a later tenant of the same slot.  A ghost set of every identifier
//! ever issued backs the freshness guarantee of [`EntityAllocator::allocate`].

use vstd::prelude::*;

verus! {

/// An opaque handle naming one logical entity.
///
/// Two identifiers are equal only if both the slot and the generation
/// match; a recycled slot carries a newer generation, so identifiers of
/// distinct entity lifetimes never collide.
#[derive(Clone, Copy, PartialEq, Eq, Structural, Debug)]
pub struct EntityId {
    pub(crate) slot: usize,
    pub(crate) generation: u64,
}

impl EntityId {
    /// The storage slot this identifier points at.
    pub open(crate) spec fn spec_slot(self) -> int {
        self.slot as int
    }

    /// The generation under which this identifier was issued.
    pub open(crate) spec fn spec_generation(self) -> int {
        self.generation as int
    }
}

#[derive(Clone, Copy)]
pub(crate) struct SlotEntry {
    pub(crate) generation: u64,
    pub(crate) alive: bool,
}

/// Issues unique identifiers, tracks liveness, and recycles slots.
///
/// A slot whose generation counter is exhausted is retired instead of
/// being put back on the free list, so freshness of new identifiers holds
/// without any bound on the number of allocate/release cycles.
pub struct EntityAllocator {
    pub(crate) slots: Vec<SlotEntry>,
    pub(crate) free: Vec<usize>,
    pub(crate) issued: Ghost<Set<EntityId>>,
}

impl EntityAllocator {
    /// Number of storage slots ever reserved.
    pub open(crate) spec fn n_slots(self) -> int {
        self.slots@.len() as int
    }

    /// Current generation of slot `s`.
    pub open(crate) spec fn gen_at(self, s: int) -> int {
        self.slots@[s].generation as int
    }

    /// Whether slot `s` currently hosts a live entity.
    pub open(crate) spec fn alive_at(self, s: int) -> bool {
        self.slots@[s].alive
    }

    /// Every identifier ever returned by `allocate`.
    pub open(crate) spec fn issued_ids(self) -> Set<EntityId> {
        self.issued@
    }

    /// An identifier is alive iff its generation matches the current
    /// generation of its slot and the slot hosts an entity.
    pub open(crate) spec fn spec_is_alive(self, id: EntityId) -> bool {
        &&& id.slot < self.n_slots()
        &&& self.alive_at(id.slot as int)
        &&& id.generation == self.gen_at(id.slot as int)
    }

    /// An identifier whose entity has been released.  Retirement is
    /// permanent: no later operation makes a retired identifier alive.
    pub open(crate) spec fn retired(self, id: EntityId) -> bool {
        &&& id.slot < self.n_slots()
        &&& {
            ||| id.generation < self.gen_at(id.slot as int)
            ||| (id.generation == self.gen_at(id.slot as int) && id.generation == u64::MAX
                    && !self.alive_at(id.slot as int))
        }
    }

    /// Internal consistency of the allocator state.
    pub open(crate) spec fn wf(self) -> bool {
        &&& forall|i: int|
            0 <= i < self.free@.len() ==> (#[trigger] self.free@[i]) < self.n_slots()
                && !self.alive_at(self.free@[i] as int) && self.gen_at(self.free@[i] as int)
                < u64::MAX
        &&& forall|i: int, j: int|
            0 <= i < j < self.free@.len() ==> #[trigger] self.free@[i] != #[trigger] self.free@[j]
        &&& forall|id: EntityId|
            #[trigger] self.issued@.contains(id) ==> id.slot < self.n_slots() && (id.generation
                < self.gen_at(id.slot as int) || (id.generation == self.gen_at(id.slot as int) && (
            self.alive_at(id.slot as int) || id.generation == u64::MAX)))
        &&& forall|s: int|
            0 <= s < self.n_slots() && #[trigger] self.alive_at(s) ==> self.issued@.contains(
                (EntityId { slot: s as usize, generation: self.slots@[s].generation }),
            )
    }

    /// Whether another entity can be reserved: either a freed slot is
    /// available for reuse or the slot table can still grow.
    pub open(crate) spec fn can_allocate(self) -> bool {
        self.free@.len() > 0 || self.n_slots() < usize::MAX
    }

    /// An empty allocator: no slots, nothing issued.
    pub fn new() -> (a: EntityAllocator)
        ensures
            a.wf(),
            a.n_slots() == 0,
            a.issued_ids() === Set::empty(),
            forall|id: EntityId| !a.spec_is_alive(id),
            a.can_allocate(),
    {
        EntityAllocator { slots: Vec::new(), free: Vec::new(), issued: Ghost(Set::empty()) }
    }

    /// True iff `id` names a currently live entity.
    pub fn is_alive(&self, id: EntityId) -> (r: bool)
        ensures
            r == self.spec_is_alive(id),
    {
        id.slot < self.slots.len() && self.slots[id.slot].alive && self.slots[id.slot].generation
            == id.generation
    }

    /// Reserves a slot and returns a fresh identifier: one that was never
    /// issued before, not even for an earlier tenant of the same slot.
    ///
    /// Liveness of every other identifier is untouched, and retired
    /// identifiers stay retired.
    pub fn allocate(&mut self) -> (r: EntityId)
        requires
            old(self).wf(),
            old(self).can_allocate(),
        ensures
            final(self).wf(),
            !old(self).issued_ids().contains(r),
            final(self).spec_is_alive(r),
            final(self).issued_ids() === old(self).issued_ids().insert(r),
            forall|id: EntityId|
                id != r ==> final(self).spec_is_alive(id) == #[trigger] old(self).spec_is_alive(id),
            forall|id: EntityId| old(self).retired(id) ==> #[trigger] final(self).retired(id),
            old(self).n_slots() <= final(self).n_slots() <= old(self).n_slots() + 1,
            forall|s: int|
                0 <= s < old(self).n_slots() ==> final(self).gen_at(s) == #[trigger] old(self).gen_at(s),
            forall|s: int|
                0 <= s < old(self).n_slots() && s != r.spec_slot() ==> final(self).alive_at(s)
                    == #[trigger] old(self).alive_at(s),
    {
        let ghost pre = *self;
        let r: EntityId;
        if let Some(s) = self.free.pop() {
            let generation = self.slots[s].generation;
            r = EntityId { slot: s, generation };
            self.slots[s] = SlotEntry { generation, alive: true };
        } else {
            let s = self.slots.len();
            self.slots.push(SlotEntry { generation: 0, alive: true });
            r = EntityId { slot: s, generation: 0 };
        }
        proof {
            self.issued@ = self.issued@.insert(r);
            assert(!pre.issued@.contains(r));
            assert forall|s2: int|
                0 <= s2 < self.n_slots() && #[trigger] self.alive_at(s2) implies self.issued@.contains(
                (EntityId { slot: s2 as usize, generation: self.slots@[s2].generation }),
            ) by {
                if s2 != r.slot {
                    assert(pre.alive_at(s2));
                    assert(pre.issued@.contains(
                        (EntityId { slot: s2 as usize, generation: pre.slots@[s2].generation }),
                    ));
                }
            }
            assert forall|i: int| 0 <= i < self.free@.len() implies (#[trigger] self.free@[i])
                < self.n_slots() && !self.alive_at(self.free@[i] as int) by {
                assert(pre.free@[i] == self.free@[i]);
                assert(pre.free@[i] != r.slot);
            }
        }
        r
    }

    /// Releases `id`'s slot for reuse; a no-op when `id` is not alive.
    ///
    /// Afterwards `id` is permanently retired: its slot either carries a
    /// strictly newer generation or is withdrawn from circulation.
    pub fn release(&mut self, id: EntityId)
        requires
            old(self).wf(),
        ensures
            final(self).wf(),
            !final(self).spec_is_alive(id),
            forall|id2: EntityId|
                id2 != id ==> final(self).spec_is_alive(id2) == #[trigger] old(self).spec_is_alive(id2),
            old(self).spec_is_alive(id) ==> final(self).retired(id),
            forall|id2: EntityId| old(self).retired(id2) ==> #[trigger] final(self).retired(id2),
            final(self).issued_ids() === old(self).issued_ids(),
            final(self).n_slots() == old(self).n_slots(),
            old(self).can_allocate() ==> final(self).can_allocate(),
            forall|s: int|
                0 <= s < final(self).n_slots() && s != id.spec_slot() ==> final(self).gen_at(s) == #[trigger] old(
                    self,
                ).gen_at(s) && final(self).alive_at(s) == old(self).alive_at(s),
    {
        let ghost pre = *self;
        if self.is_alive(id) {
            let g = self.slots[id.slot].generation;
            if g < u64::MAX - 1 {
                self.slots[id.slot] = SlotEntry { generation: g + 1, alive: false };
                self.free.push(id.slot);
            } else {
                self.slots[id.slot] = SlotEntry { generation: u64::MAX, alive: false };
            }
            proof {
                assert forall|i: int| 0 <= i < self.free@.len() implies (#[trigger] self.free@[i])
                    < self.n_slots() && !self.alive_at(self.free@[i] as int) by {
                    if i < pre.free@.len() {
                        assert(pre.free@[i] == self.free@[i]);
                        assert(pre.free@[i] != id.slot);
                    }
                }
                assert forall|i: int, j: int| 0 <= i < j < self.free@.len() implies #[trigger] self.free@[i]
                    != #[trigger] self.free@[j] by {
                    if j < pre.free@.len() {
                        assert(pre.free@[i] == self.free@[i] && pre.free@[j] == self.free@[j]);
                    } else {
                        assert(pre.free@[i] != id.slot);
                    }
                }
                assert forall|s2: int|
                    0 <= s2 < self.n_slots() && #[trigger] self.alive_at(s2) implies self.issued@.contains(
                    (EntityId { slot: s2 as usize, generation: self.slots@[s2].generation }),
                ) by {
                    assert(s2 != id.slot as int);
                    assert(pre.alive_at(s2));
                    assert(pre.issued@.contains(
                        (EntityId { slot: s2 as usize, generation: pre.slots@[s2].generation }),
                    ));
                }
            }
        }
    }

}

} // verus!
