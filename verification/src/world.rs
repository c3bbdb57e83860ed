//! The world: entity lifecycle plus all query surfaces.
//!
//! A world owns the entity allocator and four component tables, one per
//! column.  Component types are chosen by the caller as the four type
//! parameters; a column the caller does not need can be instantiated with
//! any placeholder type and left unregistered.  The column marks
//! [`Col1`] .. [`Col4`] name the columns in type-level query shapes and in
//! the value-level storage operations.

use vstd::prelude::*;

use crate::entity::EntityAllocator;
use crate::entity::EntityId;
use crate::filter::AnyEntity;
use crate::filter::EntityMapFilter;
use crate::shape::Shape;
use crate::storage::ComponentTable;

verus! {

/// Mark naming the first component column of a world.
#[derive(Clone, Copy, PartialEq, Eq, Structural, Debug)]
pub struct Col1;

/// Mark naming the second component column of a world.
#[derive(Clone, Copy, PartialEq, Eq, Structural, Debug)]
pub struct Col2;

/// Mark naming the third component column of a world.
#[derive(Clone, Copy, PartialEq, Eq, Structural, Debug)]
pub struct Col3;

/// Mark naming the fourth component column of a world.
#[derive(Clone, Copy, PartialEq, Eq, Structural, Debug)]
pub struct Col4;

/// The aggregate owning all entities and all component tables.
///
/// Entity lifecycle (`create` / `destroy`) and every query go through the
/// world; the tables are never handed out, only single rows and owned
/// copies of row values.
pub struct World<C1, C2, C3, C4> {
    pub(crate) entities: EntityAllocator,
    pub(crate) t1: ComponentTable<C1>,
    pub(crate) t2: ComponentTable<C2>,
    pub(crate) t3: ComponentTable<C3>,
    pub(crate) t4: ComponentTable<C4>,
}

impl<C1, C2, C3, C4> World<C1, C2, C3, C4> {
    /// Number of storage slots ever reserved by this world.
    pub open(crate) spec fn n_slots(self) -> int {
        self.entities.n_slots()
    }

    /// Whether `id` names a live entity of this world.
    pub open(crate) spec fn spec_is_alive(self, id: EntityId) -> bool {
        self.entities.spec_is_alive(id)
    }

    /// An identifier whose entity has been destroyed; this is permanent.
    pub open(crate) spec fn retired(self, id: EntityId) -> bool {
        self.entities.retired(id)
    }

    /// Every identifier this world ever issued.
    pub open(crate) spec fn issued_ids(self) -> Set<EntityId> {
        self.entities.issued_ids()
    }

    /// Whether one more entity can be created.
    pub open(crate) spec fn can_create(self) -> bool {
        self.entities.can_allocate()
    }

    /// The identifier currently associated with slot `s`.
    pub open(crate) spec fn slot_id(self, s: int) -> EntityId {
        EntityId { slot: s as usize, generation: self.entities.slots@[s].generation }
    }

    /// Two worlds with the very same entity allocator state.
    pub open(crate) spec fn same_entities(self, other: World<C1, C2, C3, C4>) -> bool {
        self.entities == other.entities
    }

    /// The first column's table.
    pub open(crate) spec fn tbl1(self) -> ComponentTable<C1> {
        self.t1
    }

    /// The second column's table.
    pub open(crate) spec fn tbl2(self) -> ComponentTable<C2> {
        self.t2
    }

    /// The third column's table.
    pub open(crate) spec fn tbl3(self) -> ComponentTable<C3> {
        self.t3
    }

    /// The fourth column's table.
    pub open(crate) spec fn tbl4(self) -> ComponentTable<C4> {
        self.t4
    }

    /// Whether the first column is registered.
    pub open(crate) spec fn registered1(self) -> bool {
        self.t1.spec_registered()
    }

    /// Whether the second column is registered.
    pub open(crate) spec fn registered2(self) -> bool {
        self.t2.spec_registered()
    }

    /// Whether the third column is registered.
    pub open(crate) spec fn registered3(self) -> bool {
        self.t3.spec_registered()
    }

    /// Whether the fourth column is registered.
    pub open(crate) spec fn registered4(self) -> bool {
        self.t4.spec_registered()
    }

    /// Whether live entity `id` has a first-column component.
    pub open(crate) spec fn has1(self, id: EntityId) -> bool {
        self.spec_is_alive(id) && self.t1.has_row(id.spec_slot())
    }

    /// Whether live entity `id` has a second-column component.
    pub open(crate) spec fn has2(self, id: EntityId) -> bool {
        self.spec_is_alive(id) && self.t2.has_row(id.spec_slot())
    }

    /// Whether live entity `id` has a third-column component.
    pub open(crate) spec fn has3(self, id: EntityId) -> bool {
        self.spec_is_alive(id) && self.t3.has_row(id.spec_slot())
    }

    /// Whether live entity `id` has a fourth-column component.
    pub open(crate) spec fn has4(self, id: EntityId) -> bool {
        self.spec_is_alive(id) && self.t4.has_row(id.spec_slot())
    }

    /// The first-column rows as a map from live identifier to value.
    pub open(crate) spec fn cmap1(self) -> Map<EntityId, C1> {
        Map::new(|id: EntityId| self.has1(id), |id: EntityId| self.t1.val_at(id.spec_slot()))
    }

    /// The second-column rows as a map from live identifier to value.
    pub open(crate) spec fn cmap2(self) -> Map<EntityId, C2> {
        Map::new(|id: EntityId| self.has2(id), |id: EntityId| self.t2.val_at(id.spec_slot()))
    }

    /// The third-column rows as a map from live identifier to value.
    pub open(crate) spec fn cmap3(self) -> Map<EntityId, C3> {
        Map::new(|id: EntityId| self.has3(id), |id: EntityId| self.t3.val_at(id.spec_slot()))
    }

    /// The fourth-column rows as a map from live identifier to value.
    pub open(crate) spec fn cmap4(self) -> Map<EntityId, C4> {
        Map::new(|id: EntityId| self.has4(id), |id: EntityId| self.t4.val_at(id.spec_slot()))
    }

    /// Internal consistency: tables cover exactly the slot range, and a
    /// row exists only at a live slot of a registered column.
    pub open(crate) spec fn wf(self) -> bool {
        &&& self.entities.wf()
        &&& self.t1.n_rows() == self.n_slots()
        &&& self.t2.n_rows() == self.n_slots()
        &&& self.t3.n_rows() == self.n_slots()
        &&& self.t4.n_rows() == self.n_slots()
        &&& forall|s: int|
            #[trigger] self.t1.has_row(s) ==> self.entities.alive_at(s)
                && self.t1.spec_registered()
        &&& forall|s: int|
            #[trigger] self.t2.has_row(s) ==> self.entities.alive_at(s)
                && self.t2.spec_registered()
        &&& forall|s: int|
            #[trigger] self.t3.has_row(s) ==> self.entities.alive_at(s)
                && self.t3.spec_registered()
        &&& forall|s: int|
            #[trigger] self.t4.has_row(s) ==> self.entities.alive_at(s)
                && self.t4.spec_registered()
    }

    /// A world with no entities and all columns unregistered.
    pub fn new() -> (w: World<C1, C2, C3, C4>)
        ensures
            w.wf(),
            w.n_slots() == 0,
            w.issued_ids() === Set::empty(),
            forall|id: EntityId| !w.spec_is_alive(id),
            !w.registered1() && !w.registered2() && !w.registered3() && !w.registered4(),
            w.cmap1() === Map::empty(),
            w.cmap2() === Map::empty(),
            w.cmap3() === Map::empty(),
            w.cmap4() === Map::empty(),
            w.can_create(),
    {
        let w = World {
            entities: EntityAllocator::new(),
            t1: ComponentTable::new(),
            t2: ComponentTable::new(),
            t3: ComponentTable::new(),
            t4: ComponentTable::new(),
        };
        proof {
            assert(w.cmap1() =~= Map::empty());
            assert(w.cmap2() =~= Map::empty());
            assert(w.cmap3() =~= Map::empty());
            assert(w.cmap4() =~= Map::empty());
        }
        w
    }

    /// True iff `id` names a currently live entity.
    pub fn is_alive(&self, id: EntityId) -> (r: bool)
        ensures
            r == self.spec_is_alive(id),
    {
        self.entities.is_alive(id)
    }

    /// Destroys a live entity: releases its identifier and eagerly purges
    /// its row from every component table, so no later query can reach
    /// data through `id`.  Destroying a dead identifier is a safe no-op.
    pub fn destroy(&mut self, id: EntityId)
        requires
            old(self).wf(),
        ensures
            final(self).wf(),
            !final(self).spec_is_alive(id),
            forall|id2: EntityId|
                id2 != id ==> final(self).spec_is_alive(id2) == #[trigger] old(
                    self,
                ).spec_is_alive(id2),
            old(self).spec_is_alive(id) ==> final(self).retired(id),
            forall|id2: EntityId| old(self).retired(id2) ==> #[trigger] final(self).retired(id2),
            final(self).issued_ids() === old(self).issued_ids(),
            final(self).n_slots() == old(self).n_slots(),
            old(self).can_create() ==> final(self).can_create(),
            final(self).cmap1() === old(self).cmap1().remove(id),
            final(self).cmap2() === old(self).cmap2().remove(id),
            final(self).cmap3() === old(self).cmap3().remove(id),
            final(self).cmap4() === old(self).cmap4().remove(id),
            final(self).registered1() == old(self).registered1(),
            final(self).registered2() == old(self).registered2(),
            final(self).registered3() == old(self).registered3(),
            final(self).registered4() == old(self).registered4(),
    {
        let ghost pre = *self;
        if self.entities.is_alive(id) {
            self.entities.release(id);
            self.t1.remove(id.slot);
            self.t2.remove(id.slot);
            self.t3.remove(id.slot);
            self.t4.remove(id.slot);
            proof {
                assert forall|s: int|
                    0 <= s < self.n_slots() && s != id.spec_slot() implies self.entities.alive_at(s)
                    == pre.entities.alive_at(s) by {
                    assert(pre.entities.gen_at(s) == self.entities.gen_at(s));
                }
                assert forall|s: int| #[trigger] self.t1.has_row(s) implies self.entities.alive_at(
                    s,
                ) && self.t1.spec_registered() by {
                    assert(s != id.spec_slot());
                    assert(pre.t1.has_row(s));
                }
                assert forall|s: int| #[trigger] self.t2.has_row(s) implies self.entities.alive_at(
                    s,
                ) && self.t2.spec_registered() by {
                    assert(s != id.spec_slot());
                    assert(pre.t2.has_row(s));
                }
                assert forall|s: int| #[trigger] self.t3.has_row(s) implies self.entities.alive_at(
                    s,
                ) && self.t3.spec_registered() by {
                    assert(s != id.spec_slot());
                    assert(pre.t3.has_row(s));
                }
                assert forall|s: int| #[trigger] self.t4.has_row(s) implies self.entities.alive_at(
                    s,
                ) && self.t4.spec_registered() by {
                    assert(s != id.spec_slot());
                    assert(pre.t4.has_row(s));
                }
                assert forall|id2: EntityId| true implies #[trigger] self.cmap1().contains_key(id2)
                    == pre.cmap1().remove(id).contains_key(id2) && (self.cmap1().contains_key(id2)
                    ==> self.cmap1()[id2] == pre.cmap1()[id2]) by {
                    if id2.slot == id.slot && id2 != id {
                        assert(!pre.spec_is_alive(id2));
                    }
                }
                assert(self.cmap1() =~= pre.cmap1().remove(id));
                assert forall|id2: EntityId| true implies #[trigger] self.cmap2().contains_key(id2)
                    == pre.cmap2().remove(id).contains_key(id2) && (self.cmap2().contains_key(id2)
                    ==> self.cmap2()[id2] == pre.cmap2()[id2]) by {
                    if id2.slot == id.slot && id2 != id {
                        assert(!pre.spec_is_alive(id2));
                    }
                }
                assert(self.cmap2() =~= pre.cmap2().remove(id));
                assert forall|id2: EntityId| true implies #[trigger] self.cmap3().contains_key(id2)
                    == pre.cmap3().remove(id).contains_key(id2) && (self.cmap3().contains_key(id2)
                    ==> self.cmap3()[id2] == pre.cmap3()[id2]) by {
                    if id2.slot == id.slot && id2 != id {
                        assert(!pre.spec_is_alive(id2));
                    }
                }
                assert(self.cmap3() =~= pre.cmap3().remove(id));
                assert forall|id2: EntityId| true implies #[trigger] self.cmap4().contains_key(id2)
                    == pre.cmap4().remove(id).contains_key(id2) && (self.cmap4().contains_key(id2)
                    ==> self.cmap4()[id2] == pre.cmap4()[id2]) by {
                    if id2.slot == id.slot && id2 != id {
                        assert(!pre.spec_is_alive(id2));
                    }
                }
                assert(self.cmap4() =~= pre.cmap4().remove(id));
            }
        } else {
            proof {
                assert(self.cmap1() =~= pre.cmap1().remove(id));
                assert(self.cmap2() =~= pre.cmap2().remove(id));
                assert(self.cmap3() =~= pre.cmap3().remove(id));
                assert(self.cmap4() =~= pre.cmap4().remove(id));
            }
        }
    }
}


impl<C1, C2, C3, C4> Default for World<C1, C2, C3, C4> {
    /// The same as `World::new`: no entities, all columns unregistered.
    fn default() -> (w: World<C1, C2, C3, C4>)
        ensures
            w.wf(),
            w.n_slots() == 0,
            w.issued_ids() === Set::empty(),
            forall|id: EntityId| !w.spec_is_alive(id),
            !w.registered1() && !w.registered2() && !w.registered3() && !w.registered4(),
            w.can_create(),
    {
        World::new()
    }
}

/// Value-level access to one column of the world, dispatched by a column
/// mark.  The four marks [`Col1`] .. [`Col4`] implement it; `register`,
/// `insert`, `remove` and the row accessors on [`World`] go through it.
pub trait Column<C1, C2, C3, C4>: Sized {
    /// The component type stored in this column.
    type Value;

    /// Whether this column is registered in `w`.
    spec fn registered(self, w: World<C1, C2, C3, C4>) -> bool;

    /// This column's rows, as a map from live identifier to value.
    spec fn cmap(self, w: World<C1, C2, C3, C4>) -> Map<EntityId, Self::Value>;

    /// The tables of every other column agree between `w1` and `w2`.
    spec fn others_same(self, w1: World<C1, C2, C3, C4>, w2: World<C1, C2, C3, C4>) -> bool;

    /// Idempotently ensures this column's table exists for use; rows,
    /// other columns and the entity state are untouched.
    fn register_in(&self, w: &mut World<C1, C2, C3, C4>)
        requires
            old(w).wf(),
        ensures
            final(w).wf(),
            self.registered(*final(w)),
            self.cmap(*final(w)) === self.cmap(*old(w)),
            self.others_same(*old(w), *final(w)),
            old(w).same_entities(*final(w));

    /// Adds or replaces the row of live entity `id` in this column.
    fn insert_into(&self, w: &mut World<C1, C2, C3, C4>, id: EntityId, value: Self::Value)
        requires
            old(w).wf(),
            old(w).spec_is_alive(id),
            self.registered(*old(w)),
        ensures
            final(w).wf(),
            self.cmap(*final(w)) === self.cmap(*old(w)).insert(id, value),
            self.registered(*final(w)),
            self.others_same(*old(w), *final(w)),
            old(w).same_entities(*final(w));

    /// Deletes the row of `id` in this column if present; no error if
    /// absent or if `id` is dead.
    fn remove_from(&self, w: &mut World<C1, C2, C3, C4>, id: EntityId)
        requires
            old(w).wf(),
        ensures
            final(w).wf(),
            self.cmap(*final(w)) === self.cmap(*old(w)).remove(id),
            self.registered(*final(w)) == self.registered(*old(w)),
            self.others_same(*old(w), *final(w)),
            old(w).same_entities(*final(w));

    /// Whether live entity `id` has a row in this column.
    fn has(&self, w: &World<C1, C2, C3, C4>, id: EntityId) -> (r: bool)
        requires
            w.wf(),
        ensures
            r == self.cmap(*w).contains_key(id);

    /// Read access to the row of `id`; the caller must have checked
    /// presence first.
    fn read<'a>(&self, w: &'a World<C1, C2, C3, C4>, id: EntityId) -> (r: &'a Self::Value)
        requires
            w.wf(),
            self.cmap(*w).contains_key(id),
        ensures
            *r == self.cmap(*w)[id];

    /// Exclusive access to the row of `id`; writes through the returned
    /// reference are visible to every later query of this column.
    fn read_mut<'a>(&self, w: &'a mut World<C1, C2, C3, C4>, id: EntityId) -> (r: &'a mut Self::Value)
        requires
            old(w).wf(),
            self.cmap(*old(w)).contains_key(id),
        ensures
            *r == self.cmap(*old(w))[id],
            final(w).wf(),
            self.cmap(*final(w)).contains_key(id),
            self.cmap(*final(w))[id] == *final(r),
            forall|id2: EntityId|
                id2 != id ==> #[trigger] self.cmap(*final(w)).contains_key(id2) == self.cmap(
                    *old(w),
                ).contains_key(id2),
            forall|id2: EntityId|
                id2 != id && self.cmap(*old(w)).contains_key(id2) ==> #[trigger] self.cmap(
                    *final(w),
                )[id2] == self.cmap(*old(w))[id2],
            self.registered(*final(w)) == self.registered(*old(w)),
            self.others_same(*old(w), *final(w)),
            old(w).same_entities(*final(w));
}

impl<C1, C2, C3, C4> Column<C1, C2, C3, C4> for Col1 {
    type Value = C1;

    open(crate) spec fn registered(self, w: World<C1, C2, C3, C4>) -> bool {
        w.registered1()
    }

    open(crate) spec fn cmap(self, w: World<C1, C2, C3, C4>) -> Map<EntityId, C1> {
        w.cmap1()
    }

    open(crate) spec fn others_same(self, w1: World<C1, C2, C3, C4>, w2: World<C1, C2, C3, C4>) -> bool {
        w1.t2 == w2.t2 && w1.t3 == w2.t3 && w1.t4 == w2.t4
    }

    fn register_in(&self, w: &mut World<C1, C2, C3, C4>) {
        w.t1.register();
        proof {
            assert forall|s: int| #[trigger] w.t1.has_row(s) implies w.entities.alive_at(s)
                && w.t1.spec_registered() by {
                assert(old(w).t1.has_row(s));
            }
            assert(self.cmap(*w) =~= self.cmap(*old(w)));
        }
    }

    fn insert_into(&self, w: &mut World<C1, C2, C3, C4>, id: EntityId, value: C1) {
        w.t1.insert(id.slot, value);
        proof {
            assert forall|s: int| #[trigger] w.t1.has_row(s) implies w.entities.alive_at(s)
                && w.t1.spec_registered() by {
                if s != id.spec_slot() {
                    assert(old(w).t1.has_row(s));
                }
            }
            assert forall|id2: EntityId| id2 != id && id2.spec_slot() == id.spec_slot() implies !w.cmap1(
            ).contains_key(id2) && !old(w).cmap1().contains_key(id2) by {
                assert(!w.spec_is_alive(id2));
            }
            assert(self.cmap(*w) =~= self.cmap(*old(w)).insert(id, value));
        }
    }

    fn remove_from(&self, w: &mut World<C1, C2, C3, C4>, id: EntityId) {
        let ghost pre = *w;
        if w.entities.is_alive(id) {
            w.t1.remove(id.slot);
            proof {
                assert forall|s: int| #[trigger] w.t1.has_row(s) implies w.entities.alive_at(s)
                    && w.t1.spec_registered() by {
                    assert(s != id.spec_slot());
                    assert(pre.t1.has_row(s));
                }
                assert forall|id2: EntityId| id2 != id && id2.spec_slot() == id.spec_slot() implies !w.cmap1(
                ).contains_key(id2) && !pre.cmap1().contains_key(id2) by {
                    assert(!w.spec_is_alive(id2));
                }
                assert(self.cmap(*w) =~= self.cmap(pre).remove(id));
            }
        } else {
            proof {
                assert(self.cmap(*w) =~= self.cmap(pre).remove(id));
            }
        }
    }

    fn has(&self, w: &World<C1, C2, C3, C4>, id: EntityId) -> (r: bool) {
        w.entities.is_alive(id) && w.t1.contains(id.slot)
    }

    fn read<'a>(&self, w: &'a World<C1, C2, C3, C4>, id: EntityId) -> (r: &'a C1) {
        w.t1.get(id.slot)
    }

    fn read_mut<'a>(&self, w: &'a mut World<C1, C2, C3, C4>, id: EntityId) -> (r: &'a mut C1) {
        w.t1.get_mut(id.slot)
    }
}

impl<C1, C2, C3, C4> Column<C1, C2, C3, C4> for Col2 {
    type Value = C2;

    open(crate) spec fn registered(self, w: World<C1, C2, C3, C4>) -> bool {
        w.registered2()
    }

    open(crate) spec fn cmap(self, w: World<C1, C2, C3, C4>) -> Map<EntityId, C2> {
        w.cmap2()
    }

    open(crate) spec fn others_same(self, w1: World<C1, C2, C3, C4>, w2: World<C1, C2, C3, C4>) -> bool {
        w1.t1 == w2.t1 && w1.t3 == w2.t3 && w1.t4 == w2.t4
    }

    fn register_in(&self, w: &mut World<C1, C2, C3, C4>) {
        w.t2.register();
        proof {
            assert forall|s: int| #[trigger] w.t2.has_row(s) implies w.entities.alive_at(s)
                && w.t2.spec_registered() by {
                assert(old(w).t2.has_row(s));
            }
            assert(self.cmap(*w) =~= self.cmap(*old(w)));
        }
    }

    fn insert_into(&self, w: &mut World<C1, C2, C3, C4>, id: EntityId, value: C2) {
        w.t2.insert(id.slot, value);
        proof {
            assert forall|s: int| #[trigger] w.t2.has_row(s) implies w.entities.alive_at(s)
                && w.t2.spec_registered() by {
                if s != id.spec_slot() {
                    assert(old(w).t2.has_row(s));
                }
            }
            assert forall|id2: EntityId| id2 != id && id2.spec_slot() == id.spec_slot() implies !w.cmap2(
            ).contains_key(id2) && !old(w).cmap2().contains_key(id2) by {
                assert(!w.spec_is_alive(id2));
            }
            assert(self.cmap(*w) =~= self.cmap(*old(w)).insert(id, value));
        }
    }

    fn remove_from(&self, w: &mut World<C1, C2, C3, C4>, id: EntityId) {
        let ghost pre = *w;
        if w.entities.is_alive(id) {
            w.t2.remove(id.slot);
            proof {
                assert forall|s: int| #[trigger] w.t2.has_row(s) implies w.entities.alive_at(s)
                    && w.t2.spec_registered() by {
                    assert(s != id.spec_slot());
                    assert(pre.t2.has_row(s));
                }
                assert forall|id2: EntityId| id2 != id && id2.spec_slot() == id.spec_slot() implies !w.cmap2(
                ).contains_key(id2) && !pre.cmap2().contains_key(id2) by {
                    assert(!w.spec_is_alive(id2));
                }
                assert(self.cmap(*w) =~= self.cmap(pre).remove(id));
            }
        } else {
            proof {
                assert(self.cmap(*w) =~= self.cmap(pre).remove(id));
            }
        }
    }

    fn has(&self, w: &World<C1, C2, C3, C4>, id: EntityId) -> (r: bool) {
        w.entities.is_alive(id) && w.t2.contains(id.slot)
    }

    fn read<'a>(&self, w: &'a World<C1, C2, C3, C4>, id: EntityId) -> (r: &'a C2) {
        w.t2.get(id.slot)
    }

    fn read_mut<'a>(&self, w: &'a mut World<C1, C2, C3, C4>, id: EntityId) -> (r: &'a mut C2) {
        w.t2.get_mut(id.slot)
    }
}

impl<C1, C2, C3, C4> Column<C1, C2, C3, C4> for Col3 {
    type Value = C3;

    open(crate) spec fn registered(self, w: World<C1, C2, C3, C4>) -> bool {
        w.registered3()
    }

    open(crate) spec fn cmap(self, w: World<C1, C2, C3, C4>) -> Map<EntityId, C3> {
        w.cmap3()
    }

    open(crate) spec fn others_same(self, w1: World<C1, C2, C3, C4>, w2: World<C1, C2, C3, C4>) -> bool {
        w1.t1 == w2.t1 && w1.t2 == w2.t2 && w1.t4 == w2.t4
    }

    fn register_in(&self, w: &mut World<C1, C2, C3, C4>) {
        w.t3.register();
        proof {
            assert forall|s: int| #[trigger] w.t3.has_row(s) implies w.entities.alive_at(s)
                && w.t3.spec_registered() by {
                assert(old(w).t3.has_row(s));
            }
            assert(self.cmap(*w) =~= self.cmap(*old(w)));
        }
    }

    fn insert_into(&self, w: &mut World<C1, C2, C3, C4>, id: EntityId, value: C3) {
        w.t3.insert(id.slot, value);
        proof {
            assert forall|s: int| #[trigger] w.t3.has_row(s) implies w.entities.alive_at(s)
                && w.t3.spec_registered() by {
                if s != id.spec_slot() {
                    assert(old(w).t3.has_row(s));
                }
            }
            assert forall|id2: EntityId| id2 != id && id2.spec_slot() == id.spec_slot() implies !w.cmap3(
            ).contains_key(id2) && !old(w).cmap3().contains_key(id2) by {
                assert(!w.spec_is_alive(id2));
            }
            assert(self.cmap(*w) =~= self.cmap(*old(w)).insert(id, value));
        }
    }

    fn remove_from(&self, w: &mut World<C1, C2, C3, C4>, id: EntityId) {
        let ghost pre = *w;
        if w.entities.is_alive(id) {
            w.t3.remove(id.slot);
            proof {
                assert forall|s: int| #[trigger] w.t3.has_row(s) implies w.entities.alive_at(s)
                    && w.t3.spec_registered() by {
                    assert(s != id.spec_slot());
                    assert(pre.t3.has_row(s));
                }
                assert forall|id2: EntityId| id2 != id && id2.spec_slot() == id.spec_slot() implies !w.cmap3(
                ).contains_key(id2) && !pre.cmap3().contains_key(id2) by {
                    assert(!w.spec_is_alive(id2));
                }
                assert(self.cmap(*w) =~= self.cmap(pre).remove(id));
            }
        } else {
            proof {
                assert(self.cmap(*w) =~= self.cmap(pre).remove(id));
            }
        }
    }

    fn has(&self, w: &World<C1, C2, C3, C4>, id: EntityId) -> (r: bool) {
        w.entities.is_alive(id) && w.t3.contains(id.slot)
    }

    fn read<'a>(&self, w: &'a World<C1, C2, C3, C4>, id: EntityId) -> (r: &'a C3) {
        w.t3.get(id.slot)
    }

    fn read_mut<'a>(&self, w: &'a mut World<C1, C2, C3, C4>, id: EntityId) -> (r: &'a mut C3) {
        w.t3.get_mut(id.slot)
    }
}

impl<C1, C2, C3, C4> Column<C1, C2, C3, C4> for Col4 {
    type Value = C4;

    open(crate) spec fn registered(self, w: World<C1, C2, C3, C4>) -> bool {
        w.registered4()
    }

    open(crate) spec fn cmap(self, w: World<C1, C2, C3, C4>) -> Map<EntityId, C4> {
        w.cmap4()
    }

    open(crate) spec fn others_same(self, w1: World<C1, C2, C3, C4>, w2: World<C1, C2, C3, C4>) -> bool {
        w1.t1 == w2.t1 && w1.t2 == w2.t2 && w1.t3 == w2.t3
    }

    fn register_in(&self, w: &mut World<C1, C2, C3, C4>) {
        w.t4.register();
        proof {
            assert forall|s: int| #[trigger] w.t4.has_row(s) implies w.entities.alive_at(s)
                && w.t4.spec_registered() by {
                assert(old(w).t4.has_row(s));
            }
            assert(self.cmap(*w) =~= self.cmap(*old(w)));
        }
    }

    fn insert_into(&self, w: &mut World<C1, C2, C3, C4>, id: EntityId, value: C4) {
        w.t4.insert(id.slot, value);
        proof {
            assert forall|s: int| #[trigger] w.t4.has_row(s) implies w.entities.alive_at(s)
                && w.t4.spec_registered() by {
                if s != id.spec_slot() {
                    assert(old(w).t4.has_row(s));
                }
            }
            assert forall|id2: EntityId| id2 != id && id2.spec_slot() == id.spec_slot() implies !w.cmap4(
            ).contains_key(id2) && !old(w).cmap4().contains_key(id2) by {
                assert(!w.spec_is_alive(id2));
            }
            assert(self.cmap(*w) =~= self.cmap(*old(w)).insert(id, value));
        }
    }

    fn remove_from(&self, w: &mut World<C1, C2, C3, C4>, id: EntityId) {
        let ghost pre = *w;
        if w.entities.is_alive(id) {
            w.t4.remove(id.slot);
            proof {
                assert forall|s: int| #[trigger] w.t4.has_row(s) implies w.entities.alive_at(s)
                    && w.t4.spec_registered() by {
                    assert(s != id.spec_slot());
                    assert(pre.t4.has_row(s));
                }
                assert forall|id2: EntityId| id2 != id && id2.spec_slot() == id.spec_slot() implies !w.cmap4(
                ).contains_key(id2) && !pre.cmap4().contains_key(id2) by {
                    assert(!w.spec_is_alive(id2));
                }
                assert(self.cmap(*w) =~= self.cmap(pre).remove(id));
            }
        } else {
            proof {
                assert(self.cmap(*w) =~= self.cmap(pre).remove(id));
            }
        }
    }

    fn has(&self, w: &World<C1, C2, C3, C4>, id: EntityId) -> (r: bool) {
        w.entities.is_alive(id) && w.t4.contains(id.slot)
    }

    fn read<'a>(&self, w: &'a World<C1, C2, C3, C4>, id: EntityId) -> (r: &'a C4) {
        w.t4.get(id.slot)
    }

    fn read_mut<'a>(&self, w: &'a mut World<C1, C2, C3, C4>, id: EntityId) -> (r: &'a mut C4) {
        w.t4.get_mut(id.slot)
    }
}


impl<C1, C2, C3, C4> World<C1, C2, C3, C4> {
    /// Idempotently ensures a table for the column named by `col` exists.
    /// Registering an already-registered column is a no-op.
    pub fn register_component<K: Column<C1, C2, C3, C4>>(&mut self, col: K)
        requires
            old(self).wf(),
        ensures
            final(self).wf(),
            col.registered(*final(self)),
            col.cmap(*final(self)) === col.cmap(*old(self)),
            col.others_same(*old(self), *final(self)),
            old(self).same_entities(*final(self)),
    {
        col.register_in(self);
    }

    /// Adds or replaces the row of live entity `id` in column `col`.
    pub fn insert<K: Column<C1, C2, C3, C4>>(&mut self, col: K, id: EntityId, value: K::Value)
        requires
            old(self).wf(),
            old(self).spec_is_alive(id),
            col.registered(*old(self)),
        ensures
            final(self).wf(),
            col.cmap(*final(self)) === col.cmap(*old(self)).insert(id, value),
            col.registered(*final(self)),
            col.others_same(*old(self), *final(self)),
            old(self).same_entities(*final(self)),
    {
        col.insert_into(self, id, value);
    }

    /// Deletes the row of `id` in column `col` if present; no error if
    /// absent.
    pub fn remove<K: Column<C1, C2, C3, C4>>(&mut self, col: K, id: EntityId)
        requires
            old(self).wf(),
        ensures
            final(self).wf(),
            col.cmap(*final(self)) === col.cmap(*old(self)).remove(id),
            col.registered(*final(self)) == col.registered(*old(self)),
            col.others_same(*old(self), *final(self)),
            old(self).same_entities(*final(self)),
    {
        col.remove_from(self, id);
    }

    /// Whether live entity `id` has a component in column `col`; the
    /// building block of query filtering.
    pub fn contains<K: Column<C1, C2, C3, C4>>(&self, col: K, id: EntityId) -> (r: bool)
        requires
            self.wf(),
        ensures
            r == col.cmap(*self).contains_key(id),
    {
        col.has(self, id)
    }

    /// Read access to `id`'s row in column `col`; the caller must have
    /// checked presence first.
    pub fn get<'a, K: Column<C1, C2, C3, C4>>(&'a self, col: K, id: EntityId) -> (r: &'a K::Value)
        requires
            self.wf(),
            col.cmap(*self).contains_key(id),
        ensures
            *r == col.cmap(*self)[id],
    {
        col.read(self, id)
    }

    /// Exclusive access to `id`'s row in column `col`; writes through the
    /// returned reference are visible to every later query.
    pub fn get_mut<'a, K: Column<C1, C2, C3, C4>>(&'a mut self, col: K, id: EntityId) -> (r: &'a mut K::Value)
        requires
            old(self).wf(),
            col.cmap(*old(self)).contains_key(id),
        ensures
            *r == col.cmap(*old(self))[id],
            final(self).wf(),
            col.cmap(*final(self)).contains_key(id),
            col.cmap(*final(self))[id] == *final(r),
            forall|id2: EntityId|
                id2 != id ==> #[trigger] col.cmap(*final(self)).contains_key(id2) == col.cmap(
                    *old(self),
                ).contains_key(id2),
            forall|id2: EntityId|
                id2 != id && col.cmap(*old(self)).contains_key(id2) ==> #[trigger] col.cmap(
                    *final(self),
                )[id2] == col.cmap(*old(self))[id2],
            col.registered(*final(self)) == col.registered(*old(self)),
            col.others_same(*old(self), *final(self)),
            old(self).same_entities(*final(self)),
    {
        col.read_mut(self, id)
    }
}


impl<C1, C2, C3, C4> World<C1, C2, C3, C4> {
    /// The results a query over slots `0 .. n` yields: the shape's value
    /// for every live entity the filter accepts and the shape matches, in
    /// slot order.
    pub open(crate) spec fn spec_query_upto<S: Shape<C1, C2, C3, C4>, F: EntityMapFilter>(
        self,
        shape: S,
        f: F,
        n: int,
    ) -> Seq<S::Output>
        decreases n,
    {
        if n <= 0 {
            Seq::empty()
        } else {
            let prefix = self.spec_query_upto(shape, f, n - 1);
            let id = self.slot_id(n - 1);
            if self.entities.alive_at(n - 1) && f.spec_filter(id) && shape.spec_matches(self, id) {
                prefix.push(shape.spec_value(self, id))
            } else {
                prefix
            }
        }
    }

    /// Everything a query over the whole world yields.
    pub open(crate) spec fn spec_query<S: Shape<C1, C2, C3, C4>, F: EntityMapFilter>(
        self,
        shape: S,
        f: F,
    ) -> Seq<S::Output> {
        self.spec_query_upto(shape, f, self.n_slots())
    }

    /// Everything `components` yields: a query without an entity filter.
    pub open(crate) spec fn spec_components<S: Shape<C1, C2, C3, C4>>(self, shape: S) -> Seq<
        S::Output,
    > {
        self.spec_query_upto(shape, AnyEntity, self.n_slots())
    }

    /// What `entries` yields for the candidate list `ids`: the shape's
    /// value of each listed entity that is alive and satisfies the shape,
    /// in list order.
    pub open(crate) spec fn spec_entries<S: Shape<C1, C2, C3, C4>>(
        self,
        shape: S,
        ids: Seq<EntityId>,
    ) -> Seq<S::Output>
        decreases ids.len(),
    {
        if ids.len() == 0 {
            Seq::empty()
        } else {
            let prefix = self.spec_entries(shape, ids.drop_last());
            let id = ids.last();
            if self.spec_is_alive(id) && shape.spec_matches(self, id) {
                prefix.push(shape.spec_value(self, id))
            } else {
                prefix
            }
        }
    }

    /// Iterates all live entities, keeps those accepted by the
    /// entity-level filter and satisfying the shape, and yields each
    /// one's value, in slot order.
    pub fn query<S: Shape<C1, C2, C3, C4>, F: EntityMapFilter>(
        &self,
        shape: S,
        entity_filter: &F,
    ) -> (r: Vec<S::Output>)
        requires
            self.wf(),
        ensures
            r@ === self.spec_query(shape, *entity_filter),
    {
        let mut out: Vec<S::Output> = Vec::new();
        let n = self.entities.slots.len();
        let mut s: usize = 0;
        while s < n
            invariant
                self.wf(),
                n == self.n_slots(),
                0 <= s <= n,
                out@ === self.spec_query_upto(shape, *entity_filter, s as int),
            decreases n - s,
        {
            if self.entities.slots[s].alive {
                let id = EntityId { slot: s, generation: self.entities.slots[s].generation };
                proof {
                    assert(id == self.slot_id(s as int));
                }
                if entity_filter.filter(id) && shape.matches(self, id) {
                    out.push(shape.value(self, id));
                }
            }
            s = s + 1;
        }
        out
    }

    /// Iterates all live entities satisfying the shape and yields each
    /// one's value, in slot order: a query without an entity filter.
    pub fn components<S: Shape<C1, C2, C3, C4>>(&self, shape: S) -> (r: Vec<S::Output>)
        requires
            self.wf(),
        ensures
            r@ === self.spec_components(shape),
    {
        self.query(shape, &AnyEntity)
    }

    /// Like `components`, but restricted up front to the caller-supplied
    /// candidate list: dead or non-satisfying entries are skipped.
    pub fn entries<S: Shape<C1, C2, C3, C4>>(&self, shape: S, ids: &Vec<EntityId>) -> (r: Vec<
        S::Output,
    >)
        requires
            self.wf(),
        ensures
            r@ === self.spec_entries(shape, ids@),
    {
        let mut out: Vec<S::Output> = Vec::new();
        let n = ids.len();
        let mut i: usize = 0;
        while i < n
            invariant
                self.wf(),
                n == ids@.len(),
                0 <= i <= n,
                out@ === self.spec_entries(shape, ids@.take(i as int)),
            decreases n - i,
        {
            let id = ids[i];
            proof {
                assert(ids@.take(i as int + 1).drop_last() =~= ids@.take(i as int));
                assert(ids@.take(i as int + 1).last() == id);
            }
            if self.entities.is_alive(id) && shape.matches(self, id) {
                out.push(shape.value(self, id));
            }
            i = i + 1;
        }
        proof {
            assert(ids@.take(n as int) =~= ids@);
        }
        out
    }

    /// Fetches the shape for exactly one entity.  The caller must know
    /// that `id` satisfies the shape; the bulk surfaces are the checked
    /// front door.
    pub fn entry<S: Shape<C1, C2, C3, C4>>(&self, shape: S, id: EntityId) -> (out: S::Output)
        requires
            self.wf(),
            shape.spec_matches(*self, id),
        ensures
            out == shape.spec_value(*self, id),
    {
        shape.value(self, id)
    }
}


/// The pairs `(q[i], q[k])` for `k` ranging over `j .. q.len()`.
pub open(crate) spec fn id_row_pairs(q: Seq<EntityId>, i: int, j: int) -> Seq<(EntityId, EntityId)>
    decreases q.len() - j,
{
    if !(0 <= i < q.len()) || !(0 <= j < q.len()) {
        Seq::empty()
    } else {
        seq![(q[i], q[j])] + id_row_pairs(q, i, j + 1)
    }
}

/// Every pair `(q[a], q[b])` with `a < b`, ordered with the first index
/// outer: all pairs led by `q[i]`, then all pairs among the rest.
pub open(crate) spec fn id_pairs_from(q: Seq<EntityId>, i: int) -> Seq<(EntityId, EntityId)>
    decreases q.len() - i,
{
    if !(0 <= i < q.len()) {
        Seq::empty()
    } else {
        id_row_pairs(q, i, i + 1) + id_pairs_from(q, i + 1)
    }
}

/// Every unordered pair of distinct positions of `q`, in deterministic
/// order.
pub open(crate) spec fn spec_id_pairs(q: Seq<EntityId>) -> Seq<(EntityId, EntityId)> {
    id_pairs_from(q, 0)
}

impl<C1, C2, C3, C4> World<C1, C2, C3, C4> {
    /// The live entities among slots `0 .. n` satisfying the shape, in
    /// slot order.
    pub open(crate) spec fn spec_matching_upto<S: Shape<C1, C2, C3, C4>>(
        self,
        shape: S,
        n: int,
    ) -> Seq<EntityId>
        decreases n,
    {
        if n <= 0 {
            Seq::empty()
        } else {
            let prefix = self.spec_matching_upto(shape, n - 1);
            let id = self.slot_id(n - 1);
            if self.entities.alive_at(n - 1) && shape.spec_matches(self, id) {
                prefix.push(id)
            } else {
                prefix
            }
        }
    }

    /// All live entities satisfying the shape, in slot order.
    pub open(crate) spec fn spec_matching<S: Shape<C1, C2, C3, C4>>(self, shape: S) -> Seq<
        EntityId,
    > {
        self.spec_matching_upto(shape, self.n_slots())
    }

    /// Every element of the matching sequence is a live entity that
    /// satisfies the shape, and slots strictly increase along it.
    pub proof fn lemma_matching_props<S: Shape<C1, C2, C3, C4>>(self, shape: S, n: int)
        requires
            0 <= n <= self.n_slots(),
        ensures
            forall|k: int|
                0 <= k < self.spec_matching_upto(shape, n).len() ==> self.spec_is_alive(
                    #[trigger] self.spec_matching_upto(shape, n)[k],
                ) && shape.spec_matches(self, self.spec_matching_upto(shape, n)[k])
                    && self.spec_matching_upto(shape, n)[k].spec_slot() < n,
            forall|k1: int, k2: int|
                0 <= k1 < k2 < self.spec_matching_upto(shape, n).len() ==> self.spec_matching_upto(
                    shape,
                    n,
                )[k1].spec_slot() < self.spec_matching_upto(shape, n)[k2].spec_slot(),
        decreases n,
    {
        vstd::std_specs::vec::axiom_spec_len(&self.entities.slots);
        if n > 0 {
            self.lemma_matching_props(shape, n - 1);
            let prev = self.spec_matching_upto(shape, n - 1);
            let cur = self.spec_matching_upto(shape, n);
            let id = self.slot_id(n - 1);
            if self.entities.alive_at(n - 1) && shape.spec_matches(self, id) {
                assert(id.spec_slot() == n - 1);
                assert(cur == prev.push(id));
                assert(cur[prev.len() as int] == id);
                assert(forall|k: int| 0 <= k < prev.len() ==> cur[k] == #[trigger] prev[k]);
            } else {
                assert(cur == prev);
            }
        }
    }

    /// Membership in the matching sequence is exactly liveness plus
    /// satisfaction of the shape.
    pub proof fn lemma_matching_contains<S: Shape<C1, C2, C3, C4>>(
        self,
        shape: S,
        n: int,
        id: EntityId,
    )
        requires
            0 <= n <= self.n_slots(),
        ensures
            self.spec_matching_upto(shape, n).contains(id) <==> (id.spec_slot() < n
                && self.spec_is_alive(id) && shape.spec_matches(self, id)),
        decreases n,
    {
        vstd::std_specs::vec::axiom_spec_len(&self.entities.slots);
        if n > 0 {
            self.lemma_matching_contains(shape, n - 1, id);
            let prev = self.spec_matching_upto(shape, n - 1);
            let last = self.slot_id(n - 1);
            if self.entities.alive_at(n - 1) && shape.spec_matches(self, last) {
                assert(last.spec_slot() == n - 1);
                assert(self.spec_matching_upto(shape, n) == prev.push(last));
                vstd::seq_lib::lemma_seq_contains_after_push(prev, last, id);
                if id == last {
                    assert(self.spec_is_alive(id));
                }
            } else {
                assert(self.spec_matching_upto(shape, n) == prev);
                if id.spec_slot() < n && self.spec_is_alive(id) && shape.spec_matches(self, id) {
                    assert(id.spec_slot() != n - 1);
                }
            }
        }
    }

    /// The live entities satisfying the shape, in slot order.
    fn matching_ids<S: Shape<C1, C2, C3, C4>>(&self, shape: &S) -> (r: Vec<EntityId>)
        requires
            self.wf(),
        ensures
            r@ === self.spec_matching(*shape),
    {
        let mut out: Vec<EntityId> = Vec::new();
        let n = self.entities.slots.len();
        let mut s: usize = 0;
        while s < n
            invariant
                self.wf(),
                n == self.n_slots(),
                0 <= s <= n,
                out@ === self.spec_matching_upto(*shape, s as int),
            decreases n - s,
        {
            if self.entities.slots[s].alive {
                let id = EntityId { slot: s, generation: self.entities.slots[s].generation };
                proof {
                    assert(id == self.slot_id(s as int));
                }
                if shape.matches(self, id) {
                    out.push(id);
                }
            }
            s = s + 1;
        }
        out
    }

    /// Yields every unordered pair of distinct live entities that both
    /// satisfy the shape, each value fetched independently; an entity is
    /// never paired with itself.  Pair order is deterministic: ordered by
    /// the slot of the first member, then of the second.
    pub fn combinations<S: Shape<C1, C2, C3, C4>>(&self, shape: S) -> (r: Vec<
        (S::Output, S::Output),
    >)
        requires
            self.wf(),
        ensures
            r@.len() == spec_id_pairs(self.spec_matching(shape)).len(),
            forall|k: int|
                0 <= k < r@.len() ==> #[trigger] r@[k] === (
                    shape.spec_value(*self, spec_id_pairs(self.spec_matching(shape))[k].0),
                    shape.spec_value(*self, spec_id_pairs(self.spec_matching(shape))[k].1),
                ),
    {
        let ids = self.matching_ids(&shape);
        let ghost q = ids@;
        proof {
            self.lemma_matching_props(shape, self.n_slots());
        }
        let mut out: Vec<(S::Output, S::Output)> = Vec::new();
        let ghost mut done: Seq<(EntityId, EntityId)> = Seq::empty();
        let n = ids.len();
        let mut i: usize = 0;
        while i < n
            invariant
                self.wf(),
                q == ids@,
                q === self.spec_matching(shape),
                forall|k: int|
                    0 <= k < q.len() ==> self.spec_is_alive(#[trigger] q[k]) && shape.spec_matches(
                        *self,
                        q[k],
                    ),
                n == q.len(),
                0 <= i <= n,
                spec_id_pairs(q) === done + id_pairs_from(q, i as int),
                out@.len() == done.len(),
                forall|k: int|
                    0 <= k < done.len() ==> #[trigger] out@[k] === (
                        shape.spec_value(*self, done[k].0),
                        shape.spec_value(*self, done[k].1),
                    ),
            decreases n - i,
        {
            let mut j: usize = i + 1;
            proof {
                assert(id_pairs_from(q, i as int) === id_row_pairs(q, i as int, i as int + 1)
                    + id_pairs_from(q, i as int + 1));
                assert(done + (id_row_pairs(q, i as int, i as int + 1) + id_pairs_from(
                    q,
                    i as int + 1,
                )) =~= done + id_row_pairs(q, i as int, i as int + 1) + id_pairs_from(
                    q,
                    i as int + 1,
                ));
            }
            while j < n
                invariant
                    self.wf(),
                    q == ids@,
                    q === self.spec_matching(shape),
                    forall|k: int|
                        0 <= k < q.len() ==> self.spec_is_alive(#[trigger] q[k])
                            && shape.spec_matches(*self, q[k]),
                    n == q.len(),
                    0 <= i < n,
                    i + 1 <= j <= n,
                    spec_id_pairs(q) === done + id_row_pairs(q, i as int, j as int)
                        + id_pairs_from(q, i as int + 1),
                    out@.len() == done.len(),
                    forall|k: int|
                        0 <= k < done.len() ==> #[trigger] out@[k] === (
                            shape.spec_value(*self, done[k].0),
                            shape.spec_value(*self, done[k].1),
                        ),
                decreases n - j,
            {
                let a = ids[i];
                let b = ids[j];
                let va = shape.value(self, a);
                let vb = shape.value(self, b);
                out.push((va, vb));
                proof {
                    assert(id_row_pairs(q, i as int, j as int) === seq![(a, b)] + id_row_pairs(
                        q,
                        i as int,
                        j as int + 1,
                    ));
                    assert(done + (seq![(a, b)] + id_row_pairs(q, i as int, j as int + 1)) =~= (done
                        + seq![(a, b)]) + id_row_pairs(q, i as int, j as int + 1));
                    assert(done + seq![(a, b)] =~= done.push((a, b)));
                    done = done.push((a, b));
                }
                j = j + 1;
            }
            proof {
                assert(id_row_pairs(q, i as int, j as int) === Seq::empty());
                assert(done + Seq::<(EntityId, EntityId)>::empty() =~= done);
            }
            i = i + 1;
        }
        proof {
            assert(id_pairs_from(q, i as int) === Seq::empty());
            assert(done + Seq::<(EntityId, EntityId)>::empty() =~= done);
        }
        out
    }
}


impl<C1, C2, C3, C4> World<C1, C2, C3, C4> {
    /// Tuple-AND query semantics, pointwise: `components` yields one
    /// result per matching live entity, in slot order; the k-th result
    /// is the shape's value at the k-th matching entity.  Which entities
    /// match a tuple shape is the logical AND of its parts.
    pub proof fn lemma_components_pointwise<S: Shape<C1, C2, C3, C4>>(self, shape: S, n: int)
        requires
            0 <= n <= self.n_slots(),
        ensures
            self.spec_query_upto(shape, AnyEntity, n).len() == self.spec_matching_upto(
                shape,
                n,
            ).len(),
            forall|k: int|
                0 <= k < self.spec_matching_upto(shape, n).len() ==> #[trigger] self.spec_query_upto(
                    shape,
                    AnyEntity,
                    n,
                )[k] === shape.spec_value(self, self.spec_matching_upto(shape, n)[k]),
        decreases n,
    {
        if n > 0 {
            self.lemma_components_pointwise(shape, n - 1);
            let prev_q = self.spec_query_upto(shape, AnyEntity, n - 1);
            let prev_m = self.spec_matching_upto(shape, n - 1);
            let id = self.slot_id(n - 1);
            if self.entities.alive_at(n - 1) && shape.spec_matches(self, id) {
                assert(self.spec_query_upto(shape, AnyEntity, n) === prev_q.push(
                    shape.spec_value(self, id),
                ));
                assert(self.spec_matching_upto(shape, n) === prev_m.push(id));
            }
        }
    }
}


impl<C1, C2, C3, C4> World<C1, C2, C3, C4> {
    /// Every live identifier was issued by this world's allocator.
    pub proof fn lemma_alive_was_issued(self, id: EntityId)
        requires
            self.wf(),
            self.spec_is_alive(id),
        ensures
            self.issued_ids().contains(id),
    {
        assert(self.entities.alive_at(id.spec_slot()));
        assert(self.entities.issued@.contains(
            (EntityId {
                slot: id.slot,
                generation: self.entities.slots@[id.spec_slot()].generation,
            }),
        ));
    }

    /// Two worlds with the same entity state agree on every column map
    /// whose table they share.
    pub proof fn lemma_same_parts_same_cmaps(w1: World<C1, C2, C3, C4>, w2: World<C1, C2, C3, C4>)
        requires
            w1.same_entities(w2),
        ensures
            w1.tbl1() == w2.tbl1() ==> w1.cmap1() === w2.cmap1(),
            w1.tbl2() == w2.tbl2() ==> w1.cmap2() === w2.cmap2(),
            w1.tbl3() == w2.tbl3() ==> w1.cmap3() === w2.cmap3(),
            w1.tbl4() == w2.tbl4() ==> w1.cmap4() === w2.cmap4(),
    {
        if w1.t1 == w2.t1 {
            assert(w1.cmap1() =~= w2.cmap1());
        }
        if w1.t2 == w2.t2 {
            assert(w1.cmap2() =~= w2.cmap2());
        }
        if w1.t3 == w2.t3 {
            assert(w1.cmap3() =~= w2.cmap3());
        }
        if w1.t4 == w2.t4 {
            assert(w1.cmap4() =~= w2.cmap4());
        }
    }
}

} // verus!
