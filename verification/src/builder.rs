//! Scoped, transactional entity construction.
//!
//! `World::create` reserves a fresh entity and moves the world into an
//! [`EntityBuilder`].  Components are attached with `with` / `maybe_with`;
//! `build` commits the entity and hands the world back, while `abandon`
//! rolls the reservation back so a half-built entity is never observable
//! by any query.  While the builder lives, the world is inaccessible, so
//! no query can see the entity under construction.

use vstd::prelude::*;

use crate::entity::EntityId;
use crate::world::Column;
use crate::world::World;

verus! {

/// A short-lived handle through which a freshly allocated entity's
/// component set is assembled before the entity is committed.
#[must_use]
pub struct EntityBuilder<C1, C2, C3, C4> {
    pub(crate) world: World<C1, C2, C3, C4>,
    pub(crate) entity: EntityId,
}

impl<C1, C2, C3, C4> EntityBuilder<C1, C2, C3, C4> {
    /// The world travelling inside the builder.
    pub open(crate) spec fn spec_world(self) -> World<C1, C2, C3, C4> {
        self.world
    }

    /// The entity under construction.
    pub open(crate) spec fn spec_entity(self) -> EntityId {
        self.entity
    }

    /// The carried world is consistent and owns the reserved entity.
    pub open(crate) spec fn wf(self) -> bool {
        self.world.wf() && self.world.spec_is_alive(self.entity)
    }

    /// A builder bound to a freshly allocated, still-owned entity.
    pub fn new(world: World<C1, C2, C3, C4>, entity: EntityId) -> (b: EntityBuilder<C1, C2, C3, C4>)
        requires
            world.wf(),
            world.spec_is_alive(entity),
        ensures
            b.wf(),
            b.spec_world() === world,
            b.spec_entity() == entity,
    {
        EntityBuilder { world, entity }
    }

    /// Attaches a component to the entity under construction; chainable.
    pub fn with<K: Column<C1, C2, C3, C4>>(self, col: K, component: K::Value) -> (b: EntityBuilder<
        C1,
        C2,
        C3,
        C4,
    >)
        requires
            self.wf(),
            col.registered(self.spec_world()),
        ensures
            b.wf(),
            b.spec_entity() == self.spec_entity(),
            col.cmap(b.spec_world()) === col.cmap(self.spec_world()).insert(
                self.spec_entity(),
                component,
            ),
            col.registered(b.spec_world()),
            col.others_same(self.spec_world(), b.spec_world()),
            self.spec_world().same_entities(b.spec_world()),
    {
        let EntityBuilder { mut world, entity } = self;
        col.insert_into(&mut world, entity, component);
        EntityBuilder { world, entity }
    }

    /// Attaches a component only when one is given; chainable.
    pub fn maybe_with<K: Column<C1, C2, C3, C4>>(self, col: K, component: Option<K::Value>) -> (b:
        EntityBuilder<C1, C2, C3, C4>)
        requires
            self.wf(),
            component is Some ==> col.registered(self.spec_world()),
        ensures
            b.wf(),
            b.spec_entity() == self.spec_entity(),
            component is Some ==> col.cmap(b.spec_world()) === col.cmap(self.spec_world()).insert(
                self.spec_entity(),
                component->Some_0,
            ) && col.registered(b.spec_world()) && col.others_same(self.spec_world(), b.spec_world())
                && self.spec_world().same_entities(b.spec_world()),
            component is None ==> b.spec_world() === self.spec_world(),
    {
        match component {
            Some(component) => self.with(col, component),
            None => self,
        }
    }

    /// Marks construction complete: hands back the world and the now
    /// finalized identifier, indistinguishable from any other live
    /// entity.
    pub fn build(self) -> (r: (World<C1, C2, C3, C4>, EntityId))
        requires
            self.wf(),
        ensures
            r.0 === self.spec_world(),
            r.1 == self.spec_entity(),
            r.0.wf(),
            r.0.spec_is_alive(r.1),
    {
        let EntityBuilder { world, entity } = self;
        (world, entity)
    }

    /// Rolls the construction back: releases the reserved entity and
    /// purges whatever was attached, so the identifier never becomes
    /// observable as a live entity.
    pub fn abandon(self) -> (w: World<C1, C2, C3, C4>)
        requires
            self.wf(),
        ensures
            w.wf(),
            !w.spec_is_alive(self.spec_entity()),
            w.retired(self.spec_entity()),
            forall|id2: EntityId|
                id2 != self.spec_entity() ==> w.spec_is_alive(id2)
                    == #[trigger] self.spec_world().spec_is_alive(id2),
            w.issued_ids() === self.spec_world().issued_ids(),
            w.cmap1() === self.spec_world().cmap1().remove(self.spec_entity()),
            w.cmap2() === self.spec_world().cmap2().remove(self.spec_entity()),
            w.cmap3() === self.spec_world().cmap3().remove(self.spec_entity()),
            w.cmap4() === self.spec_world().cmap4().remove(self.spec_entity()),
            w.registered1() == self.spec_world().registered1(),
            w.registered2() == self.spec_world().registered2(),
            w.registered3() == self.spec_world().registered3(),
            w.registered4() == self.spec_world().registered4(),
    {
        let EntityBuilder { mut world, entity } = self;
        world.destroy(entity);
        world
    }
}

impl<C1, C2, C3, C4> World<C1, C2, C3, C4> {
    /// Allocates a new entity and returns a scoped builder bound to it.
    /// The world travels inside the builder until `build` or `abandon`
    /// hands it back; the fresh identifier differs from every identifier
    /// this world ever issued.
    pub fn create(self) -> (b: EntityBuilder<C1, C2, C3, C4>)
        requires
            self.wf(),
            self.can_create(),
        ensures
            b.wf(),
            !self.issued_ids().contains(b.spec_entity()),
            b.spec_world().issued_ids() === self.issued_ids().insert(b.spec_entity()),
            b.spec_world().spec_is_alive(b.spec_entity()),
            forall|id2: EntityId|
                id2 != b.spec_entity() ==> b.spec_world().spec_is_alive(id2) == #[trigger] self.spec_is_alive(
                    id2,
                ),
            forall|id2: EntityId| self.retired(id2) ==> #[trigger] b.spec_world().retired(id2),
            b.spec_world().cmap1() === self.cmap1(),
            b.spec_world().cmap2() === self.cmap2(),
            b.spec_world().cmap3() === self.cmap3(),
            b.spec_world().cmap4() === self.cmap4(),
            b.spec_world().registered1() == self.registered1(),
            b.spec_world().registered2() == self.registered2(),
            b.spec_world().registered3() == self.registered3(),
            b.spec_world().registered4() == self.registered4(),
            self.n_slots() <= b.spec_world().n_slots() <= self.n_slots() + 1,
    {
        let mut w = self;
        let ghost pre = w;
        let entity = w.entities.allocate();
        if w.t1.rows.len() < w.entities.slots.len() {
            w.t1.grow();
        }
        if w.t2.rows.len() < w.entities.slots.len() {
            w.t2.grow();
        }
        if w.t3.rows.len() < w.entities.slots.len() {
            w.t3.grow();
        }
        if w.t4.rows.len() < w.entities.slots.len() {
            w.t4.grow();
        }
        proof {
            assert forall|s: int| #[trigger] w.t1.has_row(s) implies w.entities.alive_at(s)
                && w.t1.spec_registered() by {
                assert(pre.t1.has_row(s));
                assert(s != entity.spec_slot() || pre.entities.alive_at(s));
            }
            assert forall|s: int| #[trigger] w.t2.has_row(s) implies w.entities.alive_at(s)
                && w.t2.spec_registered() by {
                assert(pre.t2.has_row(s));
                assert(s != entity.spec_slot() || pre.entities.alive_at(s));
            }
            assert forall|s: int| #[trigger] w.t3.has_row(s) implies w.entities.alive_at(s)
                && w.t3.spec_registered() by {
                assert(pre.t3.has_row(s));
                assert(s != entity.spec_slot() || pre.entities.alive_at(s));
            }
            assert forall|s: int| #[trigger] w.t4.has_row(s) implies w.entities.alive_at(s)
                && w.t4.spec_registered() by {
                assert(pre.t4.has_row(s));
                assert(s != entity.spec_slot() || pre.entities.alive_at(s));
            }
            if entity.spec_slot() < pre.n_slots() && pre.entities.alive_at(entity.spec_slot()) {
                assert(pre.entities.gen_at(entity.spec_slot()) == w.entities.gen_at(
                    entity.spec_slot(),
                ));
                assert(pre.spec_is_alive(entity));
                assert(pre.issued_ids().contains(entity));
                assert(false);
            }
            assert forall|id2: EntityId| id2.spec_slot() == entity.spec_slot() implies !pre.has1(
                id2,
            ) && !w.has1(id2) && !pre.has2(id2) && !w.has2(id2) && !pre.has3(id2) && !w.has3(id2)
                && !pre.has4(id2) && !w.has4(id2) by {
                assert(!pre.t1.has_row(id2.spec_slot()));
                assert(!pre.t2.has_row(id2.spec_slot()));
                assert(!pre.t3.has_row(id2.spec_slot()));
                assert(!pre.t4.has_row(id2.spec_slot()));
            }
            assert(w.cmap1() =~= pre.cmap1());
            assert(w.cmap2() =~= pre.cmap2());
            assert(w.cmap3() =~= pre.cmap3());
            assert(w.cmap4() =~= pre.cmap4());
        }
        EntityBuilder::new(w, entity)
    }
}

} // verus!
