//! Entity-level predicates used by `World::query`.

use vstd::prelude::*;

use crate::entity::EntityId;

verus! {

/// An entity-level predicate handed to [`crate::World::query`] to narrow
/// the candidate set before the shape itself is tested.
pub trait EntityMapFilter: Sized {
    /// Which entities the predicate accepts.
    spec fn spec_filter(self, entity: EntityId) -> bool;

    /// Decides `entity`; agrees exactly with `spec_filter`.
    fn filter(&self, entity: EntityId) -> (r: bool)
        ensures
            r == self.spec_filter(entity),
    ;
}

/// Accepts exactly one entity.
pub struct IsEntity {
    pub(crate) entity: EntityId,
}

impl IsEntity {
    /// The entity this filter accepts.
    pub open(crate) spec fn spec_entity(self) -> EntityId {
        self.entity
    }

    /// A filter accepting `entity` alone.
    pub fn new(entity: EntityId) -> (f: IsEntity)
        ensures
            f.spec_entity() == entity,
    {
        IsEntity { entity }
    }
}

impl EntityMapFilter for IsEntity {
    open(crate) spec fn spec_filter(self, entity: EntityId) -> bool {
        entity == self.entity
    }

    fn filter(&self, entity: EntityId) -> (r: bool) {
        entity == self.entity
    }
}

/// Accepts every entity but one.
pub struct IsNotEntity {
    pub(crate) entity: EntityId,
}

impl IsNotEntity {
    /// The entity this filter rejects.
    pub open(crate) spec fn spec_entity(self) -> EntityId {
        self.entity
    }

    /// A filter rejecting `entity` alone.
    pub fn new(entity: EntityId) -> (f: IsNotEntity)
        ensures
            f.spec_entity() == entity,
    {
        IsNotEntity { entity }
    }
}

impl EntityMapFilter for IsNotEntity {
    open(crate) spec fn spec_filter(self, entity: EntityId) -> bool {
        entity != self.entity
    }

    fn filter(&self, entity: EntityId) -> (r: bool) {
        entity != self.entity
    }
}

/// Accepts every entity; `World::components` is `World::query` with this
/// filter.
pub struct AnyEntity;

impl EntityMapFilter for AnyEntity {
    open(crate) spec fn spec_filter(self, entity: EntityId) -> bool {
        true
    }

    fn filter(&self, entity: EntityId) -> (r: bool) {
        true
    }
}

} // verus!
