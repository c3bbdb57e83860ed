//! The shape protocol: type-driven, compositional query dispatch.
//!
//! A shape is a type-level expression describing what a query needs for
//! one entity: the identity shape [`Ident`], a single column mark
//! ([`crate::Col1`] .. [`crate::Col4`]), or a tuple of shapes up to arity
//! five.  A shape answers two questions: does an entity satisfy it, and,
//! for a satisfying entity, what is the resulting value.  A tuple shape
//! is the logical AND of its parts and yields the tuple of their results
//! in positional order.

use vstd::prelude::*;

use crate::entity::EntityId;
use crate::world::Col1;
use crate::world::Col2;
use crate::world::Col3;
use crate::world::Col4;
use crate::world::World;

verus! {

/// A query shape over a world with columns `C1` .. `C4`.
pub trait Shape<C1, C2, C3, C4>: Sized {
    /// The value the shape produces for a satisfying entity.
    type Output;

    /// Whether entity `id` satisfies the shape in world `w`.
    spec fn spec_matches(self, w: World<C1, C2, C3, C4>, id: EntityId) -> bool;

    /// The value produced for a satisfying entity.
    spec fn spec_value(self, w: World<C1, C2, C3, C4>, id: EntityId) -> Self::Output;

    /// Decides whether `id` satisfies the shape; agrees with
    /// `spec_matches`.
    fn matches(&self, w: &World<C1, C2, C3, C4>, id: EntityId) -> (r: bool)
        requires
            w.wf(),
        ensures
            r == self.spec_matches(*w, id),
    ;

    /// Produces the shape's value for a satisfying entity.
    fn value(&self, w: &World<C1, C2, C3, C4>, id: EntityId) -> (out: Self::Output)
        requires
            w.wf(),
            self.spec_matches(*w, id),
        ensures
            out == self.spec_value(*w, id),
    ;
}

/// The identity shape: every entity satisfies it, and the result is the
/// identifier itself.
#[derive(Clone, Copy, PartialEq, Eq, Structural, Debug)]
pub struct Ident;

impl<C1, C2, C3, C4> Shape<C1, C2, C3, C4> for Ident {
    type Output = EntityId;

    open(crate) spec fn spec_matches(self, w: World<C1, C2, C3, C4>, id: EntityId) -> bool {
        true
    }

    open(crate) spec fn spec_value(self, w: World<C1, C2, C3, C4>, id: EntityId) -> EntityId {
        id
    }

    fn matches(&self, w: &World<C1, C2, C3, C4>, id: EntityId) -> (r: bool) {
        true
    }

    fn value(&self, w: &World<C1, C2, C3, C4>, id: EntityId) -> (out: EntityId) {
        id
    }
}

impl<C1: Copy, C2, C3, C4> Shape<C1, C2, C3, C4> for Col1 {
    type Output = C1;

    open(crate) spec fn spec_matches(self, w: World<C1, C2, C3, C4>, id: EntityId) -> bool {
        w.cmap1().contains_key(id)
    }

    open(crate) spec fn spec_value(self, w: World<C1, C2, C3, C4>, id: EntityId) -> C1 {
        w.cmap1()[id]
    }

    fn matches(&self, w: &World<C1, C2, C3, C4>, id: EntityId) -> (r: bool) {
        proof {
            assert(w.cmap1().contains_key(id) == w.has1(id));
        }
        w.entities.is_alive(id) && w.t1.contains(id.slot)
    }

    fn value(&self, w: &World<C1, C2, C3, C4>, id: EntityId) -> (out: C1) {
        proof {
            assert(w.cmap1().contains_key(id) == w.has1(id));
        }
        *w.t1.get(id.slot)
    }
}

impl<C1, C2: Copy, C3, C4> Shape<C1, C2, C3, C4> for Col2 {
    type Output = C2;

    open(crate) spec fn spec_matches(self, w: World<C1, C2, C3, C4>, id: EntityId) -> bool {
        w.cmap2().contains_key(id)
    }

    open(crate) spec fn spec_value(self, w: World<C1, C2, C3, C4>, id: EntityId) -> C2 {
        w.cmap2()[id]
    }

    fn matches(&self, w: &World<C1, C2, C3, C4>, id: EntityId) -> (r: bool) {
        proof {
            assert(w.cmap2().contains_key(id) == w.has2(id));
        }
        w.entities.is_alive(id) && w.t2.contains(id.slot)
    }

    fn value(&self, w: &World<C1, C2, C3, C4>, id: EntityId) -> (out: C2) {
        proof {
            assert(w.cmap2().contains_key(id) == w.has2(id));
        }
        *w.t2.get(id.slot)
    }
}

impl<C1, C2, C3: Copy, C4> Shape<C1, C2, C3, C4> for Col3 {
    type Output = C3;

    open(crate) spec fn spec_matches(self, w: World<C1, C2, C3, C4>, id: EntityId) -> bool {
        w.cmap3().contains_key(id)
    }

    open(crate) spec fn spec_value(self, w: World<C1, C2, C3, C4>, id: EntityId) -> C3 {
        w.cmap3()[id]
    }

    fn matches(&self, w: &World<C1, C2, C3, C4>, id: EntityId) -> (r: bool) {
        proof {
            assert(w.cmap3().contains_key(id) == w.has3(id));
        }
        w.entities.is_alive(id) && w.t3.contains(id.slot)
    }

    fn value(&self, w: &World<C1, C2, C3, C4>, id: EntityId) -> (out: C3) {
        proof {
            assert(w.cmap3().contains_key(id) == w.has3(id));
        }
        *w.t3.get(id.slot)
    }
}

impl<C1, C2, C3, C4: Copy> Shape<C1, C2, C3, C4> for Col4 {
    type Output = C4;

    open(crate) spec fn spec_matches(self, w: World<C1, C2, C3, C4>, id: EntityId) -> bool {
        w.cmap4().contains_key(id)
    }

    open(crate) spec fn spec_value(self, w: World<C1, C2, C3, C4>, id: EntityId) -> C4 {
        w.cmap4()[id]
    }

    fn matches(&self, w: &World<C1, C2, C3, C4>, id: EntityId) -> (r: bool) {
        proof {
            assert(w.cmap4().contains_key(id) == w.has4(id));
        }
        w.entities.is_alive(id) && w.t4.contains(id.slot)
    }

    fn value(&self, w: &World<C1, C2, C3, C4>, id: EntityId) -> (out: C4) {
        proof {
            assert(w.cmap4().contains_key(id) == w.has4(id));
        }
        *w.t4.get(id.slot)
    }
}

impl<C1, C2, C3, C4, A, B> Shape<C1, C2, C3, C4> for (A, B) where
    A: Shape<C1, C2, C3, C4>,
    B: Shape<C1, C2, C3, C4>,
 {
    type Output = (A::Output, B::Output);

    open(crate) spec fn spec_matches(self, w: World<C1, C2, C3, C4>, id: EntityId) -> bool {
        self.0.spec_matches(w, id) && self.1.spec_matches(w, id)
    }

    open(crate) spec fn spec_value(self, w: World<C1, C2, C3, C4>, id: EntityId) -> (
        A::Output,
        B::Output,
    ) {
        (self.0.spec_value(w, id), self.1.spec_value(w, id))
    }

    fn matches(&self, w: &World<C1, C2, C3, C4>, id: EntityId) -> (r: bool) {
        self.0.matches(w, id) && self.1.matches(w, id)
    }

    fn value(&self, w: &World<C1, C2, C3, C4>, id: EntityId) -> (out: (A::Output, B::Output)) {
        (self.0.value(w, id), self.1.value(w, id))
    }
}

impl<C1, C2, C3, C4, A, B, C> Shape<C1, C2, C3, C4> for (A, B, C) where
    A: Shape<C1, C2, C3, C4>,
    B: Shape<C1, C2, C3, C4>,
    C: Shape<C1, C2, C3, C4>,
 {
    type Output = (A::Output, B::Output, C::Output);

    open(crate) spec fn spec_matches(self, w: World<C1, C2, C3, C4>, id: EntityId) -> bool {
        self.0.spec_matches(w, id) && self.1.spec_matches(w, id) && self.2.spec_matches(w, id)
    }

    open(crate) spec fn spec_value(self, w: World<C1, C2, C3, C4>, id: EntityId) -> (
        A::Output,
        B::Output,
        C::Output,
    ) {
        (self.0.spec_value(w, id), self.1.spec_value(w, id), self.2.spec_value(w, id))
    }

    fn matches(&self, w: &World<C1, C2, C3, C4>, id: EntityId) -> (r: bool) {
        self.0.matches(w, id) && self.1.matches(w, id) && self.2.matches(w, id)
    }

    fn value(&self, w: &World<C1, C2, C3, C4>, id: EntityId) -> (out: (
        A::Output,
        B::Output,
        C::Output,
    )) {
        (self.0.value(w, id), self.1.value(w, id), self.2.value(w, id))
    }
}

impl<C1, C2, C3, C4, A, B, C, D> Shape<C1, C2, C3, C4> for (A, B, C, D) where
    A: Shape<C1, C2, C3, C4>,
    B: Shape<C1, C2, C3, C4>,
    C: Shape<C1, C2, C3, C4>,
    D: Shape<C1, C2, C3, C4>,
 {
    type Output = (A::Output, B::Output, C::Output, D::Output);

    open(crate) spec fn spec_matches(self, w: World<C1, C2, C3, C4>, id: EntityId) -> bool {
        self.0.spec_matches(w, id) && self.1.spec_matches(w, id) && self.2.spec_matches(w, id)
            && self.3.spec_matches(w, id)
    }

    open(crate) spec fn spec_value(self, w: World<C1, C2, C3, C4>, id: EntityId) -> (
        A::Output,
        B::Output,
        C::Output,
        D::Output,
    ) {
        (
            self.0.spec_value(w, id),
            self.1.spec_value(w, id),
            self.2.spec_value(w, id),
            self.3.spec_value(w, id),
        )
    }

    fn matches(&self, w: &World<C1, C2, C3, C4>, id: EntityId) -> (r: bool) {
        self.0.matches(w, id) && self.1.matches(w, id) && self.2.matches(w, id) && self.3.matches(
            w,
            id,
        )
    }

    fn value(&self, w: &World<C1, C2, C3, C4>, id: EntityId) -> (out: (
        A::Output,
        B::Output,
        C::Output,
        D::Output,
    )) {
        (self.0.value(w, id), self.1.value(w, id), self.2.value(w, id), self.3.value(w, id))
    }
}

impl<C1, C2, C3, C4, A, B, C, D, E> Shape<C1, C2, C3, C4> for (A, B, C, D, E) where
    A: Shape<C1, C2, C3, C4>,
    B: Shape<C1, C2, C3, C4>,
    C: Shape<C1, C2, C3, C4>,
    D: Shape<C1, C2, C3, C4>,
    E: Shape<C1, C2, C3, C4>,
 {
    type Output = (A::Output, B::Output, C::Output, D::Output, E::Output);

    open(crate) spec fn spec_matches(self, w: World<C1, C2, C3, C4>, id: EntityId) -> bool {
        self.0.spec_matches(w, id) && self.1.spec_matches(w, id) && self.2.spec_matches(w, id)
            && self.3.spec_matches(w, id) && self.4.spec_matches(w, id)
    }

    open(crate) spec fn spec_value(self, w: World<C1, C2, C3, C4>, id: EntityId) -> (
        A::Output,
        B::Output,
        C::Output,
        D::Output,
        E::Output,
    ) {
        (
            self.0.spec_value(w, id),
            self.1.spec_value(w, id),
            self.2.spec_value(w, id),
            self.3.spec_value(w, id),
            self.4.spec_value(w, id),
        )
    }

    fn matches(&self, w: &World<C1, C2, C3, C4>, id: EntityId) -> (r: bool) {
        self.0.matches(w, id) && self.1.matches(w, id) && self.2.matches(w, id) && self.3.matches(
            w,
            id,
        ) && self.4.matches(w, id)
    }

    fn value(&self, w: &World<C1, C2, C3, C4>, id: EntityId) -> (out: (
        A::Output,
        B::Output,
        C::Output,
        D::Output,
        E::Output,
    )) {
        (
            self.0.value(w, id),
            self.1.value(w, id),
            self.2.value(w, id),
            self.3.value(w, id),
            self.4.value(w, id),
        )
    }
}

} // verus!
