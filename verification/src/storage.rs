//! Component storage: one densely-indexed table per component type.
//!
//! A table is a sparse association from storage slot to at most one value
//! of one component type.  The world keeps every table exactly as long as
//! its slot array and purges rows eagerly when an entity is destroyed, so
//! a row is only ever reachable through a live identifier.

use vstd::prelude::*;

verus! {

/// A per-type table of component rows, indexed by entity storage slot.
///
/// Rows must be registered before use: querying an unregistered table
/// finds nothing, and the world refuses insertion into one.
pub struct ComponentTable<C> {
    pub(crate) registered: bool,
    pub(crate) rows: Vec<Option<C>>,
}

impl<C> ComponentTable<C> {
    /// Whether the component type was registered with the world.
    pub open(crate) spec fn spec_registered(self) -> bool {
        self.registered
    }

    /// Number of slots the table covers.
    pub open(crate) spec fn n_rows(self) -> int {
        self.rows@.len() as int
    }

    /// The rows as a sequence indexed by slot.
    pub open(crate) spec fn rows_view(self) -> Seq<Option<C>> {
        self.rows@
    }

    /// The row stored at slot `s`, if any.
    pub open(crate) spec fn row_at(self, s: int) -> Option<C> {
        self.rows@[s]
    }

    /// Whether slot `s` holds a row.
    pub open(crate) spec fn has_row(self, s: int) -> bool {
        0 <= s < self.n_rows() && self.row_at(s) is Some
    }

    /// The value stored at slot `s`.
    pub open(crate) spec fn val_at(self, s: int) -> C {
        self.row_at(s)->Some_0
    }

    /// An empty, unregistered table.
    pub fn new() -> (t: ComponentTable<C>)
        ensures
            !t.spec_registered(),
            t.n_rows() == 0,
    {
        ComponentTable { registered: false, rows: Vec::new() }
    }

    /// Marks the table registered; the rows are untouched.
    pub fn register(&mut self)
        ensures
            final(self).spec_registered(),
            final(self).rows_view() === old(self).rows_view(),
    {
        self.registered = true;
    }

    /// Extends the table with one empty slot.
    pub fn grow(&mut self)
        requires
            old(self).n_rows() < usize::MAX,
        ensures
            final(self).rows_view() === old(self).rows_view().push(None),
            final(self).spec_registered() == old(self).spec_registered(),
    {
        self.rows.push(None);
    }

    /// Adds or replaces the row at slot `s`.
    pub fn insert(&mut self, s: usize, value: C)
        requires
            s < old(self).n_rows(),
        ensures
            final(self).rows_view() === old(self).rows_view().update(s as int, Some(value)),
            final(self).spec_registered() == old(self).spec_registered(),
    {
        self.rows[s] = Some(value);
    }

    /// Deletes the row at slot `s` if present.
    pub fn remove(&mut self, s: usize)
        requires
            s < old(self).n_rows(),
        ensures
            final(self).rows_view() === old(self).rows_view().update(s as int, None),
            final(self).spec_registered() == old(self).spec_registered(),
    {
        self.rows[s] = None;
    }

    /// Whether slot `s` holds a row.
    pub fn contains(&self, s: usize) -> (r: bool)
        ensures
            r == self.has_row(s as int),
    {
        s < self.rows.len() && self.rows[s].is_some()
    }

    /// Read access to the row at slot `s`; the caller must have checked
    /// presence first.
    pub fn get(&self, s: usize) -> (r: &C)
        requires
            self.has_row(s as int),
        ensures
            *r == self.val_at(s as int),
    {
        match &self.rows[s] {
            Some(v) => v,
            None => vstd::pervasive::unreached(),
        }
    }

    /// Exclusive access to the row at slot `s`; writes through the
    /// returned reference land in the table.
    pub fn get_mut(&mut self, s: usize) -> (r: &mut C)
        requires
            old(self).has_row(s as int),
        ensures
            *r == old(self).val_at(s as int),
            final(self).rows_view() === old(self).rows_view().update(s as int, Some(*final(r))),
            final(self).spec_registered() == old(self).spec_registered(),
            final(self).n_rows() == old(self).n_rows(),
            forall|s2: int| #[trigger] final(self).has_row(s2) ==> old(self).has_row(s2),
            forall|s2: int| #[trigger] old(self).has_row(s2) ==> final(self).has_row(s2),
            forall|s2: int|
                0 <= s2 < old(self).n_rows() && s2 != s ==> final(self).row_at(s2)
                    === #[trigger] old(self).row_at(s2),
            final(self).val_at(s as int) == *final(r),
    {
        match &mut self.rows[s] {
            Some(v) => v,
            None => vstd::pervasive::unreached(),
        }
    }
}

} // verus!
