//! An in-memory entity-component-system (ECS) store and query engine.
//!
//! Game logic ("systems") reads and mutates typed data ("components")
//! attached to lightweight generational identifiers ("entities").  The
//! [`world::World`] owns an entity allocator and one densely-indexed table per
//! component column; queries request heterogeneous tuples of component values
//! by naming columns in a type-level shape.
//!
//! Aliasing discipline: instead of per-row dynamic borrow checking, every
//! mutation goes through `&mut World`, so Rust's borrow checker rules out
//! conflicting access statically and the query surfaces hand back owned
//! copies of component values.

use vstd::prelude::*;

mod entity;
mod storage;
mod world;
mod shape;
mod filter;
mod builder;
mod laws;
pub mod games;
pub mod screens;
pub mod snake;
pub mod paccrab;
pub mod pong;
pub mod metagame;
pub mod picker;
pub mod registry;
pub mod types;
pub mod intersect;

pub use entity::EntityAllocator;
pub use entity::EntityId;
pub use storage::ComponentTable;
pub use world::Col1;
pub use world::Col2;
pub use world::Col3;
pub use world::Col4;
pub use world::Column;
pub use world::World;
pub use shape::Ident;
pub use shape::Shape;
pub use filter::AnyEntity;
pub use filter::EntityMapFilter;
pub use filter::IsEntity;
pub use filter::IsNotEntity;
pub use builder::EntityBuilder;

verus! {

/// Marker for plain data types that can live in per-entity storage.
///
/// Components are owned, copyable values; the query surfaces hand out
/// copies, and mutation goes through the world's exclusive access.
pub trait Component: Copy + Sized {
}

} // verus!
