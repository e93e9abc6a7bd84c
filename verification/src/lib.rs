//! A bridge that exposes host-owned values as constructible, scriptable
//! objects inside an embedded, garbage-collected interpreter heap.
//!
//! The library models the engine side explicitly: an [`engine::Engine`] owns
//! the registered classes, the heap of script objects, and the registry that
//! maps a native type identity to its installed class. Each script object
//! carries one private slot that either holds a host value or is empty; the
//! slot is filled exactly once at construction and may be emptied at most
//! once by reclaiming the value.

pub mod convert;
pub mod descriptor;
pub mod engine;
pub mod error;
pub mod laws;
