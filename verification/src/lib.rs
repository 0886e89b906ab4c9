//! A dynamic capability/coercion registry together with a reference-counted,
//! type-erased handle that survives round trips across a foreign-runtime
//! boundary.
//!
//! Types are identified by explicit stable keys (`keys`), so that the registry
//! (`registry`) is an ordinary table from (storage form, requested interface
//! set) to registered coercions.  The combination expander (`expand`) fills
//! that table with one entry per interface and marker subset.  Values live in
//! type-erased, lock-guarded, reference-counted cells (`cell`), reached
//! through the `DynBox` smart handle (`ptr`), which can be leaked into a
//! once-consumable raw ticket for the foreign collector and reconstructed
//! from it.
//!
//! Around the core: canonical name processing for the introspection output
//! (`names`, `text`), helpers for composing generated binding text
//! (`extras`), and a small exercising menagerie (`animals`).

pub mod animals;
pub mod cell;
pub mod expand;
pub mod extras;
pub mod keys;
pub mod names;
pub mod ptr;
pub mod registry;
pub mod table;
pub mod text;
