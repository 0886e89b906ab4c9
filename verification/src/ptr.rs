//! The `DynBox` smart handle and its round trip across the foreign
//! boundary.
//!
//! A `DynBox` refers to one type-erased cell.  Cloning it takes one more
//! reference; releasing it drops one, and the last drop destroys the
//! payload.  Coercion asks the registry for the coercion registered under
//! the cell's runtime storage form and the requested interface set; on a hit
//! it locks the cell and hands back an owning handle, and on a miss it
//! reports the binding defect, naming the stored type and the requested
//! interface.
//!
//! For the foreign collector, a `DynBox` can be leaked into a `RawHandle`:
//! an opaque ticket standing for the bare pointer stored inside a
//! foreign-owned wrapper object.  A ticket is constructed once and consumed
//! once — by `from_raw` or by the finalizer — which is exactly the
//! single-producer/single-consumer pointer discipline the boundary demands.
//!
//! Locking here is sequential: where a caller would otherwise block on a
//! lock until another accessor lets it go, coercion reports `Contended`,
//! and the caller retries once the conflicting handle was released.

use vstd::prelude::*;

use crate::cell::{
    cellv, dec_or_destroy, destroyed, grant_read, grant_write, inc_strong, live, read_available,
    release_read, release_write, set_value, storage_of, write_available, CellPool, CellV, Flavor,
};
use crate::keys::{boxed_v, counted_v, StorageKeyV, TypeExpr, TypeExprV};
use crate::registry::{named_forms, Registry};

verus! {

/// A reference-counted, type-erased smart handle over one cell of a pool.
pub struct DynBox {
    cell: usize,
}

impl DynBox {
    /// The index of the cell this handle refers to.
    pub closed spec fn id(self) -> int {
        self.cell as int
    }
}

/// An owning read handle: it couples the read lock it holds on its cell
/// with the borrow derived through the registered coercion.
pub struct Handle {
    cell: usize,
}

impl Handle {
    /// The index of the cell this handle locks.
    pub closed spec fn id(self) -> int {
        self.cell as int
    }
}

/// An owning write handle.
pub struct HandleMut {
    cell: usize,
}

impl HandleMut {
    /// The index of the cell this handle locks.
    pub closed spec fn id(self) -> int {
        self.cell as int
    }
}

/// A leaked reference: the bare pointer a foreign-owned wrapper object
/// stores.  It is produced by `into_raw` or `to_value` and must be consumed
/// exactly once, by `from_raw` or by the finalizer; the move discipline of
/// this type enforces that within the language, with no need for a runtime
/// assertion against double consumption.
pub struct RawHandle {
    cell: usize,
}

impl RawHandle {
    /// The index of the cell the leaked reference keeps alive.
    pub closed spec fn id(self) -> int {
        self.cell as int
    }
}

/// Why a coercion request failed.
#[derive(Debug)]
pub enum CoerceError {
    /// A binding defect: no coercion is registered for the cell's stored
    /// form and the requested interface set.  The diagnostic names both.
    Unregistered { stored_name: String, requested: TypeExpr },
    /// The lock the coercion needs is held by another handle.  A blocking
    /// implementation would park the caller until that handle is dropped;
    /// here the contention is reported, and the caller retries after the
    /// release.
    Contended,
}

impl<T> CellPool<T> {
    /// Wraps `value`, lockable exclusively, into a fresh cell, registering
    /// the display names of the value's type and of its counted form.
    pub fn new_exclusive(
        &mut self,
        registry: &mut Registry,
        ty: &TypeExpr,
        name: &str,
        value: T,
    ) -> (b: DynBox)
        requires
            old(registry).wf(),
        ensures
            final(registry).wf(),
            final(registry).names() == named_forms(
                named_forms(old(registry).names(), ty@, name@),
                counted_v(ty@),
                name@,
            ),
            final(registry).coercions() == old(registry).coercions(),
            final(registry).infos() == old(registry).infos(),
            final(self)@ == old(self)@.push(
                Option::Some(
                    CellV {
                        ty: ty@,
                        flavor: Flavor::Exclusive,
                        strong: 1,
                        readers: 0,
                        writer: false,
                        value,
                    },
                ),
            ),
            b.id() == old(self)@.len(),
    {
        crate::registry::register_type(registry, ty, name);
        crate::registry::register_type(registry, &ty.counted(), name);
        let c = self.fresh(ty.clone_expr(), Flavor::Exclusive, value);
        DynBox { cell: c }
    }

    /// Wraps an indirectly allocated `value` — one whose logical type has no
    /// fixed size — into a fresh exclusively lockable cell.
    pub fn new_exclusive_boxed(
        &mut self,
        registry: &mut Registry,
        ty: &TypeExpr,
        name: &str,
        value: T,
    ) -> (b: DynBox)
        requires
            old(registry).wf(),
        ensures
            final(registry).wf(),
            final(registry).names() == named_forms(
                named_forms(old(registry).names(), boxed_v(ty@), name@),
                counted_v(boxed_v(ty@)),
                name@,
            ),
            final(registry).coercions() == old(registry).coercions(),
            final(registry).infos() == old(registry).infos(),
            final(self)@ == old(self)@.push(
                Option::Some(
                    CellV {
                        ty: boxed_v(ty@),
                        flavor: Flavor::Exclusive,
                        strong: 1,
                        readers: 0,
                        writer: false,
                        value,
                    },
                ),
            ),
            b.id() == old(self)@.len(),
    {
        let boxed = ty.boxed();
        crate::registry::register_type(registry, &boxed, name);
        crate::registry::register_type(registry, &boxed.counted(), name);
        let c = self.fresh(boxed, Flavor::Exclusive, value);
        DynBox { cell: c }
    }

    /// Wraps `value`, lockable shared, into a fresh cell.
    pub fn new_shared(
        &mut self,
        registry: &mut Registry,
        ty: &TypeExpr,
        name: &str,
        value: T,
    ) -> (b: DynBox)
        requires
            old(registry).wf(),
        ensures
            final(registry).wf(),
            final(registry).names() == named_forms(
                named_forms(old(registry).names(), ty@, name@),
                counted_v(ty@),
                name@,
            ),
            final(registry).coercions() == old(registry).coercions(),
            final(registry).infos() == old(registry).infos(),
            final(self)@ == old(self)@.push(
                Option::Some(
                    CellV {
                        ty: ty@,
                        flavor: Flavor::Shared,
                        strong: 1,
                        readers: 0,
                        writer: false,
                        value,
                    },
                ),
            ),
            b.id() == old(self)@.len(),
    {
        crate::registry::register_type(registry, ty, name);
        crate::registry::register_type(registry, &ty.counted(), name);
        let c = self.fresh(ty.clone_expr(), Flavor::Shared, value);
        DynBox { cell: c }
    }

    /// Wraps an indirectly allocated `value` into a fresh shared-lockable
    /// cell.
    pub fn new_shared_boxed(
        &mut self,
        registry: &mut Registry,
        ty: &TypeExpr,
        name: &str,
        value: T,
    ) -> (b: DynBox)
        requires
            old(registry).wf(),
        ensures
            final(registry).wf(),
            final(registry).names() == named_forms(
                named_forms(old(registry).names(), boxed_v(ty@), name@),
                counted_v(boxed_v(ty@)),
                name@,
            ),
            final(registry).coercions() == old(registry).coercions(),
            final(registry).infos() == old(registry).infos(),
            final(self)@ == old(self)@.push(
                Option::Some(
                    CellV {
                        ty: boxed_v(ty@),
                        flavor: Flavor::Shared,
                        strong: 1,
                        readers: 0,
                        writer: false,
                        value,
                    },
                ),
            ),
            b.id() == old(self)@.len(),
    {
        let boxed = ty.boxed();
        crate::registry::register_type(registry, &boxed, name);
        crate::registry::register_type(registry, &boxed.counted(), name);
        let c = self.fresh(boxed, Flavor::Shared, value);
        DynBox { cell: c }
    }
}

/// Coerces a cell to a read handle on the requested interface set.  On a
/// registered coercion with the lock available, the handle owns a read lock
/// and one reference; otherwise the pool is untouched and the failure says
/// whether the binding is missing — naming the stored type and the request —
/// or merely contended.
pub fn coerce<T>(
    registry: &Registry,
    pool: &mut CellPool<T>,
    input: &DynBox,
    target: &TypeExpr,
) -> (r: Result<Handle, CoerceError>)
    requires
        registry.wf(),
        live(old(pool)@, input.id()),
        cellv(old(pool)@, input.id()).strong < u64::MAX,
        cellv(old(pool)@, input.id()).readers < u64::MAX,
    ensures
        ({
            let cell = cellv(old(pool)@, input.id());
            let storage = storage_of(cell);
            match r {
                Result::Ok(h) => registry.has_coercion(storage, target@) && read_available(cell)
                    && h.id() == input.id() && final(pool)@ == grant_read(old(pool)@, input.id()),
                Result::Err(e) => final(pool)@ == old(pool)@ && match e {
                    CoerceError::Unregistered { stored_name, requested } => !registry.has_coercion(
                        storage,
                        target@,
                    ) && requested@ == target@ && stored_name@ == (if registry.names().contains_key(
                        storage,
                    ) {
                        registry.names()[storage]
                    } else {
                        "<unregistered type>"@
                    }),
                    CoerceError::Contended => registry.has_coercion(storage, target@)
                        && !read_available(cell),
                },
            }
        }),
{
    let c = input.cell;
    let storage = pool.storage_key(c);
    if registry.has_coercion_fns(&storage, target) {
        if pool.read_avail(c) {
            pool.grant_read_at(c);
            Result::Ok(Handle { cell: c })
        } else {
            Result::Err(CoerceError::Contended)
        }
    } else {
        Result::Err(
            CoerceError::Unregistered {
                stored_name: registry.display_name(&storage),
                requested: target.clone_expr(),
            },
        )
    }
}

/// Coerces a cell to a write handle on the requested interface set, in the
/// same way, acquiring the write side of the cell's lock.
pub fn coerce_mut<T>(
    registry: &Registry,
    pool: &mut CellPool<T>,
    input: &DynBox,
    target: &TypeExpr,
) -> (r: Result<HandleMut, CoerceError>)
    requires
        registry.wf(),
        live(old(pool)@, input.id()),
        cellv(old(pool)@, input.id()).strong < u64::MAX,
    ensures
        ({
            let cell = cellv(old(pool)@, input.id());
            let storage = storage_of(cell);
            match r {
                Result::Ok(h) => registry.has_coercion(storage, target@) && write_available(cell)
                    && h.id() == input.id() && final(pool)@ == grant_write(old(pool)@, input.id()),
                Result::Err(e) => final(pool)@ == old(pool)@ && match e {
                    CoerceError::Unregistered { stored_name, requested } => !registry.has_coercion(
                        storage,
                        target@,
                    ) && requested@ == target@ && stored_name@ == (if registry.names().contains_key(
                        storage,
                    ) {
                        registry.names()[storage]
                    } else {
                        "<unregistered type>"@
                    }),
                    CoerceError::Contended => registry.has_coercion(storage, target@)
                        && !write_available(cell),
                },
            }
        }),
{
    let c = input.cell;
    let storage = pool.storage_key(c);
    if registry.has_coercion_fns(&storage, target) {
        if pool.write_avail(c) {
            pool.grant_write_at(c);
            Result::Ok(HandleMut { cell: c })
        } else {
            Result::Err(CoerceError::Contended)
        }
    } else {
        Result::Err(
            CoerceError::Unregistered {
                stored_name: registry.display_name(&storage),
                requested: target.clone_expr(),
            },
        )
    }
}

impl DynBox {
    /// Coerces this handle's cell to a read handle on the requested
    /// interface set, as `coerce` does.
    pub fn coerce<T>(
        &self,
        registry: &Registry,
        pool: &mut CellPool<T>,
        target: &TypeExpr,
    ) -> (r: Result<Handle, CoerceError>)
        requires
            registry.wf(),
            live(old(pool)@, self.id()),
            cellv(old(pool)@, self.id()).strong < u64::MAX,
            cellv(old(pool)@, self.id()).readers < u64::MAX,
        ensures
            ({
                let cell = cellv(old(pool)@, self.id());
                let storage = storage_of(cell);
                match r {
                    Result::Ok(h) => registry.has_coercion(storage, target@) && read_available(
                        cell,
                    ) && h.id() == self.id() && final(pool)@ == grant_read(old(pool)@, self.id()),
                    Result::Err(e) => final(pool)@ == old(pool)@ && match e {
                        CoerceError::Unregistered { stored_name, requested } => !registry
                            .has_coercion(storage, target@) && requested@ == target@
                            && stored_name@ == (if registry.names().contains_key(storage) {
                            registry.names()[storage]
                        } else {
                            "<unregistered type>"@
                        }),
                        CoerceError::Contended => registry.has_coercion(storage, target@)
                            && !read_available(cell),
                    },
                }
            }),
    {
        coerce(registry, pool, self, target)
    }

    /// Coerces this handle's cell to a write handle on the requested
    /// interface set, as `coerce_mut` does.
    pub fn coerce_mut<T>(
        &self,
        registry: &Registry,
        pool: &mut CellPool<T>,
        target: &TypeExpr,
    ) -> (r: Result<HandleMut, CoerceError>)
        requires
            registry.wf(),
            live(old(pool)@, self.id()),
            cellv(old(pool)@, self.id()).strong < u64::MAX,
        ensures
            ({
                let cell = cellv(old(pool)@, self.id());
                let storage = storage_of(cell);
                match r {
                    Result::Ok(h) => registry.has_coercion(storage, target@) && write_available(
                        cell,
                    ) && h.id() == self.id() && final(pool)@ == grant_write(old(pool)@, self.id()),
                    Result::Err(e) => final(pool)@ == old(pool)@ && match e {
                        CoerceError::Unregistered { stored_name, requested } => !registry
                            .has_coercion(storage, target@) && requested@ == target@
                            && stored_name@ == (if registry.names().contains_key(storage) {
                            registry.names()[storage]
                        } else {
                            "<unregistered type>"@
                        }),
                        CoerceError::Contended => registry.has_coercion(storage, target@)
                            && !write_available(cell),
                    },
                }
            }),
    {
        coerce_mut(registry, pool, self, target)
    }

    /// An independent reference to the same cell.
    pub fn clone_ref<T>(&self, pool: &mut CellPool<T>) -> (b: DynBox)
        requires
            live(old(pool)@, self.id()),
            cellv(old(pool)@, self.id()).strong < u64::MAX,
        ensures
            final(pool)@ == inc_strong(old(pool)@, self.id()),
            b.id() == self.id(),
    {
        pool.inc_strong_at(self.cell);
        DynBox { cell: self.cell }
    }

    /// Leaks this reference into a bare ticket for the foreign side.  The
    /// reference count is not touched: the ticket now owns this reference,
    /// until `from_raw` or the finalizer consumes it.
    pub fn into_raw(self) -> (r: RawHandle)
        ensures
            r.id() == self.id(),
    {
        RawHandle { cell: self.cell }
    }

    /// Reconstructs a handle from a leaked ticket, consuming it.  The
    /// reference count is not touched: the handle takes back the reference
    /// the ticket owned.
    pub fn from_raw(raw: RawHandle) -> (b: DynBox)
        ensures
            b.id() == raw.id(),
    {
        DynBox { cell: raw.cell }
    }

    /// Marshals this handle out to the foreign runtime: a fresh clone is
    /// leaked, and the resulting ticket is what the foreign-owned wrapper
    /// object stores, together with the finalizer.
    pub fn to_value<T>(&self, pool: &mut CellPool<T>) -> (r: RawHandle)
        requires
            live(old(pool)@, self.id()),
            cellv(old(pool)@, self.id()).strong < u64::MAX,
        ensures
            final(pool)@ == inc_strong(old(pool)@, self.id()),
            r.id() == self.id(),
    {
        self.clone_ref(pool).into_raw()
    }

    /// Marshals a handle in from the foreign runtime: the ticket stored in
    /// the wrapper object is read but not consumed — the foreign side keeps
    /// its reference until its finalizer runs — and this side receives an
    /// independent clone.
    pub fn from_value<T>(pool: &mut CellPool<T>, raw: &RawHandle) -> (b: DynBox)
        requires
            live(old(pool)@, raw.id()),
            cellv(old(pool)@, raw.id()).strong < u64::MAX,
        ensures
            final(pool)@ == inc_strong(old(pool)@, raw.id()),
            b.id() == raw.id(),
    {
        pool.inc_strong_at(raw.cell);
        DynBox { cell: raw.cell }
    }

    /// Drops this reference.  When it was the last one the cell is
    /// destroyed and the payload handed back — the destructor running
    /// exactly here, exactly once.
    pub fn release<T>(self, pool: &mut CellPool<T>) -> (r: Option<T>)
        requires
            live(old(pool)@, self.id()),
            cellv(old(pool)@, self.id()).strong >= 1,
        ensures
            final(pool)@ == dec_or_destroy(old(pool)@, self.id()),
            r == if cellv(old(pool)@, self.id()).strong == 1 {
                Option::Some(cellv(old(pool)@, self.id()).value)
            } else {
                Option::<T>::None
            },
    {
        pool.dec_strong_at(self.cell)
    }
}

/// The finalizer the foreign collector invokes exactly once per wrapper
/// object: it reconstructs the handle the stored ticket owns and drops it.
/// The logical element type is irrelevant — the cell's own stored payload is
/// what is destroyed when this was the last reference.
pub fn finalize_raw<T>(pool: &mut CellPool<T>, raw: RawHandle) -> (r: Option<T>)
    requires
        live(old(pool)@, raw.id()),
        cellv(old(pool)@, raw.id()).strong >= 1,
    ensures
        final(pool)@ == dec_or_destroy(old(pool)@, raw.id()),
        r == if cellv(old(pool)@, raw.id()).strong == 1 {
            Option::Some(cellv(old(pool)@, raw.id()).value)
        } else {
            Option::<T>::None
        },
{
    let b = DynBox::from_raw(raw);
    b.release(pool)
}

impl Handle {
    /// The borrow this handle derives from its held lock.
    pub fn get<'a, T>(&self, pool: &'a CellPool<T>) -> (r: &'a T)
        requires
            live(pool@, self.id()),
        ensures
            *r == cellv(pool@, self.id()).value,
    {
        pool.borrow_value(self.cell)
    }

    /// Releases the held lock and the handle's reference; the payload comes
    /// back — destroyed — when that reference was the last one.
    pub fn release<T>(self, pool: &mut CellPool<T>) -> (r: Option<T>)
        requires
            live(old(pool)@, self.id()),
            cellv(old(pool)@, self.id()).strong >= 1,
            cellv(old(pool)@, self.id()).flavor == Flavor::Exclusive ==> cellv(
                old(pool)@,
                self.id(),
            ).writer,
            cellv(old(pool)@, self.id()).flavor == Flavor::Shared ==> cellv(
                old(pool)@,
                self.id(),
            ).readers >= 1,
        ensures
            final(pool)@ == release_read(old(pool)@, self.id()),
            r == if cellv(old(pool)@, self.id()).strong == 1 {
                Option::Some(cellv(old(pool)@, self.id()).value)
            } else {
                Option::<T>::None
            },
    {
        pool.release_read_at(self.cell)
    }
}

impl HandleMut {
    /// The borrow this handle derives from its held write lock.
    pub fn get<'a, T>(&self, pool: &'a CellPool<T>) -> (r: &'a T)
        requires
            live(pool@, self.id()),
        ensures
            *r == cellv(pool@, self.id()).value,
    {
        pool.borrow_value(self.cell)
    }

    /// Overwrites the payload through the held write lock.
    pub fn set<T>(&self, pool: &mut CellPool<T>, v: T)
        requires
            live(old(pool)@, self.id()),
            cellv(old(pool)@, self.id()).writer,
        ensures
            final(pool)@ == set_value(old(pool)@, self.id(), v),
    {
        pool.set_value_at(self.cell, v)
    }

    /// Exchanges the payload through the held write lock, handing the old
    /// payload back.
    pub fn replace<T>(&self, pool: &mut CellPool<T>, v: T) -> (r: T)
        requires
            live(old(pool)@, self.id()),
            cellv(old(pool)@, self.id()).writer,
        ensures
            final(pool)@ == set_value(old(pool)@, self.id(), v),
            r == cellv(old(pool)@, self.id()).value,
    {
        let mut v = v;
        pool.swap_value(self.cell, &mut v);
        v
    }

    /// Releases the held write lock and the handle's reference.
    pub fn release<T>(self, pool: &mut CellPool<T>) -> (r: Option<T>)
        requires
            live(old(pool)@, self.id()),
            cellv(old(pool)@, self.id()).strong >= 1,
            cellv(old(pool)@, self.id()).writer,
        ensures
            final(pool)@ == release_write(old(pool)@, self.id()),
            r == if cellv(old(pool)@, self.id()).strong == 1 {
                Option::Some(cellv(old(pool)@, self.id()).value)
            } else {
                Option::<T>::None
            },
    {
        pool.release_write_at(self.cell)
    }
}

/// A leaked ticket round-trips: reconstructing a handle from it reaches the
/// very cell that was leaked — `into_raw` and `from_raw` keep the cell index
/// and never touch the pool — so a coercion granted afterwards observes the
/// value the original handle wrapped.
pub proof fn lemma_raw_round_trip<T>(p: Seq<Option<CellV<T>>>, c: int)
    requires
        live(p, c),
    ensures
        live(grant_read(p, c), c),
        cellv(grant_read(p, c), c).value == cellv(p, c).value,
{
    assert(grant_read(p, c)[c] is Some);
}

/// Exactly-once destruction across the boundary: marshalling a handle out
/// (`to_value`, one more reference) and running the finalizer exactly once
/// (one reference dropped) returns the pool to exactly its former state —
/// the payload's destructor has not run, and it never runs before that
/// finalizer call has balanced the leak.  The destructor runs precisely
/// when the last reference goes.
pub proof fn lemma_exactly_once_destruction<T>(p: Seq<Option<CellV<T>>>, c: int)
    requires
        live(p, c),
        cellv(p, c).strong >= 1,
    ensures
        dec_or_destroy(inc_strong(p, c), c) == p,
        destroyed(dec_or_destroy(p, c), c) <==> cellv(p, c).strong == 1,
        live(dec_or_destroy(p, c), c) <==> cellv(p, c).strong > 1,
{
    let p1 = inc_strong(p, c);
    assert(cellv(p1, c).strong == cellv(p, c).strong + 1);
    assert(cellv(p1, c).strong != 1);
    assert(dec_or_destroy(p1, c) =~= p);
}

/// Mutual exclusion: while a write handle is outstanding on a cell, its
/// writer side is held, so neither another write coercion nor a read
/// coercion can be granted on that cell — `coerce_mut` and `coerce` report
/// contention instead.  Once the handle is released the write side is free
/// again, and a retry succeeds.
pub proof fn lemma_write_handles_serialize<T>(p: Seq<Option<CellV<T>>>, c: int)
    requires
        live(p, c),
        cellv(p, c).writer,
        cellv(p, c).strong >= 1,
    ensures
        !write_available(cellv(p, c)),
        !read_available(cellv(p, c)),
        cellv(p, c).strong > 1 && cellv(p, c).readers == 0 ==> live(release_write(p, c), c)
            && write_available(cellv(release_write(p, c), c)),
{
}

/// Mutation visibility: a value written through a write handle is the value
/// any later read observes — immediately, and still after the write handle
/// is released and a fresh read handle is granted on the same cell.
pub proof fn lemma_mutation_visibility<T>(p: Seq<Option<CellV<T>>>, c: int, v: T)
    requires
        live(p, c),
        cellv(p, c).strong >= 2,
    ensures
        cellv(set_value(p, c, v), c).value == v,
        live(release_write(set_value(p, c, v), c), c),
        cellv(grant_read(release_write(set_value(p, c, v), c), c), c).value == v,
{
    let p1 = set_value(p, c, v);
    assert(cellv(p1, c).value == v);
    let p2 = release_write(p1, c);
    assert(cellv(p2, c).value == v);
    assert(cellv(grant_read(p2, c), c).value == v);
}

} // verus!
