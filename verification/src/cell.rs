//! Type-erased, reference-counted, lock-guarded cells.
//!
//! A cell holds one payload behind one of two interior-mutability flavors:
//! exclusive (one accessor at a time, for reading and writing alike) or
//! shared (many concurrent readers, or one writer).  Its lifetime is jointly
//! managed by this side and the foreign collector, so the reference count is
//! explicit, and the payload is destroyed exactly when the count reaches
//! zero.
//!
//! The cells live in a pool and are reached by index, which keeps a guard and
//! the borrow derived from it in one place without a self-referential
//! handle.  All spec-level transitions on the pool are named here, so that
//! the laws about handles can be stated over them.
//!
//! A cell carries its own lock flavor, so the order in which an unknown
//! payload would be probed for its wrapper — where probing exclusive first
//! could silently shadow a shared registration of the same type — cannot
//! arise: a cell is one flavor, by construction.

use vstd::prelude::*;

use crate::keys::{StorageKeyV, TypeExpr, TypeExprV, Wrap};

verus! {

/// The two interior-mutability flavors a payload can be wrapped in.
#[derive(Clone, Copy, Debug, PartialEq, Eq, Structural)]
pub enum Flavor {
    Exclusive,
    Shared,
}

/// The storage wrapper that a flavor stands for.
pub open spec fn wrap_of(f: Flavor) -> Wrap {
    match f {
        Flavor::Exclusive => Wrap::Exclusive,
        Flavor::Shared => Wrap::Shared,
    }
}

/// One live cell: its payload's type expression, its lock flavor, its
/// reference count, its lock state, and the payload itself.
pub ghost struct CellV<T> {
    pub ty: TypeExprV,
    pub flavor: Flavor,
    pub strong: int,
    pub readers: int,
    pub writer: bool,
    pub value: T,
}

struct Cell<T> {
    ty: TypeExpr,
    flavor: Flavor,
    strong: u64,
    readers: u64,
    writer: bool,
    value: T,
}

impl<T> Cell<T> {
    spec fn view(self) -> CellV<T> {
        CellV {
            ty: self.ty@,
            flavor: self.flavor,
            strong: self.strong as int,
            readers: self.readers as int,
            writer: self.writer,
            value: self.value,
        }
    }
}

/// The pool of live cells.  A slot is `None` once its cell's last reference
/// was dropped and the payload destroyed.
pub struct CellPool<T> {
    slots: Vec<Option<Cell<T>>>,
}

impl<T> View for CellPool<T> {
    type V = Seq<Option<CellV<T>>>;

    closed spec fn view(&self) -> Seq<Option<CellV<T>>> {
        self.slots@.map_values(
            |c: Option<Cell<T>>|
                match c {
                    Option::Some(cell) => Option::Some(cell.view()),
                    Option::None => Option::None,
                },
        )
    }
}

/// Whether slot `c` holds a live cell.
pub open spec fn live<T>(p: Seq<Option<CellV<T>>>, c: int) -> bool {
    0 <= c < p.len() && p[c] is Some
}

/// Whether slot `c` exists but its cell was destroyed.
pub open spec fn destroyed<T>(p: Seq<Option<CellV<T>>>, c: int) -> bool {
    0 <= c < p.len() && p[c] is None
}

/// The cell in slot `c`.
pub open spec fn cellv<T>(p: Seq<Option<CellV<T>>>, c: int) -> CellV<T>
    recommends
        live(p, c),
{
    p[c]->Some_0
}

/// The runtime storage identity of a cell: its lock wrapper applied to its
/// payload's type expression.
pub open spec fn storage_of<T>(cell: CellV<T>) -> StorageKeyV {
    StorageKeyV { wrap: wrap_of(cell.flavor), ty: cell.ty }
}

/// Whether a read lock can be granted at once.  An exclusive cell admits one
/// accessor in all, a shared cell any number of readers while no writer
/// holds it.
pub open spec fn read_available<T>(cell: CellV<T>) -> bool {
    match cell.flavor {
        Flavor::Exclusive => cell.readers == 0 && !cell.writer,
        Flavor::Shared => !cell.writer,
    }
}

/// Whether a write lock can be granted at once.
pub open spec fn write_available<T>(cell: CellV<T>) -> bool {
    cell.readers == 0 && !cell.writer
}

/// Every live cell is referenced at least once, reader counts are not
/// negative, a held writer excludes readers, and an exclusive cell counts no
/// readers (its single accessor holds the writer side).
pub open spec fn pool_wf<T>(p: Seq<Option<CellV<T>>>) -> bool {
    forall|c: int|
        live(p, c) ==> {
            let cell = #[trigger] cellv(p, c);
            cell.strong >= 1 && cell.readers >= 0 && (cell.writer ==> cell.readers == 0) && (
            cell.flavor == Flavor::Exclusive ==> cell.readers == 0)
        }
}

/// The pool with cell `c` replaced.
pub open spec fn with_cell<T>(p: Seq<Option<CellV<T>>>, c: int, cell: CellV<T>) -> Seq<
    Option<CellV<T>>,
> {
    p.update(c, Option::Some(cell))
}

/// The pool after one more reference to cell `c` was taken.
pub open spec fn inc_strong<T>(p: Seq<Option<CellV<T>>>, c: int) -> Seq<Option<CellV<T>>> {
    with_cell(p, c, CellV { strong: cellv(p, c).strong + 1, ..cellv(p, c) })
}

/// The pool after one reference to cell `c` was dropped: the count goes
/// down, and when it reaches zero the cell is destroyed.
pub open spec fn dec_or_destroy<T>(p: Seq<Option<CellV<T>>>, c: int) -> Seq<Option<CellV<T>>> {
    if cellv(p, c).strong == 1 {
        p.update(c, Option::None)
    } else {
        with_cell(p, c, CellV { strong: cellv(p, c).strong - 1, ..cellv(p, c) })
    }
}

/// The pool after a read lock on cell `c` was granted to a new handle,
/// which also takes one reference.
pub open spec fn grant_read<T>(p: Seq<Option<CellV<T>>>, c: int) -> Seq<Option<CellV<T>>> {
    let cell = cellv(p, c);
    match cell.flavor {
        Flavor::Exclusive => with_cell(
            p,
            c,
            CellV { strong: cell.strong + 1, writer: true, ..cell },
        ),
        Flavor::Shared => with_cell(
            p,
            c,
            CellV { strong: cell.strong + 1, readers: cell.readers + 1, ..cell },
        ),
    }
}

/// The pool after a write lock on cell `c` was granted to a new handle,
/// which also takes one reference.
pub open spec fn grant_write<T>(p: Seq<Option<CellV<T>>>, c: int) -> Seq<Option<CellV<T>>> {
    let cell = cellv(p, c);
    with_cell(p, c, CellV { strong: cell.strong + 1, writer: true, ..cell })
}

/// The pool after a read handle on cell `c` was released: the lock is let
/// go, the handle's reference dropped, and the cell destroyed when that was
/// the last one.
pub open spec fn release_read<T>(p: Seq<Option<CellV<T>>>, c: int) -> Seq<Option<CellV<T>>> {
    let cell = cellv(p, c);
    if cell.strong == 1 {
        p.update(c, Option::None)
    } else {
        match cell.flavor {
            Flavor::Exclusive => with_cell(
                p,
                c,
                CellV { strong: cell.strong - 1, writer: false, ..cell },
            ),
            Flavor::Shared => with_cell(
                p,
                c,
                CellV { strong: cell.strong - 1, readers: cell.readers - 1, ..cell },
            ),
        }
    }
}

/// The pool after a write handle on cell `c` was released.
pub open spec fn release_write<T>(p: Seq<Option<CellV<T>>>, c: int) -> Seq<Option<CellV<T>>> {
    let cell = cellv(p, c);
    if cell.strong == 1 {
        p.update(c, Option::None)
    } else {
        with_cell(p, c, CellV { strong: cell.strong - 1, writer: false, ..cell })
    }
}

/// The pool after the payload of cell `c` was overwritten through a write
/// handle.
pub open spec fn set_value<T>(p: Seq<Option<CellV<T>>>, c: int, v: T) -> Seq<Option<CellV<T>>> {
    with_cell(p, c, CellV { value: v, ..cellv(p, c) })
}

proof fn lemma_with_cell_wf<T>(p: Seq<Option<CellV<T>>>, c: int, cell: CellV<T>)
    requires
        pool_wf(p),
        0 <= c < p.len(),
        cell.strong >= 1,
        cell.readers >= 0,
        cell.writer ==> cell.readers == 0,
        cell.flavor == Flavor::Exclusive ==> cell.readers == 0,
    ensures
        pool_wf(with_cell(p, c, cell)),
{
    let q = with_cell(p, c, cell);
    assert forall|i: int| live(q, i) implies {
        let ci = #[trigger] cellv(q, i);
        ci.strong >= 1 && ci.readers >= 0 && (ci.writer ==> ci.readers == 0) && (ci.flavor
            == Flavor::Exclusive ==> ci.readers == 0)
    } by {
        if i != c {
            assert(cellv(q, i) == cellv(p, i));
            assert(live(p, i));
        }
    }
}

/// The pool's well-formedness is preserved by every transition: granting
/// and releasing locks, taking and dropping references, and overwriting a
/// payload.  Together with the constructors, which establish it, this makes
/// well-formedness an invariant of every reachable pool.
pub proof fn lemma_transitions_preserve_wf<T>(p: Seq<Option<CellV<T>>>, c: int, v: T)
    requires
        pool_wf(p),
        live(p, c),
    ensures
        read_available(cellv(p, c)) ==> pool_wf(grant_read(p, c)),
        write_available(cellv(p, c)) ==> pool_wf(grant_write(p, c)),
        cellv(p, c).writer ==> pool_wf(release_write(p, c)),
        (match cellv(p, c).flavor {
            Flavor::Exclusive => cellv(p, c).writer,
            Flavor::Shared => cellv(p, c).readers >= 1,
        }) ==> pool_wf(release_read(p, c)),
        pool_wf(inc_strong(p, c)),
        pool_wf(dec_or_destroy(p, c)),
        pool_wf(set_value(p, c, v)),
{
    let cell = cellv(p, c);
    if read_available(cell) {
        match cell.flavor {
            Flavor::Exclusive => lemma_with_cell_wf(
                p,
                c,
                CellV { strong: cell.strong + 1, writer: true, ..cell },
            ),
            Flavor::Shared => lemma_with_cell_wf(
                p,
                c,
                CellV { strong: cell.strong + 1, readers: cell.readers + 1, ..cell },
            ),
        }
    }
    if write_available(cell) {
        lemma_with_cell_wf(p, c, CellV { strong: cell.strong + 1, writer: true, ..cell });
    }
    if cell.writer && cell.strong != 1 {
        lemma_with_cell_wf(p, c, CellV { strong: cell.strong - 1, writer: false, ..cell });
    }
    if cell.strong != 1 {
        match cell.flavor {
            Flavor::Exclusive => {
                if cell.writer {
                    lemma_with_cell_wf(
                        p,
                        c,
                        CellV { strong: cell.strong - 1, writer: false, ..cell },
                    );
                }
            },
            Flavor::Shared => {
                if cell.readers >= 1 {
                    lemma_with_cell_wf(
                        p,
                        c,
                        CellV { strong: cell.strong - 1, readers: cell.readers - 1, ..cell },
                    );
                }
            },
        }
        lemma_with_cell_wf(p, c, CellV { strong: cell.strong - 1, ..cell });
    }
    lemma_with_cell_wf(p, c, CellV { strong: cell.strong + 1, ..cell });
    lemma_with_cell_wf(p, c, CellV { value: v, ..cell });
    assert forall|q: Seq<Option<CellV<T>>>| q == p.update(c, Option::<CellV<T>>::None)
        implies pool_wf(q) by {
        assert forall|i: int| live(q, i) implies {
            let ci = #[trigger] cellv(q, i);
            ci.strong >= 1 && ci.readers >= 0 && (ci.writer ==> ci.readers == 0) && (ci.flavor
                == Flavor::Exclusive ==> ci.readers == 0)
        } by {
            assert(i != c);
            assert(cellv(q, i) == cellv(p, i));
            assert(live(p, i));
        }
    }
}

impl<T> CellPool<T> {
    /// An empty pool.
    pub fn new() -> (r: CellPool<T>)
        ensures
            r@ == Seq::<Option<CellV<T>>>::empty(),
            pool_wf(r@),
    {
        let r = CellPool { slots: Vec::new() };
        proof {
            assert(r@ =~= Seq::<Option<CellV<T>>>::empty());
        }
        r
    }

    /// Wraps a value into a fresh cell with one reference and no lock held.
    pub(crate) fn fresh(&mut self, ty: TypeExpr, flavor: Flavor, value: T) -> (c: usize)
        ensures
            c == old(self)@.len(),
            final(self)@ == old(self)@.push(
                Option::Some(
                    CellV { ty: ty@, flavor, strong: 1, readers: 0, writer: false, value },
                ),
            ),
            pool_wf(old(self)@) ==> pool_wf(final(self)@),
    {
        let c = self.slots.len();
        let ghost before = self@;
        self.slots.push(
            Option::Some(Cell { ty, flavor, strong: 1, readers: 0, writer: false, value }),
        );
        proof {
            assert(self@ =~= before.push(
                Option::Some(
                    CellV {
                        ty: self.slots@.last()->Some_0.ty@,
                        flavor,
                        strong: 1,
                        readers: 0,
                        writer: false,
                        value: self.slots@.last()->Some_0.value,
                    },
                ),
            ));
            if pool_wf(before) {
                assert forall|i: int| live(self@, i) implies {
                    let cell = #[trigger] cellv(self@, i);
                    cell.strong >= 1 && cell.readers >= 0 && (cell.writer ==> cell.readers == 0)
                        && (cell.flavor == Flavor::Exclusive ==> cell.readers == 0)
                } by {
                    if i < before.len() {
                        assert(cellv(self@, i) == cellv(before, i));
                        assert(live(before, i));
                    }
                }
            }
        }
        c
    }
    /// The runtime storage identity of cell `c`.
    pub(crate) fn storage_key(&self, c: usize) -> (r: crate::keys::StorageKey)
        requires
            live(self@, c as int),
        ensures
            r@ == storage_of(cellv(self@, c as int)),
    {
        match &self.slots[c] {
            Option::Some(cell) => {
                let wrap = match cell.flavor {
                    Flavor::Exclusive => Wrap::Exclusive,
                    Flavor::Shared => Wrap::Shared,
                };
                crate::keys::StorageKey::new(wrap, cell.ty.clone_expr())
            },
            Option::None => {
                proof {
                    assert(false);
                }
                crate::keys::StorageKey::new(Wrap::Plain, TypeExpr::plain(0))
            },
        }
    }

    /// Whether a read lock on cell `c` can be granted at once.
    pub(crate) fn read_avail(&self, c: usize) -> (r: bool)
        requires
            live(self@, c as int),
        ensures
            r == read_available(cellv(self@, c as int)),
    {
        match &self.slots[c] {
            Option::Some(cell) => match cell.flavor {
                Flavor::Exclusive => cell.readers == 0 && !cell.writer,
                Flavor::Shared => !cell.writer,
            },
            Option::None => {
                proof {
                    assert(false);
                }
                false
            },
        }
    }

    /// Whether a write lock on cell `c` can be granted at once.
    pub(crate) fn write_avail(&self, c: usize) -> (r: bool)
        requires
            live(self@, c as int),
        ensures
            r == write_available(cellv(self@, c as int)),
    {
        match &self.slots[c] {
            Option::Some(cell) => cell.readers == 0 && !cell.writer,
            Option::None => {
                proof {
                    assert(false);
                }
                false
            },
        }
    }

    /// Grants a read lock on cell `c` and takes one reference for the
    /// handle that holds it.
    pub(crate) fn grant_read_at(&mut self, c: usize)
        requires
            live(old(self)@, c as int),
            read_available(cellv(old(self)@, c as int)),
            cellv(old(self)@, c as int).strong < u64::MAX,
            cellv(old(self)@, c as int).readers < u64::MAX,
        ensures
            final(self)@ == grant_read(old(self)@, c as int),
    {
        match &mut self.slots[c] {
            Option::Some(cell) => {
                cell.strong = cell.strong + 1;
                match cell.flavor {
                    Flavor::Exclusive => {
                        cell.writer = true;
                    },
                    Flavor::Shared => {
                        cell.readers = cell.readers + 1;
                    },
                }
            },
            Option::None => {
                proof {
                    assert(false);
                }
            },
        }
        proof {
            assert(final(self)@ =~= grant_read(old(self)@, c as int));
        }
    }

    /// Grants a write lock on cell `c` and takes one reference for the
    /// handle that holds it.
    pub(crate) fn grant_write_at(&mut self, c: usize)
        requires
            live(old(self)@, c as int),
            write_available(cellv(old(self)@, c as int)),
            cellv(old(self)@, c as int).strong < u64::MAX,
        ensures
            final(self)@ == grant_write(old(self)@, c as int),
    {
        match &mut self.slots[c] {
            Option::Some(cell) => {
                cell.strong = cell.strong + 1;
                cell.writer = true;
            },
            Option::None => {
                proof {
                    assert(false);
                }
            },
        }
        proof {
            assert(final(self)@ =~= grant_write(old(self)@, c as int));
        }
    }

    /// Takes the cell in slot `c` out, leaving the slot destroyed.
    fn take_out(&mut self, c: usize) -> (r: Cell<T>)
        requires
            live(old(self)@, c as int),
        ensures
            final(self)@ == old(self)@.update(c as int, Option::<CellV<T>>::None),
            r.view() == cellv(old(self)@, c as int),
    {
        let mut tmp: Option<Cell<T>> = Option::None;
        core::mem::swap(&mut tmp, &mut self.slots[c]);
        proof {
            assert(final(self)@ =~= old(self)@.update(c as int, Option::<CellV<T>>::None));
        }
        match tmp {
            Option::Some(cell) => cell,
            Option::None => {
                proof {
                    assert(false);
                }
                vstd::pervasive::unreached()
            },
        }
    }

    /// Releases a read handle on cell `c`: the lock is let go, the handle's
    /// reference dropped, and the payload returned — destroyed — when that
    /// reference was the last one.
    pub(crate) fn release_read_at(&mut self, c: usize) -> (r: Option<T>)
        requires
            live(old(self)@, c as int),
            cellv(old(self)@, c as int).strong >= 1,
            cellv(old(self)@, c as int).flavor == Flavor::Exclusive ==> cellv(
                old(self)@,
                c as int,
            ).writer,
            cellv(old(self)@, c as int).flavor == Flavor::Shared ==> cellv(
                old(self)@,
                c as int,
            ).readers >= 1,
        ensures
            final(self)@ == release_read(old(self)@, c as int),
            r == if cellv(old(self)@, c as int).strong == 1 {
                Option::Some(cellv(old(self)@, c as int).value)
            } else {
                Option::<T>::None
            },
    {
        let destroy = match &self.slots[c] {
            Option::Some(cell) => cell.strong == 1,
            Option::None => {
                proof {
                    assert(false);
                }
                false
            },
        };
        if destroy {
            let cell = self.take_out(c);
            Option::Some(cell.value)
        } else {
            match &mut self.slots[c] {
                Option::Some(cell) => {
                    cell.strong = cell.strong - 1;
                    match cell.flavor {
                        Flavor::Exclusive => {
                            cell.writer = false;
                        },
                        Flavor::Shared => {
                            cell.readers = cell.readers - 1;
                        },
                    }
                },
                Option::None => {
                    proof {
                        assert(false);
                    }
                },
            }
            proof {
                assert(final(self)@ =~= release_read(old(self)@, c as int));
            }
            Option::None
        }
    }

    /// Releases a write handle on cell `c`, in the same way.
    pub(crate) fn release_write_at(&mut self, c: usize) -> (r: Option<T>)
        requires
            live(old(self)@, c as int),
            cellv(old(self)@, c as int).strong >= 1,
            cellv(old(self)@, c as int).writer,
        ensures
            final(self)@ == release_write(old(self)@, c as int),
            r == if cellv(old(self)@, c as int).strong == 1 {
                Option::Some(cellv(old(self)@, c as int).value)
            } else {
                Option::<T>::None
            },
    {
        let destroy = match &self.slots[c] {
            Option::Some(cell) => cell.strong == 1,
            Option::None => {
                proof {
                    assert(false);
                }
                false
            },
        };
        if destroy {
            let cell = self.take_out(c);
            Option::Some(cell.value)
        } else {
            match &mut self.slots[c] {
                Option::Some(cell) => {
                    cell.strong = cell.strong - 1;
                    cell.writer = false;
                },
                Option::None => {
                    proof {
                        assert(false);
                    }
                },
            }
            proof {
                assert(final(self)@ =~= release_write(old(self)@, c as int));
            }
            Option::None
        }
    }

    /// Takes one more reference to cell `c`.
    pub(crate) fn inc_strong_at(&mut self, c: usize)
        requires
            live(old(self)@, c as int),
            cellv(old(self)@, c as int).strong < u64::MAX,
        ensures
            final(self)@ == inc_strong(old(self)@, c as int),
    {
        match &mut self.slots[c] {
            Option::Some(cell) => {
                cell.strong = cell.strong + 1;
            },
            Option::None => {
                proof {
                    assert(false);
                }
            },
        }
        proof {
            assert(final(self)@ =~= inc_strong(old(self)@, c as int));
        }
    }

    /// Drops one reference to cell `c`, returning the payload — destroyed —
    /// when it was the last one.
    pub(crate) fn dec_strong_at(&mut self, c: usize) -> (r: Option<T>)
        requires
            live(old(self)@, c as int),
            cellv(old(self)@, c as int).strong >= 1,
        ensures
            final(self)@ == dec_or_destroy(old(self)@, c as int),
            r == if cellv(old(self)@, c as int).strong == 1 {
                Option::Some(cellv(old(self)@, c as int).value)
            } else {
                Option::<T>::None
            },
    {
        let destroy = match &self.slots[c] {
            Option::Some(cell) => cell.strong == 1,
            Option::None => {
                proof {
                    assert(false);
                }
                false
            },
        };
        if destroy {
            let cell = self.take_out(c);
            Option::Some(cell.value)
        } else {
            match &mut self.slots[c] {
                Option::Some(cell) => {
                    cell.strong = cell.strong - 1;
                },
                Option::None => {
                    proof {
                        assert(false);
                    }
                },
            }
            proof {
                assert(final(self)@ =~= dec_or_destroy(old(self)@, c as int));
            }
            Option::None
        }
    }

    /// Overwrites the payload of cell `c`.
    pub(crate) fn set_value_at(&mut self, c: usize, v: T)
        requires
            live(old(self)@, c as int),
        ensures
            final(self)@ == set_value(old(self)@, c as int, v),
    {
        match &mut self.slots[c] {
            Option::Some(cell) => {
                cell.value = v;
            },
            Option::None => {
                proof {
                    assert(false);
                }
            },
        }
        proof {
            assert(final(self)@ =~= set_value(old(self)@, c as int, v));
        }
    }

    /// Exchanges the payload of cell `c` with the value behind `v`.
    pub(crate) fn swap_value(&mut self, c: usize, v: &mut T)
        requires
            live(old(self)@, c as int),
        ensures
            final(self)@ == set_value(old(self)@, c as int, *old(v)),
            *final(v) == cellv(old(self)@, c as int).value,
    {
        match &mut self.slots[c] {
            Option::Some(cell) => {
                core::mem::swap(&mut cell.value, v);
            },
            Option::None => {
                proof {
                    assert(false);
                }
            },
        }
        proof {
            assert(final(self)@ =~= set_value(old(self)@, c as int, *old(v)));
        }
    }

    /// A borrow of the payload of cell `c`.
    pub(crate) fn borrow_value(&self, c: usize) -> (r: &T)
        requires
            live(self@, c as int),
        ensures
            *r == cellv(self@, c as int).value,
    {
        match &self.slots[c] {
            Option::Some(cell) => &cell.value,
            Option::None => {
                proof {
                    assert(false);
                }
                vstd::pervasive::unreached()
            },
        }
    }
}

} // verus!
