//! Stable keys that identify the types flowing through the registry.
//!
//! The registry must tell types apart without sharing a type system with the
//! foreign runtime, so a type is named by an explicit key: a `u64` descriptor
//! for its base name, the set of marker-interface keys combined with it, and
//! flags for the owning indirections (`Box`-like and shared-allocation
//! wrappers) it sits behind.  Equality of keys stands for identity of the
//! underlying types.

use vstd::prelude::*;

verus! {

/// The lock wrapper a stored value is kept behind: none at all, an exclusive
/// lock (one accessor at a time), or a shared lock (many readers or one
/// writer).
#[derive(Clone, Copy, Debug, PartialEq, Eq, Structural)]
pub enum Wrap {
    Plain,
    Exclusive,
    Shared,
}

/// A type expression: the base type descriptor, the marker interfaces
/// combined with it, and whether it sits behind an owning indirection
/// (`boxed`) or a counted shared allocation (`counted`).
///
/// The order and multiplicity of `markers` is irrelevant to the identity of
/// the type expression: the view collapses it to a set.
#[derive(Clone, Debug)]
pub struct TypeExpr {
    pub boxed: bool,
    pub counted: bool,
    pub base: u64,
    pub markers: Vec<u64>,
}

/// The mathematical identity of a type expression.
pub ghost struct TypeExprV {
    pub boxed: bool,
    pub counted: bool,
    pub base: u64,
    pub markers: Set<u64>,
}

impl View for TypeExpr {
    type V = TypeExprV;

    open spec fn view(&self) -> TypeExprV {
        TypeExprV {
            boxed: self.boxed,
            counted: self.counted,
            base: self.base,
            markers: self.markers@.to_set(),
        }
    }
}

impl TypeExpr {
    /// A bare type expression: just a base key.
    pub fn plain(base: u64) -> (r: TypeExpr)
        ensures
            r@ == (TypeExprV { boxed: false, counted: false, base, markers: Set::<u64>::empty() }),
    {
        let r = TypeExpr { boxed: false, counted: false, base, markers: Vec::new() };
        proof {
            assert(r@.markers =~= Set::<u64>::empty());
        }
        r
    }

    /// An interface set: a base interface key combined with marker keys.
    pub fn with_markers(base: u64, markers: Vec<u64>) -> (r: TypeExpr)
        ensures
            r@ == (TypeExprV {
                boxed: false,
                counted: false,
                base,
                markers: markers@.to_set(),
            }),
    {
        TypeExpr { boxed: false, counted: false, base, markers }
    }

    /// An equal copy, made field by field.
    pub fn clone_expr(&self) -> (r: TypeExpr)
        ensures
            r@ == self@,
    {
        let mut markers: Vec<u64> = Vec::new();
        let mut i: usize = 0;
        while i < self.markers.len()
            invariant
                0 <= i <= self.markers@.len(),
                markers@ =~= self.markers@.take(i as int),
            decreases self.markers@.len() - i,
        {
            markers.push(self.markers[i]);
            i += 1;
        }
        proof {
            assert(markers@ =~= self.markers@);
        }
        TypeExpr { boxed: self.boxed, counted: self.counted, base: self.base, markers }
    }

    /// The same type behind an owning indirection.
    pub fn boxed(&self) -> (r: TypeExpr)
        ensures
            r@ == (TypeExprV { boxed: true, ..self@ }),
    {
        let mut r = self.clone_expr();
        r.boxed = true;
        r
    }

    /// The same type behind a counted shared allocation.
    pub fn counted(&self) -> (r: TypeExpr)
        ensures
            r@ == (TypeExprV { counted: true, ..self@ }),
    {
        let mut r = self.clone_expr();
        r.counted = true;
        r
    }
}

/// The same type expression behind an owning indirection, as a view.
pub open spec fn boxed_v(t: TypeExprV) -> TypeExprV {
    TypeExprV { boxed: true, ..t }
}

/// The same type expression behind a counted shared allocation, as a view.
pub open spec fn counted_v(t: TypeExprV) -> TypeExprV {
    TypeExprV { counted: true, ..t }
}

/// A storage key: the lock wrapper applied to a type expression.  This is
/// what identifies the payload of a type-erased cell at run time.
#[derive(Clone, Debug)]
pub struct StorageKey {
    pub wrap: Wrap,
    pub ty: TypeExpr,
}

/// The mathematical identity of a storage key.
pub ghost struct StorageKeyV {
    pub wrap: Wrap,
    pub ty: TypeExprV,
}

impl View for StorageKey {
    type V = StorageKeyV;

    open spec fn view(&self) -> StorageKeyV {
        StorageKeyV { wrap: self.wrap, ty: self.ty@ }
    }
}

impl StorageKey {
    pub fn new(wrap: Wrap, ty: TypeExpr) -> (r: StorageKey)
        ensures
            r@ == (StorageKeyV { wrap, ty: ty@ }),
    {
        StorageKey { wrap, ty }
    }

    /// An equal copy, made field by field.
    pub fn clone_key(&self) -> (r: StorageKey)
        ensures
            r@ == self@,
    {
        StorageKey { wrap: self.wrap, ty: self.ty.clone_expr() }
    }
}

/// An equal copy of a key list.
pub fn clone_keys(v: &Vec<u64>) -> (r: Vec<u64>)
    ensures
        r@ == v@,
{
    let mut r: Vec<u64> = Vec::new();
    let mut i: usize = 0;
    while i < v.len()
        invariant
            0 <= i <= v@.len(),
            r@ =~= v@.take(i as int),
        decreases v@.len() - i,
    {
        r.push(v[i]);
        i += 1;
    }
    proof {
        assert(r@ =~= v@);
    }
    r
}

/// Whether `v` holds `x`.
pub fn key_set_contains(v: &Vec<u64>, x: u64) -> (r: bool)
    ensures
        r == v@.to_set().contains(x),
{
    let mut i: usize = 0;
    while i < v.len()
        invariant
            0 <= i <= v@.len(),
            forall|j: int| 0 <= j < i ==> v@[j] != x,
        decreases v@.len() - i,
    {
        if v[i] == x {
            assert(v@.contains(x));
            return true;
        }
        i += 1;
    }
    assert(!v@.contains(x));
    false
}

/// Whether every key of `a` is a key of `b`.
pub fn key_set_subset(a: &Vec<u64>, b: &Vec<u64>) -> (r: bool)
    ensures
        r == a@.to_set().subset_of(b@.to_set()),
{
    let mut i: usize = 0;
    while i < a.len()
        invariant
            0 <= i <= a@.len(),
            forall|j: int| 0 <= j < i ==> b@.to_set().contains(#[trigger] a@[j]),
        decreases a@.len() - i,
    {
        if !key_set_contains(b, a[i]) {
            assert(a@.contains(a@[i as int]));
            return false;
        }
        i += 1;
    }
    assert forall|x: u64| a@.to_set().contains(x) implies b@.to_set().contains(x) by {
        let j = choose|j: int| 0 <= j < a@.len() && a@[j] == x;
        assert(b@.to_set().contains(a@[j]));
    }
    true
}

/// Whether `a` and `b` hold the same keys.
pub fn key_set_eq(a: &Vec<u64>, b: &Vec<u64>) -> (r: bool)
    ensures
        r == (a@.to_set() == b@.to_set()),
{
    let r = key_set_subset(a, b) && key_set_subset(b, a);
    proof {
        if r {
            assert(a@.to_set() =~= b@.to_set());
        }
    }
    r
}

/// Whether two type expressions name the same type.
pub fn type_expr_eq(a: &TypeExpr, b: &TypeExpr) -> (r: bool)
    ensures
        r == (a@ == b@),
{
    let r = a.boxed == b.boxed && a.counted == b.counted && a.base == b.base
        && key_set_eq(&a.markers, &b.markers);
    proof {
        if r {
            assert(a@ == b@);
        } else {
            assert(a@.boxed == b@.boxed && a@.counted == b@.counted && a@.base == b@.base
                && a@.markers == b@.markers ==> r);
        }
    }
    r
}

/// Whether two storage keys name the same stored form.
pub fn storage_key_eq(a: &StorageKey, b: &StorageKey) -> (r: bool)
    ensures
        r == (a@ == b@),
{
    let r = a.wrap == b.wrap && type_expr_eq(&a.ty, &b.ty);
    proof {
        if r {
            assert(a@ == b@);
        } else {
            assert(a@.wrap == b@.wrap && a@.ty == b@.ty ==> r);
        }
    }
    r
}

} // verus!
