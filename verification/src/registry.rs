//! The process-wide registry of type names, coercions and type information.
//!
//! The registry is three maps guarded as one unit: display names of storage
//! forms, the set of registered coercion-function pairs keyed by (storage
//! form, requested interface set), and introspection metadata keyed by type
//! expression.  It is append-only: registration is idempotent, and an entry
//! once recorded is never removed.
//!
//! A registered coercion pair converts a borrow (or mutable borrow) of the
//! stored form into a borrow of the requested interface.  The conversion
//! itself has no observable content of its own — a coerced handle views the
//! stored value — so an entry here records exactly which conversions exist,
//! which is what a coercion lookup consults.

use vstd::prelude::*;

use crate::keys::{StorageKey, StorageKeyV, TypeExpr, TypeExprV, Wrap};
use crate::table::{KeyEq, Table};

verus! {

impl KeyEq for StorageKey {
    fn key_eq(&self, other: &Self) -> (r: bool) {
        crate::keys::storage_key_eq(self, other)
    }
}

impl KeyEq for TypeExpr {
    fn key_eq(&self, other: &Self) -> (r: bool) {
        crate::keys::type_expr_eq(self, other)
    }
}

/// Type information kept for introspection: the canonical fully qualified
/// name and the names of the implemented interfaces, in registration order.
pub struct TypeInfo {
    pub fq_name: String,
    pub implementations: Vec<String>,
}

/// The mathematical content of a `TypeInfo`.
pub ghost struct TypeInfoV {
    pub fq_name: Seq<char>,
    pub implementations: Seq<Seq<char>>,
}

impl View for TypeInfo {
    type V = TypeInfoV;

    open spec fn view(&self) -> TypeInfoV {
        TypeInfoV { fq_name: self.fq_name@, implementations: self.implementations.deep_view() }
    }
}

impl TypeInfo {
    /// An equal copy, made field by field.
    pub fn duplicate(&self) -> (r: TypeInfo)
        ensures
            r@ == self@,
    {
        let mut implementations: Vec<String> = Vec::new();
        let mut i: usize = 0;
        while i < self.implementations.len()
            invariant
                0 <= i <= self.implementations@.len(),
                implementations@.len() == i,
                forall|j: int|
                    0 <= j < i ==> implementations.deep_view()[j]
                        == self.implementations.deep_view()[j],
            decreases self.implementations@.len() - i,
        {
            let s = self.implementations[i].clone();
            proof {
                assert(s == self.implementations@[i as int]);
            }
            let ghost before = implementations.deep_view();
            implementations.push(s);
            proof {
                assert forall|j: int|
                    0 <= j < i + 1 implies implementations.deep_view()[j]
                        == self.implementations.deep_view()[j] by {
                    assert(implementations.deep_view()[j] == implementations@[j].deep_view());
                    if j < i {
                        assert(implementations@[j].deep_view() == before[j]);
                    } else {
                        assert(implementations@[j] == s);
                    }
                }
            }
            i += 1;
        }
        proof {
            assert(implementations.deep_view() =~~= self.implementations.deep_view());
        }
        let r = TypeInfo { fq_name: self.fq_name.clone(), implementations };
        proof {
            assert(r@ == self@);
        }
        r
    }
}

/// The key of a registered coercion: the stored form it reads from and the
/// interface set it produces.
pub struct CoercionKey {
    pub storage: StorageKey,
    pub target: TypeExpr,
}

/// The mathematical identity of a coercion key.
pub ghost struct CoercionKeyV {
    pub storage: StorageKeyV,
    pub target: TypeExprV,
}

impl View for CoercionKey {
    type V = CoercionKeyV;

    open spec fn view(&self) -> CoercionKeyV {
        CoercionKeyV { storage: self.storage@, target: self.target@ }
    }
}

impl KeyEq for CoercionKey {
    fn key_eq(&self, other: &Self) -> (r: bool) {
        let r = crate::keys::storage_key_eq(&self.storage, &other.storage)
            && crate::keys::type_expr_eq(&self.target, &other.target);
        proof {
            if r {
                assert(self@ == other@);
            } else {
                assert(self@.storage == other@.storage && self@.target == other@.target ==> r);
            }
        }
        r
    }
}

/// Stands for a registered pair of conversion functions (borrow and mutable
/// borrow).  The pair's only observable effect is that coercion through it
/// views the stored value, so the entry itself carries no further content.
pub struct CoercionEntry {}

impl View for CoercionEntry {
    type V = ();

    open spec fn view(&self) -> () {
        ()
    }
}

/// The registry: display names, registered coercions, and type information.
pub struct Registry {
    types: Table<StorageKey, String>,
    coercions: Table<CoercionKey, CoercionEntry>,
    type_info_map: Table<TypeExpr, TypeInfo>,
}

impl Registry {
    /// Display names of registered storage forms.
    pub closed spec fn names(self) -> Map<StorageKeyV, Seq<char>> {
        self.types.map()
    }

    /// The set of registered coercions, as a map with unit values.
    pub closed spec fn coercions(self) -> Map<CoercionKeyV, ()> {
        self.coercions.map()
    }

    /// Whether a coercion from stored form `s` to interface set `t` is
    /// registered.
    pub open spec fn has_coercion(self, s: StorageKeyV, t: TypeExprV) -> bool {
        self.coercions().contains_key(CoercionKeyV { storage: s, target: t })
    }

    /// Registered type information.
    pub closed spec fn infos(self) -> Map<TypeExprV, TypeInfoV> {
        self.type_info_map.map()
    }

    /// The registry's internal tables are well formed: keys are pairwise
    /// distinct, so a coercion lookup finds at most one entry for a given
    /// (stored form, interface set) pair.
    pub closed spec fn wf(self) -> bool {
        self.types.wf() && self.coercions.wf() && self.type_info_map.wf()
    }

    /// A new, empty registry.
    pub fn new() -> (r: Registry)
        ensures
            r.wf(),
            r.names() == Map::<StorageKeyV, Seq<char>>::empty(),
            r.coercions() == Map::<CoercionKeyV, ()>::empty(),
            r.infos() == Map::<TypeExprV, TypeInfoV>::empty(),
    {
        Registry { types: Table::new(), coercions: Table::new(), type_info_map: Table::new() }
    }

    /// Records the coercion-function pair for one (stored form, interface
    /// set) key.
    pub fn register_coercion_fns(&mut self, storage: StorageKey, target: TypeExpr)
        requires
            old(self).wf(),
        ensures
            final(self).wf(),
            final(self).coercions() == old(self).coercions().insert(
                (CoercionKeyV { storage: storage@, target: target@ }),
                (),
            ),
            final(self).names() == old(self).names(),
            final(self).infos() == old(self).infos(),
    {
        self.coercions.insert(CoercionKey { storage, target }, CoercionEntry {});
        proof {
            if old(self).coercions().contains_key(
                CoercionKeyV { storage: storage@, target: target@ },
            ) {
                assert(final(self).coercions() =~= old(self).coercions().insert(
                    (CoercionKeyV { storage: storage@, target: target@ }),
                    (),
                ));
            }
        }
    }

    /// Records the display name of one storage form, if absent.
    pub fn register_type(&mut self, key: StorageKey, name: &str)
        requires
            old(self).wf(),
        ensures
            final(self).wf(),
            final(self).names() == if old(self).names().contains_key(key@) {
                old(self).names()
            } else {
                old(self).names().insert(key@, name@)
            },
            final(self).coercions() == old(self).coercions(),
            final(self).infos() == old(self).infos(),
    {
        self.types.insert(key, name.to_owned());
    }

    /// Records type information for a type expression, if absent.
    pub fn register_type_info(&mut self, ty: TypeExpr, fq_name: &str, impls: Vec<String>)
        requires
            old(self).wf(),
        ensures
            final(self).wf(),
            final(self).infos() == if old(self).infos().contains_key(ty@) {
                old(self).infos()
            } else {
                old(self).infos().insert(
                    ty@,
                    (TypeInfoV { fq_name: fq_name@, implementations: impls.deep_view() }),
                )
            },
            final(self).names() == old(self).names(),
            final(self).coercions() == old(self).coercions(),
    {
        self.type_info_map.insert(ty, TypeInfo { fq_name: fq_name.to_owned(), implementations: impls });
    }

    /// Registers the coercion pair from `ty` to `target` for both supported
    /// lock wrappers of `ty`.
    pub fn register(&mut self, ty: &TypeExpr, target: &TypeExpr)
        requires
            old(self).wf(),
        ensures
            final(self).wf(),
            final(self).coercions() == old(self).coercions().insert(
                (CoercionKeyV {
                    storage: StorageKeyV { wrap: Wrap::Exclusive, ty: ty@ },
                    target: target@,
                }),
                (),
            ).insert(
                (CoercionKeyV {
                    storage: StorageKeyV { wrap: Wrap::Shared, ty: ty@ },
                    target: target@,
                }),
                (),
            ),
            final(self).names() == old(self).names(),
            final(self).infos() == old(self).infos(),
    {
        self.register_coercion_fns(
            StorageKey { wrap: Wrap::Exclusive, ty: ty.clone_expr() },
            target.clone_expr(),
        );
        self.register_coercion_fns(
            StorageKey { wrap: Wrap::Shared, ty: ty.clone_expr() },
            target.clone_expr(),
        );
    }

    /// Whether the coercion-function pair for (stored form, interface set)
    /// has been registered.
    pub fn has_coercion_fns(&self, storage: &StorageKey, target: &TypeExpr) -> (r: bool)
        requires
            self.wf(),
        ensures
            r == self.has_coercion(storage@, target@),
    {
        self.coercions.contains(
            &CoercionKey { storage: storage.clone_key(), target: target.clone_expr() },
        )
    }

    /// The display name of a storage form; a fixed placeholder when the form
    /// was never registered.
    pub fn display_name(&self, key: &StorageKey) -> (r: String)
        requires
            self.wf(),
        ensures
            r@ == if self.names().contains_key(key@) {
                self.names()[key@]
            } else {
                "<unregistered type>"@
            },
    {
        match self.types.get(key) {
            Some(name) => name.clone(),
            None => "<unregistered type>".to_owned(),
        }
    }

    /// The registered type information for `ty`.  Asking for a type that
    /// was never registered is a binding defect, surfaced fatally at the
    /// failing call, so the caller must know the type is registered.
    pub fn get_type_info(&self, ty: &TypeExpr) -> (r: TypeInfo)
        requires
            self.wf(),
            self.infos().contains_key(ty@),
        ensures
            r@ == self.infos()[ty@],
    {
        let info = self.type_info_map.get(ty);
        match info {
            Some(info) => info.duplicate(),
            None => {
                proof {
                    assert(false);
                }
                TypeInfo { fq_name: String::new(), implementations: Vec::new() }
            },
        }
    }
}

/// Registers, in `registry`, the coercion pair from `ty` to `target` for
/// both supported lock wrappers of `ty`.
pub fn register(registry: &mut Registry, ty: &TypeExpr, target: &TypeExpr)
    requires
        old(registry).wf(),
    ensures
        final(registry).wf(),
        final(registry).coercions() == old(registry).coercions().insert(
            (CoercionKeyV {
                storage: StorageKeyV { wrap: Wrap::Exclusive, ty: ty@ },
                target: target@,
            }),
            (),
        ).insert(
            (CoercionKeyV {
                storage: StorageKeyV { wrap: Wrap::Shared, ty: ty@ },
                target: target@,
            }),
            (),
        ),
        final(registry).names() == old(registry).names(),
        final(registry).infos() == old(registry).infos(),
{
    registry.register(ty, target)
}

/// `m` with `v` recorded under `k`, unless `k` is already present.
pub open spec fn insert_if_absent<K, V>(m: Map<K, V>, k: K, v: V) -> Map<K, V> {
    if m.contains_key(k) {
        m
    } else {
        m.insert(k, v)
    }
}

/// The storage forms whose names `register_type` records for a type: the
/// bare form and both lock-wrapped forms.
pub open spec fn named_forms(names: Map<StorageKeyV, Seq<char>>, ty: TypeExprV, name: Seq<char>) -> Map<
    StorageKeyV,
    Seq<char>,
> {
    insert_if_absent(
        insert_if_absent(
            insert_if_absent(names, StorageKeyV { wrap: Wrap::Plain, ty }, name),
            StorageKeyV { wrap: Wrap::Exclusive, ty },
            name,
        ),
        StorageKeyV { wrap: Wrap::Shared, ty },
        name,
    )
}

/// Registers, in `registry`, the display name of `ty` under its bare form
/// and under both of its lock-wrapped forms.
pub fn register_type(registry: &mut Registry, ty: &TypeExpr, name: &str)
    requires
        old(registry).wf(),
    ensures
        final(registry).wf(),
        final(registry).names() == named_forms(old(registry).names(), ty@, name@),
        final(registry).coercions() == old(registry).coercions(),
        final(registry).infos() == old(registry).infos(),
{
    registry.register_type(StorageKey { wrap: Wrap::Plain, ty: ty.clone_expr() }, name);
    registry.register_type(StorageKey { wrap: Wrap::Exclusive, ty: ty.clone_expr() }, name);
    registry.register_type(StorageKey { wrap: Wrap::Shared, ty: ty.clone_expr() }, name);
}

/// Registers, in `registry`, introspection metadata for `ty`, if absent.
pub fn register_type_info(registry: &mut Registry, ty: &TypeExpr, fq_name: &str, impls: Vec<String>)
    requires
        old(registry).wf(),
    ensures
        final(registry).wf(),
        final(registry).infos() == if old(registry).infos().contains_key(ty@) {
            old(registry).infos()
        } else {
            old(registry).infos().insert(
                ty@,
                (TypeInfoV { fq_name: fq_name@, implementations: impls.deep_view() }),
            )
        },
        final(registry).names() == old(registry).names(),
        final(registry).coercions() == old(registry).coercions(),
{
    registry.register_type_info(ty.clone_expr(), fq_name, impls)
}

/// The registered type information for `ty` in `registry`.
pub fn get_type_info(registry: &Registry, ty: &TypeExpr) -> (r: TypeInfo)
    requires
        registry.wf(),
        registry.infos().contains_key(ty@),
    ensures
        r@ == registry.infos()[ty@],
{
    registry.get_type_info(ty)
}

/// A registration plugin: one initializer, to be run once at startup by the
/// host's module-discovery mechanism, which lives outside this library.
pub struct Plugin<F> {
    initializer: F,
}

impl<F> Plugin<F> {
    /// The held initializer.
    pub closed spec fn spec_initializer(self) -> F {
        self.initializer
    }

    /// A plugin around the given initializer.
    pub fn new(initializer: F) -> (r: Plugin<F>)
        ensures
            r.spec_initializer() == initializer,
    {
        Plugin { initializer }
    }

    /// A borrow of the initializer, for the host to run.
    pub fn initializer(&self) -> (r: &F)
        ensures
            *r == self.spec_initializer(),
    {
        &self.initializer
    }

    /// Hands the initializer out for the host to run.
    pub fn into_initializer(self) -> (r: F)
        ensures
            r == self.spec_initializer(),
    {
        self.initializer
    }
}

} // verus!
