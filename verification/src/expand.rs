//! The capability combination expander.
//!
//! Coercion lookup is an exact match on the full requested interface set, so
//! a registered type must be paired in the registry with every interface and
//! marker subset a caller might request.  Given k markers, the expander
//! enumerates all 2^k marker subsets by incremental doubling and registers
//! one coercion per (interface, subset) pair, along with the bare
//! self-coercion.  The marker count is meant to stay small by design, which
//! bounds the 2^k growth.

use vstd::prelude::*;

use crate::keys::{boxed_v, clone_keys, StorageKeyV, TypeExpr, TypeExprV, Wrap};
use crate::registry::{insert_if_absent, named_forms, CoercionKeyV, Registry, TypeInfoV};

verus! {

/// 2 to the power `k`.
pub open spec fn pow2(k: nat) -> nat
    decreases k,
{
    if k == 0 {
        1
    } else {
        2 * pow2((k - 1) as nat)
    }
}

/// All combinations of the given marker keys, built by incremental doubling:
/// starting from the empty combination, each marker in turn duplicates every
/// combination found so far with itself appended.  The first entry is the
/// empty combination, every marker subset appears, and — when the markers are
/// distinct — each subset appears exactly once, 2^k entries in all.
pub fn marker_combinations(markers: &Vec<u64>) -> (r: Vec<Vec<u64>>)
    requires
        markers@.len() <= 20,
    ensures
        r@.len() == pow2(markers@.len() as nat),
        r@.len() >= 1,
        r@[0]@ == Seq::<u64>::empty(),
        forall|i: int|
            0 <= i < r@.len() ==> (#[trigger] r@[i]@.to_set()).subset_of(markers@.to_set()),
        forall|s: Set<u64>|
            #![trigger s.subset_of(markers@.to_set())]
            s.subset_of(markers@.to_set()) ==> exists|i: int|
                0 <= i < r@.len() && r@[i]@.to_set() == s,
        markers@.no_duplicates() ==> forall|i: int, j: int|
            0 <= i < j < r@.len() ==> r@[i]@.to_set() != r@[j]@.to_set(),
{
    let mut combos: Vec<Vec<u64>> = Vec::new();
    combos.push(Vec::new());
    proof {
        assert(combos@[0]@.to_set() =~= Seq::<u64>::empty().to_set());
        assert(markers@.take(0) =~= Seq::<u64>::empty());
        assert(Seq::<u64>::empty().to_set() =~= Set::<u64>::empty());
    }
    let mut mi: usize = 0;
    while mi < markers.len()
        invariant
            0 <= mi <= markers@.len(),
            markers@.len() <= 20,
            combos@.len() == pow2(mi as nat),
            combos@.len() >= 1,
            combos@[0]@ == Seq::<u64>::empty(),
            forall|i: int|
                0 <= i < combos@.len() ==> (#[trigger] combos@[i]@.to_set()).subset_of(
                    markers@.take(mi as int).to_set(),
                ),
            forall|s: Set<u64>|
                #![trigger s.subset_of(markers@.take(mi as int).to_set())]
                s.subset_of(markers@.take(mi as int).to_set()) ==> exists|i: int|
                    0 <= i < combos@.len() && combos@[i]@.to_set() == s,
            markers@.no_duplicates() ==> forall|i: int, j: int|
                0 <= i < j < combos@.len() ==> combos@[i]@.to_set() != combos@[j]@.to_set(),
        decreases markers@.len() - mi,
    {
        let m = markers[mi];
        let n = combos.len();
        let ghost half = combos@;
        let ghost pset = markers@.take(mi as int).to_set();
        proof {
            lemma_pow2_bound(mi as nat);
        }
        let mut ci: usize = 0;
        while ci < n
            invariant
                0 <= ci <= n,
                n == half.len(),
                n <= 0x100000,
                combos@.len() == n + ci,
                combos@.take(n as int) =~= half,
                forall|k: int| 0 <= k < ci ==> combos@[n + k]@ == half[k]@.push(m),
            decreases n - ci,
        {
            let mut c = clone_keys(&combos[ci]);
            c.push(m);
            combos.push(c);
            proof {
                assert(combos@.take(n as int) =~= combos@.drop_last().take(n as int));
            }
            ci += 1;
        }
        proof {
            let next = markers@.take(mi as int + 1);
            let nset = next.to_set();
            assert(next.drop_last() =~= markers@.take(mi as int));
            assert(next.last() == markers@[mi as int]);
            // The new prefix set is the old one with m added.
            assert forall|x: u64| nset.contains(x) <==> (pset.contains(x) || x == m) by {
                if nset.contains(x) {
                    let j = choose|j: int| 0 <= j < next.len() && next[j] == x;
                    if j < mi {
                        assert(markers@.take(mi as int)[j] == x);
                        assert(pset.contains(x));
                    }
                } else {
                    if pset.contains(x) {
                        let j = choose|j: int|
                            0 <= j < markers@.take(mi as int).len() && markers@.take(mi as int)[j]
                                == x;
                        assert(next[j] == x);
                    }
                    if x == m {
                        assert(next[mi as int] == x);
                    }
                }
            }
            assert(nset =~= pset.insert(m));
            // Subset bound for every combination.
            assert forall|i: int|
                0 <= i < combos@.len() implies (#[trigger] combos@[i]@.to_set()).subset_of(
                nset,
            ) by {
                if i < n {
                    assert(combos@[i] == half[i]);
                    assert(combos@[i]@.to_set().subset_of(pset));
                } else {
                    let k = i - n;
                    assert(combos@[i]@ == half[k]@.push(m));
                    assert forall|x: u64| combos@[i]@.to_set().contains(x) implies nset.contains(
                        x,
                    ) by {
                        let j = choose|j: int| 0 <= j < combos@[i]@.len() && combos@[i]@[j] == x;
                        if j < half[k]@.len() {
                            assert(half[k]@.contains(x));
                            assert(half[k]@.to_set().subset_of(pset));
                        } else {
                            assert(x == m);
                        }
                    }
                }
            }
            // Completeness: every subset of the grown prefix is enumerated.
            assert forall|s: Set<u64>|
                #![trigger s.subset_of(nset)]
                s.subset_of(nset) implies exists|i: int|
                0 <= i < combos@.len() && combos@[i]@.to_set() == s by {
                if s.subset_of(pset) {
                    let i = choose|i: int| 0 <= i < half.len() && half[i]@.to_set() == s;
                    assert(combos@[i]@.to_set() == s);
                } else {
                    // s reaches outside the old prefix set, so m is in s.
                    let w = choose|w: u64| s.contains(w) && !pset.contains(w);
                    assert(w == m);
                    let s0 = s.remove(m);
                    assert(s0.subset_of(pset));
                    let i = choose|i: int| 0 <= i < half.len() && half[i]@.to_set() == s0;
                    let gi = n + i;
                    assert(combos@[gi]@ == half[i]@.push(m));
                    assert forall|x: u64| combos@[gi]@.to_set().contains(x) <==> s.contains(
                        x,
                    ) by {
                        if combos@[gi]@.to_set().contains(x) {
                            let j = choose|j: int|
                                0 <= j < combos@[gi]@.len() && combos@[gi]@[j] == x;
                            if j < half[i]@.len() {
                                assert(s0.contains(x));
                            }
                        } else {
                            if s.contains(x) {
                                if x == m {
                                    assert(combos@[gi]@.last() == m);
                                    assert(combos@[gi]@.contains(x));
                                } else {
                                    assert(s0.contains(x));
                                    assert(half[i]@.contains(x));
                                    let j = choose|j: int|
                                        0 <= j < half[i]@.len() && half[i]@[j] == x;
                                    assert(combos@[gi]@[j] == x);
                                    assert(combos@[gi]@.contains(x));
                                }
                            }
                        }
                    }
                    assert(combos@[gi]@.to_set() =~= s);
                }
            }
            // Distinctness, under distinct markers.
            if markers@.no_duplicates() {
                assert(!pset.contains(m)) by {
                    if pset.contains(m) {
                        let j = choose|j: int|
                            0 <= j < markers@.take(mi as int).len() && markers@.take(
                                mi as int,
                            )[j] == m;
                        assert(markers@[j] == markers@[mi as int]);
                    }
                }
                assert forall|i: int, j: int|
                    0 <= i < j < combos@.len() implies combos@[i]@.to_set() != combos@[
                    j
                ]@.to_set() by {
                    if j < n {
                        assert(combos@[i] == half[i] && combos@[j] == half[j]);
                    } else if i >= n {
                        let a = i - n;
                        let b = j - n;
                        assert(combos@[i]@ == half[a]@.push(m));
                        assert(combos@[j]@ == half[b]@.push(m));
                        if combos@[i]@.to_set() == combos@[j]@.to_set() {
                            assert(half[a]@.to_set() != half[b]@.to_set());
                            lemma_push_set(half[a]@, m);
                            lemma_push_set(half[b]@, m);
                            assert(!half[a]@.to_set().contains(m));
                            assert(!half[b]@.to_set().contains(m));
                            assert(half[a]@.to_set().insert(m) == half[b]@.to_set().insert(m));
                            assert forall|x: u64|
                                half[a]@.to_set().contains(x) <==> half[b]@.to_set().contains(
                                x,
                            ) by {
                                if x != m {
                                    assert(half[a]@.to_set().insert(m).contains(x)
                                        == half[b]@.to_set().insert(m).contains(x));
                                }
                            }
                            assert(half[a]@.to_set() =~= half[b]@.to_set());
                        }
                    } else {
                        // One half holds m, the other cannot.
                        let b = j - n;
                        assert(combos@[i] == half[i]);
                        assert(combos@[j]@ == half[b]@.push(m));
                        assert(combos@[j]@[half[b]@.len() as int] == m);
                        assert(combos@[j]@.contains(m));
                        assert(combos@[j]@.to_set().contains(m));
                        if combos@[i]@.to_set().contains(m) {
                            assert(combos@[i]@.to_set().subset_of(pset));
                            assert(pset.contains(m));
                        }
                    }
                }
            }
            assert(combos@[0]@ == Seq::<u64>::empty());
        }
        mi += 1;
    }
    proof {
        assert(markers@.take(markers@.len() as int) =~= markers@);
    }
    combos
}

/// Appending one key adds it to a combination's key set.
proof fn lemma_push_set(s: Seq<u64>, m: u64)
    ensures
        s.push(m).to_set() =~= s.to_set().insert(m),
{
    assert forall|x: u64| s.push(m).to_set().contains(x) <==> s.to_set().insert(m).contains(
        x,
    ) by {
        if s.push(m).to_set().contains(x) {
            let j = choose|j: int| 0 <= j < s.push(m).len() && s.push(m)[j] == x;
            if j < s.len() {
                assert(s.contains(x));
            }
        } else {
            if s.to_set().insert(m).contains(x) {
                if s.to_set().contains(x) {
                    let j = choose|j: int| 0 <= j < s.len() && s[j] == x;
                    assert(s.push(m)[j] == x);
                    assert(s.push(m).contains(x));
                } else {
                    assert(s.push(m).last() == m);
                    assert(s.push(m).contains(m));
                }
            }
        }
    }
}

/// 2^k grows with k; in particular it stays within the doubling bound used
/// by the expander.
proof fn lemma_pow2_bound(k: nat)
    requires
        k <= 20,
    ensures
        pow2(k) <= 0x100000,
{
    lemma_pow2_mono(k, 20);
    assert(pow2(20) == 0x100000) by {
        reveal_with_fuel(pow2, 21);
    }
}

/// 2^a <= 2^b when a <= b.
proof fn lemma_pow2_mono(a: nat, b: nat)
    requires
        a <= b,
    ensures
        pow2(a) <= pow2(b),
    decreases b,
{
    if a < b {
        lemma_pow2_mono(a, (b - 1) as nat);
    }
}

/// A reference to an interface used during registration: its stable key and
/// its fully qualified name.
pub struct TraitRef {
    pub key: u64,
    pub name: String,
}

/// The mathematical content of a `TraitRef`.
pub ghost struct TraitRefV {
    pub key: u64,
    pub name: Seq<char>,
}

impl View for TraitRef {
    type V = TraitRefV;

    open spec fn view(&self) -> TraitRefV {
        TraitRefV { key: self.key, name: self.name@ }
    }
}

/// A bare type expression with the given base key, as a view.
pub open spec fn plain_v(base: u64) -> TypeExprV {
    TypeExprV { boxed: false, counted: false, base, markers: Set::<u64>::empty() }
}

/// The keys named by a list of interface references.
pub open spec fn ref_keys(rs: Seq<TraitRef>) -> Set<u64> {
    Set::new(|k: u64| exists|i: int| 0 <= i < rs.len() && rs[i].key == k)
}

/// The names of a list of interface references, in order.
pub open spec fn ref_names(rs: Seq<TraitRef>) -> Seq<Seq<char>> {
    rs.map_values(|r: TraitRef| r.name@)
}

/// Whether `t` is one of the interface sets that type expansion over the
/// given interfaces and markers registers: one interface key combined with
/// any subset of the marker keys.
pub open spec fn interface_target(trait_keys: Set<u64>, marker_keys: Set<u64>, t: TypeExprV) -> bool {
    !t.boxed && !t.counted && trait_keys.contains(t.base) && t.markers.subset_of(marker_keys)
}

/// Whether the storage key `s` is one of the two lock-wrapped forms of `ty`.
pub open spec fn wrapped_form(s: StorageKeyV, ty: TypeExprV) -> bool {
    (s.wrap == Wrap::Exclusive || s.wrap == Wrap::Shared) && s.ty == ty
}

proof fn lemma_ref_keys_grow(rs: Seq<TraitRef>, i: int)
    requires
        0 <= i < rs.len(),
    ensures
        ref_keys(rs.take(i + 1)) =~= ref_keys(rs.take(i)).insert(rs[i].key),
{
    let a = rs.take(i + 1);
    let b = rs.take(i);
    assert forall|k: u64| ref_keys(a).contains(k) <==> ref_keys(b).insert(rs[i].key).contains(
        k,
    ) by {
        if ref_keys(a).contains(k) {
            let j = choose|j: int| 0 <= j < a.len() && a[j].key == k;
            if j < i {
                assert(b[j].key == k);
            }
        } else {
            if ref_keys(b).contains(k) {
                let j = choose|j: int| 0 <= j < b.len() && b[j].key == k;
                assert(a[j].key == k);
            }
            if k == rs[i].key {
                assert(a[i].key == k);
            }
        }
    }
}

/// Registers a concrete type: its display name, its type information, its
/// bare self-coercion, and a coercion to every (interface, marker subset)
/// combination.  Afterwards a coercion from a lock-wrapped form of the type
/// is registered exactly for the type itself and for those combinations —
/// nothing else is added, and nothing is removed.
pub fn expand_type_registration(
    registry: &mut Registry,
    ty_key: u64,
    fq_name: &str,
    markers: &Vec<TraitRef>,
    traits: &Vec<TraitRef>,
)
    requires
        old(registry).wf(),
        markers@.len() <= 20,
    ensures
        final(registry).wf(),
        final(registry).names() == named_forms(old(registry).names(), plain_v(ty_key), fq_name@),
        final(registry).infos() == insert_if_absent(
            old(registry).infos(),
            plain_v(ty_key),
            (TypeInfoV {
                fq_name: fq_name@,
                implementations: seq![fq_name@] + ref_names(markers@) + ref_names(traits@),
            }),
        ),
        forall|s: StorageKeyV, t: TypeExprV|
            #![trigger final(registry).has_coercion(s, t)]
            final(registry).has_coercion(s, t) <==> old(registry).has_coercion(s, t)
                || (wrapped_form(s, plain_v(ty_key)) && (t == plain_v(ty_key) || interface_target(
                ref_keys(traits@),
                ref_keys(markers@),
                t,
            ))),
{
    let ty = TypeExpr::plain(ty_key);

    // Display name, introspection metadata, and the bare self-coercion.
    crate::registry::register_type(registry, &ty, fq_name);
    let mut impls: Vec<String> = Vec::new();
    impls.push(fq_name.to_owned());
    push_names(&mut impls, markers);
    push_names(&mut impls, traits);
    proof {
        assert(impls.deep_view() =~~= seq![fq_name@] + ref_names(markers@) + ref_names(traits@));
    }
    crate::registry::register_type_info(registry, &ty, fq_name, impls);
    registry.register(&ty, &ty);

    // The marker keys, detached from their names.
    let mut marker_keys: Vec<u64> = Vec::new();
    let mut i: usize = 0;
    while i < markers.len()
        invariant
            0 <= i <= markers@.len(),
            marker_keys@.len() == i,
            forall|j: int| 0 <= j < i ==> marker_keys@[j] == markers@[j].key,
        decreases markers@.len() - i,
    {
        marker_keys.push(markers[i].key);
        i += 1;
    }
    proof {
        assert forall|k: u64| marker_keys@.to_set().contains(k) <==> ref_keys(
            markers@,
        ).contains(k) by {
            if marker_keys@.to_set().contains(k) {
                let j = choose|j: int| 0 <= j < marker_keys@.len() && marker_keys@[j] == k;
                assert(markers@[j].key == k);
            } else {
                if ref_keys(markers@).contains(k) {
                    let j = choose|j: int| 0 <= j < markers@.len() && markers@[j].key == k;
                    assert(marker_keys@[j] == k);
                    assert(marker_keys@.contains(k));
                }
            }
        }
        assert(marker_keys@.to_set() =~= ref_keys(markers@));
    }
    let combos = marker_combinations(&marker_keys);

    let ghost base = *registry;
    let ghost tyv = ty@;
    let mut ti: usize = 0;
    while ti < traits.len()
        invariant
            registry.wf(),
            0 <= ti <= traits@.len(),
            markers@.len() <= 20,
            tyv == plain_v(ty_key),
            ty@ == tyv,
            marker_keys@.to_set() == ref_keys(markers@),
            combos@.len() >= 1,
            forall|ii: int|
                0 <= ii < combos@.len() ==> (#[trigger] combos@[ii]@.to_set()).subset_of(
                    marker_keys@.to_set(),
                ),
            forall|s: Set<u64>|
                #![trigger s.subset_of(marker_keys@.to_set())]
                s.subset_of(marker_keys@.to_set()) ==> exists|ii: int|
                    0 <= ii < combos@.len() && combos@[ii]@.to_set() == s,
            registry.names() == base.names(),
            registry.infos() == base.infos(),
            forall|s: StorageKeyV, t: TypeExprV|
                #![trigger registry.has_coercion(s, t)]
                registry.has_coercion(s, t) <==> base.has_coercion(s, t) || (wrapped_form(s, tyv)
                    && interface_target(ref_keys(traits@.take(ti as int)), ref_keys(markers@), t)),
        decreases traits@.len() - ti,
    {
        let tk = traits[ti].key;
        let ghost at_trait = *registry;
        let mut ci: usize = 0;
        while ci < combos.len()
            invariant
                registry.wf(),
                0 <= ci <= combos@.len(),
                tyv == plain_v(ty_key),
                ty@ == tyv,
                tk == traits@[ti as int].key,
                ti < traits@.len(),
                registry.names() == at_trait.names(),
                registry.infos() == at_trait.infos(),
                forall|s: StorageKeyV, t: TypeExprV|
                    #![trigger registry.has_coercion(s, t)]
                    registry.has_coercion(s, t) <==> at_trait.has_coercion(s, t) || (wrapped_form(
                        s,
                        tyv,
                    ) && !t.boxed && !t.counted && t.base == tk && exists|j: int|
                        0 <= j < ci && t.markers == combos@[j]@.to_set()),
            decreases combos@.len() - ci,
        {
            let ghost before = *registry;
            let target = TypeExpr::with_markers(tk, clone_keys(&combos[ci]));
            registry.register(&ty, &target);
            proof {
                let ske = StorageKeyV { wrap: Wrap::Exclusive, ty: tyv };
                let sks = StorageKeyV { wrap: Wrap::Shared, ty: tyv };
                assert forall|s: StorageKeyV, t: TypeExprV|
                    #![trigger registry.has_coercion(s, t)]
                    registry.has_coercion(s, t) <==> at_trait.has_coercion(s, t) || (wrapped_form(
                        s,
                        tyv,
                    ) && !t.boxed && !t.counted && t.base == tk && exists|j: int|
                        0 <= j < ci + 1 && t.markers == combos@[j]@.to_set()) by {
                    let k1 = CoercionKeyV { storage: ske, target: target@ };
                    let k2 = CoercionKeyV { storage: sks, target: target@ };
                    let kq = CoercionKeyV { storage: s, target: t };
                    assert(ty@ == tyv);
                    assert(registry.coercions() == before.coercions().insert(k1, ()).insert(
                        k2,
                        (),
                    ));
                    assert(registry.coercions().contains_key(kq) <==> kq == k2 || kq == k1
                        || before.coercions().contains_key(kq));
                    assert(kq == k1 <==> s == ske && t == target@);
                    assert(kq == k2 <==> s == sks && t == target@);
                    assert(registry.has_coercion(s, t) <==> before.has_coercion(s, t) || (s == ske
                        && t == target@) || (s == sks && t == target@));
                    if (s == ske || s == sks) && t == target@ {
                        assert(t.markers == combos@[ci as int]@.to_set());
                        assert(registry.has_coercion(s, t));
                    }
                    if !registry.has_coercion(s, t) && wrapped_form(s, tyv) && !t.boxed
                        && !t.counted && t.base == tk {
                        if exists|j: int| 0 <= j < ci + 1 && t.markers == combos@[j]@.to_set() {
                            let j = choose|j: int|
                                0 <= j < ci + 1 && t.markers == combos@[j]@.to_set();
                            if j < ci {
                                assert(before.has_coercion(s, t));
                            } else {
                                assert(t == target@);
                            }
                        }
                    }
                }
            }
            ci += 1;
        }
        proof {
            lemma_ref_keys_grow(traits@, ti as int);
            assert forall|s: StorageKeyV, t: TypeExprV|
                #![trigger registry.has_coercion(s, t)]
                registry.has_coercion(s, t) <==> base.has_coercion(s, t) || (wrapped_form(s, tyv)
                    && interface_target(
                    ref_keys(traits@.take(ti as int + 1)),
                    ref_keys(markers@),
                    t,
                )) by {
                if registry.has_coercion(s, t) {
                    if !base.has_coercion(s, t) && !at_trait.has_coercion(s, t) {
                        // Added in this round: a combination target for tk.
                        assert(t.markers.subset_of(marker_keys@.to_set()));
                        assert(ref_keys(traits@.take(ti as int + 1)).contains(t.base));
                    } else if !base.has_coercion(s, t) {
                        assert(interface_target(
                            ref_keys(traits@.take(ti as int)),
                            ref_keys(markers@),
                            t,
                        ));
                    }
                } else {
                    if base.has_coercion(s, t) {
                        assert(at_trait.has_coercion(s, t));
                    }
                    if wrapped_form(s, tyv) && interface_target(
                        ref_keys(traits@.take(ti as int + 1)),
                        ref_keys(markers@),
                        t,
                    ) {
                        if ref_keys(traits@.take(ti as int)).contains(t.base) {
                            assert(at_trait.has_coercion(s, t));
                        } else {
                            assert(t.base == tk);
                            assert(t.markers.subset_of(marker_keys@.to_set()));
                            let j = choose|j: int|
                                0 <= j < combos@.len() && combos@[j]@.to_set() == t.markers;
                            assert(registry.has_coercion(s, t));
                        }
                    }
                }
            }
        }
        ti += 1;
    }
    proof {
        assert(traits@.take(traits@.len() as int) =~= traits@);
    }
}

/// Whether `t` is one of the interface sets that trait expansion over the
/// given trait and markers registers: the trait key combined with any subset
/// of the marker keys.
pub open spec fn trait_target(trait_key: u64, marker_keys: Set<u64>, t: TypeExprV) -> bool {
    !t.boxed && !t.counted && t.base == trait_key && t.markers.subset_of(marker_keys)
}

/// The implemented-interface names recorded for `t` in `r`.
pub open spec fn impl_names(r: Registry, t: TypeExprV) -> Seq<Seq<char>> {
    r.infos()[t].implementations
}

/// The name recorded for key `k` by the first reference that carries it.
pub open spec fn key_name(ms: Seq<TraitRef>, k: u64) -> Seq<char>
    decreases ms.len(),
{
    if ms.len() == 0 {
        Seq::<char>::empty()
    } else if ms[0].key == k {
        ms[0].name@
    } else {
        key_name(ms.drop_first(), k)
    }
}

/// The names of the given keys, in order.
pub open spec fn key_names(ms: Seq<TraitRef>, ks: Seq<u64>) -> Seq<Seq<char>> {
    ks.map_values(|k: u64| key_name(ms, k))
}

proof fn lemma_key_name_at(ms: Seq<TraitRef>, i: int, k: u64)
    requires
        0 <= i < ms.len(),
        ms[i].key == k,
        forall|j: int| 0 <= j < i ==> ms[j].key != k,
    ensures
        key_name(ms, k) == ms[i].name@,
    decreases ms.len(),
{
    if i > 0 {
        assert(ms.drop_first()[i - 1] == ms[i]);
        assert(forall|j: int| 0 <= j < i - 1 ==> ms.drop_first()[j] == ms[j + 1]);
        lemma_key_name_at(ms.drop_first(), i - 1, k);
    }
}

/// The recorded name of key `k` among the given references.
fn lookup_key_name(ms: &Vec<TraitRef>, k: u64) -> (r: String)
    requires
        ref_keys(ms@).contains(k),
    ensures
        r@ == key_name(ms@, k),
{
    let mut i: usize = 0;
    while i < ms.len()
        invariant
            0 <= i <= ms@.len(),
            ref_keys(ms@).contains(k),
            forall|j: int| 0 <= j < i ==> ms@[j].key != k,
        decreases ms@.len() - i,
    {
        if ms[i].key == k {
            proof {
                lemma_key_name_at(ms@, i as int, k);
            }
            return ms[i].name.clone();
        }
        i += 1;
    }
    proof {
        let j = choose|j: int| 0 <= j < ms@.len() && ms@[j].key == k;
        assert(false);
    }
    String::new()
}

/// The names of the keys of one combination, in order.
fn combination_names(ms: &Vec<TraitRef>, ks: &Vec<u64>) -> (r: Vec<String>)
    requires
        ks@.to_set().subset_of(ref_keys(ms@)),
    ensures
        r.deep_view() == key_names(ms@, ks@),
{
    let mut r: Vec<String> = Vec::new();
    let mut i: usize = 0;
    while i < ks.len()
        invariant
            0 <= i <= ks@.len(),
            ks@.to_set().subset_of(ref_keys(ms@)),
            r@.len() == i,
            forall|j: int| 0 <= j < i ==> r.deep_view()[j] == key_name(ms@, ks@[j]),
        decreases ks@.len() - i,
    {
        proof {
            assert(ks@.contains(ks@[i as int]));
            assert(ks@.to_set().contains(ks@[i as int]));
        }
        let s = lookup_key_name(ms, ks[i]);
        let ghost before = r.deep_view();
        r.push(s);
        proof {
            assert forall|j: int| 0 <= j < i + 1 implies r.deep_view()[j] == key_name(
                ms@,
                ks@[j],
            ) by {
                assert(r.deep_view()[j] == r@[j].deep_view());
                if j < i {
                    assert(r@[j].deep_view() == before[j]);
                } else {
                    assert(r@[j] == s);
                }
            }
        }
        i += 1;
    }
    proof {
        assert(r.deep_view() =~~= key_names(ms@, ks@));
    }
    r
}

/// Registers an object-safe trait: for every subset of the marker keys, the
/// display name and type information of that interface set, and a coercion
/// from its lock-wrapped boxed form to the interface set itself.  Afterwards
/// a coercion is registered exactly from the boxed form of each such
/// interface set to that set — nothing else is added, and nothing is
/// removed.
pub fn expand_trait_registration(
    registry: &mut Registry,
    trait_key: u64,
    fq_name: &str,
    markers: &Vec<TraitRef>,
)
    requires
        old(registry).wf(),
        markers@.len() <= 20,
    ensures
        final(registry).wf(),
        forall|s: StorageKeyV, t: TypeExprV|
            #![trigger final(registry).has_coercion(s, t)]
            final(registry).has_coercion(s, t) <==> old(registry).has_coercion(s, t)
                || (wrapped_form(s, boxed_v(t)) && trait_target(trait_key, ref_keys(markers@), t)),
        forall|k: StorageKeyV|
            #![trigger final(registry).names().contains_key(k)]
            final(registry).names().contains_key(k) <==> old(registry).names().contains_key(k)
                || trait_target(trait_key, ref_keys(markers@), k.ty),
        forall|k: StorageKeyV|
            #![trigger final(registry).names()[k]]
            final(registry).names().contains_key(k) ==> final(registry).names()[k] == if old(
                registry,
            ).names().contains_key(k) {
                old(registry).names()[k]
            } else {
                fq_name@
            },
        forall|ty: TypeExprV|
            #![trigger final(registry).infos().contains_key(ty)]
            final(registry).infos().contains_key(ty) <==> old(registry).infos().contains_key(ty)
                || trait_target(trait_key, ref_keys(markers@), ty),
        forall|ty: TypeExprV|
            #![trigger final(registry).infos()[ty]]
            final(registry).infos().contains_key(ty) && !old(registry).infos().contains_key(ty)
                ==> final(registry).infos()[ty].fq_name == fq_name@ && (if ty == plain_v(
                trait_key,
            ) {
                final(registry).infos()[ty].implementations == seq![fq_name@] + ref_names(markers@)
            } else {
                exists|cs: Seq<u64>|
                    cs.to_set() == ty.markers && (#[trigger] impl_names(*final(registry), ty))
                        == seq![fq_name@] + key_names(markers@, cs)
            }),
        forall|ty: TypeExprV|
            #![trigger final(registry).infos()[ty]]
            old(registry).infos().contains_key(ty) ==> final(registry).infos()[ty] == old(
                registry,
            ).infos()[ty],
{
    let ty = TypeExpr::plain(trait_key);
    let ghost tyv = ty@;
    let ghost mset = ref_keys(markers@);

    // The bare interface: display name, metadata naming every marker, and
    // the coercion out of its boxed form.
    crate::registry::register_type(registry, &ty, fq_name);
    let mut impls: Vec<String> = Vec::new();
    impls.push(fq_name.to_owned());
    push_names(&mut impls, markers);
    proof {
        assert(impls.deep_view() =~~= seq![fq_name@] + ref_names(markers@));
    }
    crate::registry::register_type_info(registry, &ty, fq_name, impls);
    registry.register(&ty.boxed(), &ty);

    // The marker keys, detached from their names.
    let mut marker_keys: Vec<u64> = Vec::new();
    let mut i: usize = 0;
    while i < markers.len()
        invariant
            0 <= i <= markers@.len(),
            marker_keys@.len() == i,
            forall|j: int| 0 <= j < i ==> marker_keys@[j] == markers@[j].key,
        decreases markers@.len() - i,
    {
        marker_keys.push(markers[i].key);
        i += 1;
    }
    proof {
        assert forall|k: u64| marker_keys@.to_set().contains(k) <==> ref_keys(
            markers@,
        ).contains(k) by {
            if marker_keys@.to_set().contains(k) {
                let j = choose|j: int| 0 <= j < marker_keys@.len() && marker_keys@[j] == k;
                assert(markers@[j].key == k);
            } else {
                if ref_keys(markers@).contains(k) {
                    let j = choose|j: int| 0 <= j < markers@.len() && markers@[j].key == k;
                    assert(marker_keys@[j] == k);
                    assert(marker_keys@.contains(k));
                }
            }
        }
        assert(marker_keys@.to_set() =~= mset);
    }
    let combos = marker_combinations(&marker_keys);

    let ghost base = *registry;
    let mut ci: usize = 0;
    while ci < combos.len()
        invariant
            registry.wf(),
            0 <= ci <= combos@.len(),
            tyv == plain_v(trait_key),
            ty@ == tyv,
            mset == ref_keys(markers@),
            marker_keys@.to_set() == mset,
            combos@.len() >= 1,
            forall|ii: int|
                0 <= ii < combos@.len() ==> (#[trigger] combos@[ii]@.to_set()).subset_of(mset),
            forall|s: Set<u64>|
                #![trigger s.subset_of(marker_keys@.to_set())]
                s.subset_of(marker_keys@.to_set()) ==> exists|ii: int|
                    0 <= ii < combos@.len() && combos@[ii]@.to_set() == s,
            base.wf(),
            base.infos().contains_key(tyv),
            base.names().contains_key(StorageKeyV { wrap: Wrap::Plain, ty: tyv }),
            forall|s: StorageKeyV, t: TypeExprV|
                #![trigger registry.has_coercion(s, t)]
                registry.has_coercion(s, t) <==> base.has_coercion(s, t) || (wrapped_form(
                    s,
                    boxed_v(t),
                ) && !t.boxed && !t.counted && t.base == trait_key && exists|j: int|
                    0 <= j < ci && t.markers == combos@[j]@.to_set()),
            forall|k: StorageKeyV|
                #![trigger registry.names().contains_key(k)]
                registry.names().contains_key(k) <==> base.names().contains_key(k) || (!k.ty.boxed
                    && !k.ty.counted && k.ty.base == trait_key && exists|j: int|
                    0 <= j < ci && k.ty.markers == combos@[j]@.to_set()),
            forall|k: StorageKeyV|
                #![trigger registry.names()[k]]
                registry.names().contains_key(k) ==> registry.names()[k] == if base.names(
                ).contains_key(k) {
                    base.names()[k]
                } else {
                    fq_name@
                },
            forall|t: TypeExprV|
                #![trigger registry.infos().contains_key(t)]
                registry.infos().contains_key(t) <==> base.infos().contains_key(t) || (!t.boxed
                    && !t.counted && t.base == trait_key && exists|j: int|
                    0 <= j < ci && t.markers == combos@[j]@.to_set()),
            forall|t: TypeExprV|
                #![trigger registry.infos()[t]]
                base.infos().contains_key(t) ==> registry.infos()[t] == base.infos()[t],
            forall|t: TypeExprV|
                #![trigger registry.infos()[t]]
                registry.infos().contains_key(t) && !base.infos().contains_key(t)
                    ==> registry.infos()[t].fq_name == fq_name@ && exists|cs: Seq<u64>|
                    cs.to_set() == t.markers && (#[trigger] impl_names(*registry, t))
                        == seq![fq_name@] + key_names(markers@, cs),
        decreases combos@.len() - ci,
    {
        let ghost step0 = *registry;
        let comb = clone_keys(&combos[ci]);
        proof {
            assert(combos@[ci as int]@.to_set().subset_of(mset));
        }
        let full = TypeExpr::with_markers(trait_key, clone_keys(&comb));
        crate::registry::register_type(registry, &full, fq_name);
        let names = combination_names(markers, &comb);
        let mut impls: Vec<String> = Vec::new();
        impls.push(fq_name.to_owned());
        let ghost impls_before = impls.deep_view();
        let mut ni: usize = 0;
        while ni < names.len()
            invariant
                0 <= ni <= names@.len(),
                impls@.len() == 1 + ni,
                impls.deep_view()[0] == fq_name@,
                forall|j: int| 0 <= j < ni ==> impls.deep_view()[1 + j] == names.deep_view()[j],
            decreases names@.len() - ni,
        {
            let s = names[ni].clone();
            proof {
                assert(s == names@[ni as int]);
            }
            let ghost before = impls.deep_view();
            impls.push(s);
            proof {
                assert forall|j: int| 0 <= j < impls@.len() implies impls.deep_view()[j] == (if j
                    < before.len() {
                    before[j]
                } else {
                    s.deep_view()
                }) by {
                    assert(impls.deep_view()[j] == impls@[j].deep_view());
                    if j < before.len() {
                        assert(impls@[j].deep_view() == before[j]);
                    } else {
                        assert(impls@[j] == s);
                    }
                }
            }
            ni += 1;
        }
        proof {
            assert(impls.deep_view() =~~= seq![fq_name@] + key_names(markers@, comb@));
        }
        crate::registry::register_type_info(registry, &full, fq_name, impls);
        registry.register(&full.boxed(), &full);
        proof {
            let fullv = full@;
            assert(fullv.markers == combos@[ci as int]@.to_set());
            // Coercions: exactly the boxed-to-bare pair for this combination
            // was added.
            let ske = StorageKeyV { wrap: Wrap::Exclusive, ty: boxed_v(fullv) };
            let sks = StorageKeyV { wrap: Wrap::Shared, ty: boxed_v(fullv) };
            assert forall|s: StorageKeyV, t: TypeExprV|
                #![trigger registry.has_coercion(s, t)]
                registry.has_coercion(s, t) <==> base.has_coercion(s, t) || (wrapped_form(
                    s,
                    boxed_v(t),
                ) && !t.boxed && !t.counted && t.base == trait_key && exists|j: int|
                    0 <= j < ci + 1 && t.markers == combos@[j]@.to_set()) by {
                assert(registry.has_coercion(s, t) <==> step0.has_coercion(s, t) || (s == ske && t
                    == fullv) || (s == sks && t == fullv));
                if (s == ske || s == sks) && t == fullv {
                    assert(t.markers == combos@[ci as int]@.to_set());
                    assert(registry.has_coercion(s, t));
                }
                if !registry.has_coercion(s, t) && wrapped_form(s, boxed_v(t)) && !t.boxed
                    && !t.counted && t.base == trait_key {
                    if exists|j: int| 0 <= j < ci + 1 && t.markers == combos@[j]@.to_set() {
                        let j = choose|j: int|
                            0 <= j < ci + 1 && t.markers == combos@[j]@.to_set();
                        if j < ci {
                            assert(step0.has_coercion(s, t));
                        } else {
                            assert(t == fullv);
                        }
                    }
                }
            }
            // Names: the three wrapped forms of this combination were named.
            assert forall|k: StorageKeyV|
                #![trigger registry.names().contains_key(k)]
                registry.names().contains_key(k) <==> base.names().contains_key(k) || (!k.ty.boxed
                    && !k.ty.counted && k.ty.base == trait_key && exists|j: int|
                    0 <= j < ci + 1 && k.ty.markers == combos@[j]@.to_set()) by {
                assert(registry.names() == named_forms(step0.names(), fullv, fq_name@));
                if registry.names().contains_key(k) && !step0.names().contains_key(k) {
                    assert(k.ty == fullv);
                    assert(k.ty.markers == combos@[ci as int]@.to_set());
                }
                if !registry.names().contains_key(k) {
                    assert(!step0.names().contains_key(k));
                    if !k.ty.boxed && !k.ty.counted && k.ty.base == trait_key && exists|j: int|
                        0 <= j < ci + 1 && k.ty.markers == combos@[j]@.to_set() {
                        let j = choose|j: int|
                            0 <= j < ci + 1 && k.ty.markers == combos@[j]@.to_set();
                        if j < ci {
                            assert(step0.names().contains_key(k));
                        } else {
                            assert(k.ty =~= fullv);
                            assert(k.wrap == Wrap::Plain || k.wrap == Wrap::Exclusive || k.wrap
                                == Wrap::Shared);
                            assert(registry.names().contains_key(k));
                        }
                    }
                }
            }
            assert forall|k: StorageKeyV|
                #![trigger registry.names()[k]]
                registry.names().contains_key(k) implies registry.names()[k] == (if base.names(
                ).contains_key(k) {
                    base.names()[k]
                } else {
                    fq_name@
                }) by {
                if step0.names().contains_key(k) {
                } else {
                    assert(!base.names().contains_key(k));
                }
            }
            // Type information: one entry for this combination, if absent.
            assert forall|t: TypeExprV|
                #![trigger registry.infos().contains_key(t)]
                registry.infos().contains_key(t) <==> base.infos().contains_key(t) || (!t.boxed
                    && !t.counted && t.base == trait_key && exists|j: int|
                    0 <= j < ci + 1 && t.markers == combos@[j]@.to_set()) by {
                if registry.infos().contains_key(t) && !step0.infos().contains_key(t) {
                    assert(t == fullv);
                    assert(t.markers == combos@[ci as int]@.to_set());
                }
                if !registry.infos().contains_key(t) {
                    if !t.boxed && !t.counted && t.base == trait_key && exists|j: int|
                        0 <= j < ci + 1 && t.markers == combos@[j]@.to_set() {
                        let j = choose|j: int|
                            0 <= j < ci + 1 && t.markers == combos@[j]@.to_set();
                        if j < ci {
                            assert(step0.infos().contains_key(t));
                        } else {
                            assert(t =~= fullv);
                            assert(registry.infos().contains_key(t));
                        }
                    }
                }
            }
            assert forall|t: TypeExprV|
                #![trigger registry.infos()[t]]
                registry.infos().contains_key(t) && !base.infos().contains_key(t)
                    implies registry.infos()[t].fq_name == fq_name@ && exists|cs: Seq<u64>|
                    cs.to_set() == t.markers && (#[trigger] impl_names(*registry, t))
                        == seq![fq_name@] + key_names(markers@, cs) by {
                if step0.infos().contains_key(t) {
                    assert(registry.infos()[t] == step0.infos()[t]);
                } else {
                    assert(t == fullv);
                    assert(registry.infos()[t].implementations == seq![fq_name@] + key_names(
                        markers@,
                        comb@,
                    ));
                    assert(comb@.to_set() == t.markers);
                }
            }
        }
        ci += 1;
    }
    proof {
        assert forall|t: TypeExprV| trait_target(trait_key, mset, t) implies exists|j: int|
            0 <= j < combos@.len() && t.markers == combos@[j]@.to_set() by {
            assert(t.markers.subset_of(marker_keys@.to_set()));
            let j = choose|j: int| 0 <= j < combos@.len() && combos@[j]@.to_set() == t.markers;
        }
        assert forall|s: StorageKeyV, t: TypeExprV|
            #![trigger registry.has_coercion(s, t)]
            registry.has_coercion(s, t) <==> old(registry).has_coercion(s, t) || (wrapped_form(
                s,
                boxed_v(t),
            ) && trait_target(trait_key, mset, t)) by {
            if registry.has_coercion(s, t) && !old(registry).has_coercion(s, t) {
                if !base.has_coercion(s, t) {
                    let j = choose|j: int| 0 <= j < combos@.len() && t.markers == combos@[j]@.to_set();
                    assert(t.markers.subset_of(mset));
                } else {
                    assert(t == tyv);
                    assert(t.markers.subset_of(mset));
                }
            }
            if !registry.has_coercion(s, t) && wrapped_form(s, boxed_v(t)) && trait_target(
                trait_key,
                mset,
                t,
            ) {
                let j = choose|j: int| 0 <= j < combos@.len() && t.markers == combos@[j]@.to_set();
                assert(registry.has_coercion(s, t));
            }
        }
        assert forall|k: StorageKeyV|
            #![trigger registry.names().contains_key(k)]
            registry.names().contains_key(k) <==> old(registry).names().contains_key(k)
                || trait_target(trait_key, mset, k.ty) by {
            if registry.names().contains_key(k) && !old(registry).names().contains_key(k) {
                if !base.names().contains_key(k) {
                    let j = choose|j: int|
                        0 <= j < combos@.len() && k.ty.markers == combos@[j]@.to_set();
                    assert(k.ty.markers.subset_of(mset));
                } else {
                    assert(k.ty == tyv);
                    assert(k.ty.markers.subset_of(mset));
                }
            }
            if !registry.names().contains_key(k) && trait_target(trait_key, mset, k.ty) {
                let j = choose|j: int|
                    0 <= j < combos@.len() && k.ty.markers == combos@[j]@.to_set();
                assert(registry.names().contains_key(k));
            }
        }
        assert forall|k: StorageKeyV|
            #![trigger registry.names()[k]]
            registry.names().contains_key(k) implies registry.names()[k] == (if old(
                registry,
            ).names().contains_key(k) {
                old(registry).names()[k]
            } else {
                fq_name@
            }) by {
            if base.names().contains_key(k) && !old(registry).names().contains_key(k) {
                assert(base.names()[k] == fq_name@);
            }
        }
        assert forall|t: TypeExprV|
            #![trigger registry.infos().contains_key(t)]
            registry.infos().contains_key(t) <==> old(registry).infos().contains_key(t)
                || trait_target(trait_key, mset, t) by {
            if registry.infos().contains_key(t) && !old(registry).infos().contains_key(t) {
                if !base.infos().contains_key(t) {
                    let j = choose|j: int| 0 <= j < combos@.len() && t.markers == combos@[j]@.to_set();
                    assert(t.markers.subset_of(mset));
                } else {
                    assert(t == tyv);
                    assert(t.markers.subset_of(mset));
                }
            }
            if !registry.infos().contains_key(t) && trait_target(trait_key, mset, t) {
                let j = choose|j: int| 0 <= j < combos@.len() && t.markers == combos@[j]@.to_set();
                assert(registry.infos().contains_key(t));
            }
        }
        assert forall|t: TypeExprV|
            #![trigger registry.infos()[t]]
            registry.infos().contains_key(t) && !old(registry).infos().contains_key(t)
                implies registry.infos()[t].fq_name == fq_name@ && (if t == plain_v(trait_key) {
                registry.infos()[t].implementations == seq![fq_name@] + ref_names(markers@)
            } else {
                exists|cs: Seq<u64>|
                    cs.to_set() == t.markers && (#[trigger] impl_names(*registry, t))
                        == seq![fq_name@] + key_names(markers@, cs)
            }) by {
            if base.infos().contains_key(t) {
                assert(t == tyv);
                assert(registry.infos()[t] == base.infos()[t]);
            }
        }
    }
}

/// Pushes the names of the given interface references, in order.
fn push_names(out: &mut Vec<String>, rs: &Vec<TraitRef>)
    ensures
        final(out).deep_view() == old(out).deep_view() + ref_names(rs@),
{
    let ghost base = old(out).deep_view();
    let mut i: usize = 0;
    while i < rs.len()
        invariant
            0 <= i <= rs@.len(),
            out@.len() == base.len() + i,
            forall|j: int| 0 <= j < base.len() ==> out.deep_view()[j] == base[j],
            forall|j: int|
                0 <= j < i ==> out.deep_view()[base.len() + j] == ref_names(rs@)[j],
        decreases rs@.len() - i,
    {
        let s = rs[i].name.clone();
        proof {
            assert(s == rs@[i as int].name);
        }
        let ghost before = out.deep_view();
        out.push(s);
        proof {
            assert forall|j: int| 0 <= j < out@.len() implies out.deep_view()[j] == (if j
                < before.len() {
                before[j]
            } else {
                s.deep_view()
            }) by {
                assert(out.deep_view()[j] == out@[j].deep_view());
                if j < before.len() {
                    assert(out@[j].deep_view() == before[j]);
                } else {
                    assert(out@[j] == s);
                }
            }
        }
        i += 1;
    }
    proof {
        assert(out.deep_view() =~~= base + ref_names(rs@));
    }
}

/// The interface set made of one interface key and one combination of
/// marker keys.
pub open spec fn combined_target(iface: u64, markers: Seq<u64>) -> TypeExprV {
    TypeExprV { boxed: false, counted: false, base: iface, markers: markers.to_set() }
}

/// For a type expanded over k distinct markers and an interface `iface`,
/// exactly 2^k coercion requests with base `iface` succeed — one per marker
/// subset combined with the interface — and any interface set with base
/// `iface` outside those subsets finds no coercion, unless it was registered
/// before.  `cs` is the expander's combination enumeration, `reg0` and
/// `reg1` the registry before and after `expand_type_registration`, and `s`
/// either lock-wrapped storage form of the type.
pub proof fn lemma_exact_combination_coverage(
    reg0: Registry,
    reg1: Registry,
    ty_key: u64,
    markers: Seq<TraitRef>,
    traits: Seq<TraitRef>,
    iface: u64,
    cs: Seq<Seq<u64>>,
    s: StorageKeyV,
)
    requires
        // The interface is among the expanded ones.
        ref_keys(traits).contains(iface),
        // What marker_combinations returns for those keys.
        cs.len() == pow2(markers.len() as nat),
        forall|i: int|
            0 <= i < cs.len() ==> (#[trigger] cs[i].to_set()).subset_of(ref_keys(markers)),
        forall|t: Set<u64>|
            #![trigger t.subset_of(ref_keys(markers))]
            t.subset_of(ref_keys(markers)) ==> exists|i: int|
                0 <= i < cs.len() && cs[i].to_set() == t,
        forall|i: int, j: int| 0 <= i < j < cs.len() ==> cs[i].to_set() != cs[j].to_set(),
        // What expand_type_registration establishes.
        forall|sk: StorageKeyV, t: TypeExprV|
            #![trigger reg1.has_coercion(sk, t)]
            reg1.has_coercion(sk, t) <==> reg0.has_coercion(sk, t) || (wrapped_form(
                sk,
                plain_v(ty_key),
            ) && (t == plain_v(ty_key) || interface_target(ref_keys(traits), ref_keys(markers), t))),
        wrapped_form(s, plain_v(ty_key)),
    ensures
        // One registered target per combination ...
        forall|i: int|
            0 <= i < cs.len() ==> #[trigger] reg1.has_coercion(s, combined_target(iface, cs[i])),
        // ... all 2^k of them distinct ...
        forall|i: int, j: int|
            0 <= i < j < cs.len() ==> combined_target(iface, cs[i]) != combined_target(
                iface,
                cs[j],
            ),
        // ... and nothing else with this interface as base: an interface set
        // outside the enumerated combinations finds no coercion.
        forall|t: TypeExprV|
            #![trigger reg1.has_coercion(s, t)]
            !t.boxed && !t.counted && t.base == iface && !reg0.has_coercion(s, t)
                && reg1.has_coercion(s, t) ==> exists|i: int|
                0 <= i < cs.len() && t.markers == cs[i].to_set(),
{
    assert forall|i: int|
        0 <= i < cs.len() implies #[trigger] reg1.has_coercion(
        s,
        combined_target(iface, cs[i]),
    ) by {
        let t = combined_target(iface, cs[i]);
        assert(t.markers.subset_of(ref_keys(markers)));
        assert(interface_target(ref_keys(traits), ref_keys(markers), t));
    }
    assert forall|t: TypeExprV|
        !t.boxed && !t.counted && t.base == iface && !reg0.has_coercion(s, t)
            && #[trigger] reg1.has_coercion(s, t) implies exists|i: int|
        0 <= i < cs.len() && t.markers == cs[i].to_set() by {
        if t == plain_v(ty_key) {
            assert(t.markers.subset_of(ref_keys(markers)));
        } else {
            assert(interface_target(ref_keys(traits), ref_keys(markers), t));
        }
        let i = choose|i: int| 0 <= i < cs.len() && cs[i].to_set() == t.markers;
    }
}

/// Registering the markers in another order, for the same type and
/// interfaces, yields the same queryable combination set: which coercions
/// type expansion registers depends only on the set of marker keys, never on
/// the order they were given in.
pub proof fn lemma_marker_order_independent(
    reg0: Registry,
    reg1: Registry,
    reg2: Registry,
    ty_key: u64,
    markers1: Seq<TraitRef>,
    markers2: Seq<TraitRef>,
    traits: Seq<TraitRef>,
)
    requires
        // The two runs were given the same marker keys, in any order.
        ref_keys(markers1) == ref_keys(markers2),
        // What expand_type_registration establishes for each run.
        forall|sk: StorageKeyV, t: TypeExprV|
            #![trigger reg1.has_coercion(sk, t)]
            reg1.has_coercion(sk, t) <==> reg0.has_coercion(sk, t) || (wrapped_form(
                sk,
                plain_v(ty_key),
            ) && (t == plain_v(ty_key) || interface_target(
                ref_keys(traits),
                ref_keys(markers1),
                t,
            ))),
        forall|sk: StorageKeyV, t: TypeExprV|
            #![trigger reg2.has_coercion(sk, t)]
            reg2.has_coercion(sk, t) <==> reg0.has_coercion(sk, t) || (wrapped_form(
                sk,
                plain_v(ty_key),
            ) && (t == plain_v(ty_key) || interface_target(
                ref_keys(traits),
                ref_keys(markers2),
                t,
            ))),
    ensures
        forall|sk: StorageKeyV, t: TypeExprV|
            #[trigger] reg1.has_coercion(sk, t) <==> #[trigger] reg2.has_coercion(sk, t),
{
}

} // verus!
