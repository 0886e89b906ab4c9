//! The combination expander: subset enumeration, the 2^k coverage of a
//! registered type, and marker-order independence.

use ocaml_rs_smartptr::cell::CellPool;
use ocaml_rs_smartptr::expand::{expand_trait_registration, expand_type_registration, marker_combinations, TraitRef};
use ocaml_rs_smartptr::keys::TypeExpr;
use ocaml_rs_smartptr::ptr::{coerce, CoerceError};
use ocaml_rs_smartptr::registry::Registry;

const KEY_SHEEP: u64 = 1;
const KEY_ANIMAL_PROXY: u64 = 30;
const KEY_OTHER: u64 = 31;
const KEY_SYNC: u64 = 100;
const KEY_SEND: u64 = 101;

fn sync_ref() -> TraitRef {
    TraitRef { key: KEY_SYNC, name: String::from("core::marker::Sync") }
}

fn send_ref() -> TraitRef {
    TraitRef { key: KEY_SEND, name: String::from("core::marker::Send") }
}

fn proxy_ref() -> TraitRef {
    TraitRef { key: KEY_ANIMAL_PROXY, name: String::from("crate_a::AnimalProxy") }
}

#[test]
fn combinations_double_per_marker() {
    let combos = marker_combinations(&vec![]);
    assert_eq!(combos, vec![Vec::<u64>::new()]);

    let combos = marker_combinations(&vec![1, 2]);
    assert_eq!(combos, vec![vec![], vec![1], vec![2], vec![1, 2]]);

    let combos = marker_combinations(&vec![1, 2, 3]);
    assert_eq!(combos.len(), 8);
}

#[test]
fn sheep_supports_exactly_the_marker_subsets() {
    // A type registered with two markers and one interface supports exactly
    // 2^2 = 4 interface sets, and an unmet set fails, naming the stored
    // type and the request.
    let mut reg = Registry::new();
    let mut pool: CellPool<&'static str> = CellPool::new();
    expand_type_registration(
        &mut reg,
        KEY_SHEEP,
        "crate_a::Sheep",
        &vec![sync_ref(), send_ref()],
        &vec![proxy_ref()],
    );
    let sheep = pool.new_exclusive(&mut reg, &TypeExpr::plain(KEY_SHEEP), "crate_a::Sheep", "dolly");

    let combos = marker_combinations(&vec![KEY_SYNC, KEY_SEND]);
    assert_eq!(combos.len(), 4);
    for combo in combos {
        let target = TypeExpr::with_markers(KEY_ANIMAL_PROXY, combo);
        let h = coerce(&reg, &mut pool, &sheep, &target).unwrap();
        assert_eq!(*h.get(&pool), "dolly");
        h.release(&mut pool);
    }

    let unmet = TypeExpr::with_markers(KEY_ANIMAL_PROXY, vec![KEY_OTHER]);
    match coerce(&reg, &mut pool, &sheep, &unmet) {
        Err(CoerceError::Unregistered { stored_name, requested }) => {
            assert_eq!(stored_name, "crate_a::Sheep");
            assert_eq!(requested.base, KEY_ANIMAL_PROXY);
        },
        _ => panic!("a combination outside the expanded set must fail"),
    }
    sheep.release(&mut pool);
}

#[test]
fn marker_order_does_not_change_the_queryable_set() {
    let mut reg_ab = Registry::new();
    let mut reg_ba = Registry::new();
    expand_type_registration(
        &mut reg_ab,
        KEY_SHEEP,
        "crate_a::Sheep",
        &vec![sync_ref(), send_ref()],
        &vec![proxy_ref()],
    );
    expand_type_registration(
        &mut reg_ba,
        KEY_SHEEP,
        "crate_a::Sheep",
        &vec![send_ref(), sync_ref()],
        &vec![proxy_ref()],
    );

    let mut pool_ab: CellPool<u8> = CellPool::new();
    let mut pool_ba: CellPool<u8> = CellPool::new();
    let sheep_ab = pool_ab.new_shared(&mut reg_ab, &TypeExpr::plain(KEY_SHEEP), "crate_a::Sheep", 0);
    let sheep_ba = pool_ba.new_shared(&mut reg_ba, &TypeExpr::plain(KEY_SHEEP), "crate_a::Sheep", 0);

    // Whatever interface set one registry answers, the other answers the
    // same way, in both marker orders.
    let queries = vec![
        TypeExpr::plain(KEY_ANIMAL_PROXY),
        TypeExpr::with_markers(KEY_ANIMAL_PROXY, vec![KEY_SYNC]),
        TypeExpr::with_markers(KEY_ANIMAL_PROXY, vec![KEY_SEND]),
        TypeExpr::with_markers(KEY_ANIMAL_PROXY, vec![KEY_SYNC, KEY_SEND]),
        TypeExpr::with_markers(KEY_ANIMAL_PROXY, vec![KEY_SEND, KEY_SYNC]),
        TypeExpr::with_markers(KEY_ANIMAL_PROXY, vec![KEY_OTHER]),
        TypeExpr::plain(KEY_OTHER),
    ];
    for q in queries {
        let ab = coerce(&reg_ab, &mut pool_ab, &sheep_ab, &q);
        let ba = coerce(&reg_ba, &mut pool_ba, &sheep_ba, &q);
        assert_eq!(ab.is_ok(), ba.is_ok());
        if let Ok(h) = ab {
            h.release(&mut pool_ab);
        }
        if let Ok(h) = ba {
            h.release(&mut pool_ba);
        }
    }
    sheep_ab.release(&mut pool_ab);
    sheep_ba.release(&mut pool_ba);
}

#[test]
fn trait_expansion_covers_boxed_forms() {
    let mut reg = Registry::new();
    let mut pool: CellPool<u8> = CellPool::new();
    expand_trait_registration(&mut reg, KEY_ANIMAL_PROXY, "crate_a::AnimalProxy", &vec![send_ref()]);

    // A boxed trait object registered through trait expansion coerces to
    // its own interface set, with and without the marker.
    let plain = pool.new_exclusive_boxed(
        &mut reg,
        &TypeExpr::plain(KEY_ANIMAL_PROXY),
        "crate_a::AnimalProxy",
        1,
    );
    let h = coerce(&reg, &mut pool, &plain, &TypeExpr::plain(KEY_ANIMAL_PROXY)).unwrap();
    h.release(&mut pool);
    plain.release(&mut pool);

    let with_send = pool.new_shared_boxed(
        &mut reg,
        &TypeExpr::with_markers(KEY_ANIMAL_PROXY, vec![KEY_SEND]),
        "crate_a::AnimalProxy",
        2,
    );
    let h = coerce(
        &reg,
        &mut pool,
        &with_send,
        &TypeExpr::with_markers(KEY_ANIMAL_PROXY, vec![KEY_SEND]),
    )
    .unwrap();
    h.release(&mut pool);
    with_send.release(&mut pool);
}
