//! The smart handle across the boundary: raw round trips, exactly-once
//! destruction, lock serialization and mutation visibility.

use std::fmt::Display;

use ocaml_rs_smartptr::cell::CellPool;
use ocaml_rs_smartptr::expand::{expand_trait_registration, expand_type_registration, TraitRef};
use ocaml_rs_smartptr::keys::TypeExpr;
use ocaml_rs_smartptr::ptr::{coerce, coerce_mut, finalize_raw, CoerceError, DynBox};
use ocaml_rs_smartptr::registry::Registry;

const KEY_MY_ERROR: u64 = 1;
const KEY_ERROR: u64 = 20;
const KEY_SEND: u64 = 100;
const KEY_SYNC: u64 = 101;

#[derive(Debug)]
struct MyError {
    msg: String,
}

impl Display for MyError {
    fn fmt(&self, fmt: &mut std::fmt::Formatter<'_>) -> Result<(), std::fmt::Error> {
        fmt.write_str(self.msg.as_str())
    }
}

impl std::error::Error for MyError {}

fn send_marker() -> TraitRef {
    TraitRef { key: KEY_SEND, name: String::from("core::marker::Send") }
}

fn sync_marker() -> TraitRef {
    TraitRef { key: KEY_SYNC, name: String::from("core::marker::Sync") }
}

fn get_error_message(reg: &Registry, pool: &mut CellPool<MyError>, error: DynBox) -> String {
    let target = TypeExpr::with_markers(KEY_ERROR, vec![KEY_SEND]);
    let coerced = coerce(reg, pool, &error, &target).unwrap();
    let msg = coerced.get(pool).to_string();
    coerced.release(pool);
    error.release(pool);
    msg
}

#[test]
fn test_bla() {
    let mut reg = Registry::new();
    let mut pool: CellPool<MyError> = CellPool::new();
    expand_type_registration(
        &mut reg,
        KEY_MY_ERROR,
        "ocaml_rs_smartptr::ptr::tests::MyError",
        &vec![send_marker()],
        &vec![TraitRef { key: KEY_ERROR, name: String::from("std::error::Error") }],
    );
    let error = MyError { msg: String::from("bla-bla-bla") };
    let orig_error_msg = error.to_string();
    let error = pool.new_shared(
        &mut reg,
        &TypeExpr::plain(KEY_MY_ERROR),
        "ocaml_rs_smartptr::ptr::tests::MyError",
        error,
    );
    // The following line mimics the handle being sent across the boundary
    // and received back as another type.
    let error = DynBox::from_raw(error.into_raw());
    let wrapped_error_msg = get_error_message(&reg, &mut pool, error);
    assert_eq!(wrapped_error_msg, orig_error_msg);
}

#[test]
fn test_error_boxing() {
    let mut reg = Registry::new();
    let mut pool: CellPool<Box<dyn std::error::Error + Send>> = CellPool::new();
    expand_trait_registration(&mut reg, KEY_ERROR, "std::error::Error", &vec![send_marker()]);
    let error = MyError { msg: String::from("bla-bla-bla") };
    let orig_error_msg = error.to_string();
    let boxed_err: Box<dyn std::error::Error + Send> = Box::new(error);
    let error = pool.new_exclusive_boxed(
        &mut reg,
        &TypeExpr::with_markers(KEY_ERROR, vec![KEY_SEND]),
        "std::error::Error",
        boxed_err,
    );
    // The following line mimics the handle being sent across the boundary
    // and received back as another type.
    let error = DynBox::from_raw(error.into_raw());

    let target = TypeExpr::with_markers(KEY_ERROR, vec![KEY_SEND]);
    let coerced = coerce(&reg, &mut pool, &error, &target).unwrap();
    let wrapped_error_msg = coerced.get(&pool).to_string();
    coerced.release(&mut pool);
    error.release(&mut pool);
    assert_eq!(wrapped_error_msg, orig_error_msg);
}

#[test]
fn raw_round_trip_observes_same_value() {
    let mut reg = Registry::new();
    let mut pool: CellPool<String> = CellPool::new();
    expand_type_registration(&mut reg, 7, "crate_a::Message", &vec![], &vec![]);
    let b = pool.new_shared(&mut reg, &TypeExpr::plain(7), "crate_a::Message", String::from("payload"));

    let raw = b.into_raw();
    let b = DynBox::from_raw(raw);

    // The self-coercion the expander registered observes the wrapped value.
    let h = coerce(&reg, &mut pool, &b, &TypeExpr::plain(7)).unwrap();
    assert_eq!(h.get(&pool), "payload");
    h.release(&mut pool);
    assert_eq!(b.release(&mut pool), Some(String::from("payload")));
}

#[test]
fn exactly_once_destruction_across_boundary() {
    let mut reg = Registry::new();
    let mut pool: CellPool<String> = CellPool::new();
    let b = pool.new_exclusive(&mut reg, &TypeExpr::plain(8), "crate_a::Payload", String::from("v"));

    // Marshal out: the foreign wrapper now owns one leaked reference.
    let ticket = b.to_value(&mut pool);
    // The foreign collector runs the finalizer exactly once: it only drops
    // the leaked reference — the payload's destructor does not run, since
    // this side still holds the handle.
    assert_eq!(finalize_raw(&mut pool, ticket), None);
    // Dropping the last reference destroys the payload, exactly once: the
    // value comes back by move, here and nowhere else.
    assert_eq!(b.release(&mut pool), Some(String::from("v")));
}

#[test]
fn marshal_in_clones_foreign_reference() {
    let mut reg = Registry::new();
    let mut pool: CellPool<u32> = CellPool::new();
    let b = pool.new_exclusive(&mut reg, &TypeExpr::plain(9), "crate_a::Counter", 5u32);

    // Out to the foreign side, which keeps the ticket in its wrapper.
    let ticket = b.to_value(&mut pool);
    // In from the foreign side: this side receives its own reference, the
    // wrapper keeps the ticket.
    let received = DynBox::from_value(&mut pool, &ticket);
    // Dropping both local handles leaves the cell alive for the wrapper.
    assert_eq!(b.release(&mut pool), None);
    assert_eq!(received.release(&mut pool), None);
    // Only the finalizer's consumption of the ticket destroys the value.
    assert_eq!(finalize_raw(&mut pool, ticket), Some(5u32));
}

#[test]
fn write_handles_serialize() {
    let mut reg = Registry::new();
    let mut pool: CellPool<i64> = CellPool::new();
    expand_type_registration(&mut reg, 11, "crate_a::Slot", &vec![], &vec![]);
    let a = pool.new_shared(&mut reg, &TypeExpr::plain(11), "crate_a::Slot", 1i64);
    let b = a.clone_ref(&mut pool);

    // Two owners ask for write access to the same cell: the first is
    // granted, the second must wait for the first to be released.
    let first = coerce_mut(&reg, &mut pool, &a, &TypeExpr::plain(11)).unwrap();
    let blocked = coerce_mut(&reg, &mut pool, &b, &TypeExpr::plain(11));
    assert!(matches!(blocked, Err(CoerceError::Contended)));
    // A reader must wait as well while the writer holds the cell.
    let read_blocked = coerce(&reg, &mut pool, &b, &TypeExpr::plain(11));
    assert!(matches!(read_blocked, Err(CoerceError::Contended)));

    first.release(&mut pool);
    let second = coerce_mut(&reg, &mut pool, &b, &TypeExpr::plain(11)).unwrap();
    second.release(&mut pool);
    a.release(&mut pool);
    b.release(&mut pool);
}

#[test]
fn shared_cells_admit_concurrent_readers() {
    let mut reg = Registry::new();
    let mut pool: CellPool<u8> = CellPool::new();
    expand_type_registration(&mut reg, 14, "crate_a::Gauge", &vec![], &vec![]);

    // A shared cell serves many readers at once, but a writer must wait.
    let a = pool.new_shared(&mut reg, &TypeExpr::plain(14), "crate_a::Gauge", 3);
    let r1 = coerce(&reg, &mut pool, &a, &TypeExpr::plain(14)).unwrap();
    let r2 = coerce(&reg, &mut pool, &a, &TypeExpr::plain(14)).unwrap();
    assert_eq!(*r1.get(&pool), 3);
    assert_eq!(*r2.get(&pool), 3);
    let w = coerce_mut(&reg, &mut pool, &a, &TypeExpr::plain(14));
    assert!(matches!(w, Err(CoerceError::Contended)));
    r1.release(&mut pool);
    r2.release(&mut pool);
    a.release(&mut pool);

    // An exclusive cell admits a single accessor, even for reading.
    let b = pool.new_exclusive(&mut reg, &TypeExpr::plain(14), "crate_a::Gauge", 4);
    let r1 = coerce(&reg, &mut pool, &b, &TypeExpr::plain(14)).unwrap();
    let r2 = coerce(&reg, &mut pool, &b, &TypeExpr::plain(14));
    assert!(matches!(r2, Err(CoerceError::Contended)));
    r1.release(&mut pool);
    b.release(&mut pool);
}

#[test]
fn mutation_is_visible_to_later_reads() {
    let mut reg = Registry::new();
    let mut pool: CellPool<String> = CellPool::new();
    expand_type_registration(&mut reg, 12, "crate_a::Note", &vec![], &vec![]);
    let a = pool.new_shared(&mut reg, &TypeExpr::plain(12), "crate_a::Note", String::from("old"));
    let b = a.clone_ref(&mut pool);

    let w = coerce_mut(&reg, &mut pool, &a, &TypeExpr::plain(12)).unwrap();
    w.set(&mut pool, String::from("new"));
    w.release(&mut pool);

    let r = coerce(&reg, &mut pool, &b, &TypeExpr::plain(12)).unwrap();
    assert_eq!(r.get(&pool), "new");
    r.release(&mut pool);
    a.release(&mut pool);
    b.release(&mut pool);
}

#[test]
fn unregistered_coercion_names_both_sides() {
    let mut reg = Registry::new();
    let mut pool: CellPool<u8> = CellPool::new();
    expand_type_registration(
        &mut reg,
        13,
        "crate_a::Sheep",
        &vec![sync_marker(), send_marker()],
        &vec![TraitRef { key: 40, name: String::from("crate_a::AnimalProxy") }],
    );
    let b = pool.new_exclusive(&mut reg, &TypeExpr::plain(13), "crate_a::Sheep", 0u8);
    let unmet = TypeExpr::with_markers(40, vec![999]);
    match coerce(&reg, &mut pool, &b, &unmet) {
        Err(CoerceError::Unregistered { stored_name, requested }) => {
            assert_eq!(stored_name, "crate_a::Sheep");
            assert_eq!(requested.base, 40);
            assert_eq!(requested.markers, vec![999]);
        },
        _ => panic!("an unmet interface set must be reported as a binding defect"),
    }
    b.release(&mut pool);
}
