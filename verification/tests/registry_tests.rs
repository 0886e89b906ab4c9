//! The registry exercised end to end: values of different concrete types
//! behind both lock flavors, coerced to plain and compound interface sets.

use std::fmt::Display;

use ocaml_rs_smartptr::cell::CellPool;
use ocaml_rs_smartptr::keys::TypeExpr;
use ocaml_rs_smartptr::ptr::{coerce, coerce_mut, DynBox};
use ocaml_rs_smartptr::registry::{register, register_type, Registry};

const KEY_I32: u64 = 1;
const KEY_STRING: u64 = 2;
const KEY_DISPLAY: u64 = 10;
const KEY_DEBUG: u64 = 11;
const KEY_FOO: u64 = 12;
const KEY_FOO_MUT: u64 = 13;
const KEY_SEND: u64 = 100;

/// Mirrors one use of the trait-registration shorthand: names both sides and
/// registers the coercion pair for both lock flavors.
fn register_pair(reg: &mut Registry, ty: u64, ty_name: &str, target: &TypeExpr, tr_name: &str) {
    register_type(reg, &TypeExpr::plain(ty), ty_name);
    register_type(reg, target, tr_name);
    register(reg, &TypeExpr::plain(ty), target);
}

trait Foo {
    fn bar(&self) -> String;
}

impl Foo for i32 {
    fn bar(&self) -> String {
        format!("Foo for i32 ({:?})", self)
    }
}

impl Foo for String {
    fn bar(&self) -> String {
        format!("Foo for String ({:?})", self)
    }
}

trait FooMut {
    fn bar_mut(&mut self) -> String;
}

impl FooMut for i32 {
    fn bar_mut(&mut self) -> String {
        *self += 1;
        format!("FooMut for i32 ({:?})", self)
    }
}

impl FooMut for String {
    fn bar_mut(&mut self) -> String {
        self.push('!');
        format!("FooMut for String ({:?})", self)
    }
}

fn register_common(reg: &mut Registry) {
    register_pair(reg, KEY_I32, "i32", &TypeExpr::plain(KEY_DISPLAY), "std::fmt::Display");
    register_pair(reg, KEY_I32, "i32", &TypeExpr::plain(KEY_DEBUG), "core::fmt::Debug");
    register_pair(reg, KEY_I32, "i32", &TypeExpr::plain(KEY_FOO), "Foo");
    register_pair(
        reg,
        KEY_STRING,
        "alloc::string::String",
        &TypeExpr::plain(KEY_DISPLAY),
        "std::fmt::Display",
    );
    register_pair(
        reg,
        KEY_STRING,
        "alloc::string::String",
        &TypeExpr::plain(KEY_DEBUG),
        "core::fmt::Debug",
    );
    register_pair(reg, KEY_STRING, "alloc::string::String", &TypeExpr::plain(KEY_FOO), "Foo");
}

fn test_display(
    reg: &Registry,
    pool: &mut CellPool<Box<dyn Display + Send>>,
    values: Vec<DynBox>,
) -> Vec<String> {
    let mut results = Vec::new();
    for value in values {
        let coerced = coerce(reg, pool, &value, &TypeExpr::plain(KEY_DISPLAY)).unwrap();
        results.push(format!("{}", coerced.get(pool)));
        coerced.release(pool);
        value.release(pool);
    }
    results
}

fn test_foo(
    reg: &Registry,
    pool: &mut CellPool<Box<dyn Foo + Send>>,
    values: Vec<DynBox>,
    target: &TypeExpr,
) -> Vec<String> {
    let mut results = Vec::new();
    for value in values {
        let coerced = coerce(reg, pool, &value, target).unwrap();
        results.push(coerced.get(pool).bar());
        coerced.release(pool);
        value.release(pool);
    }
    results
}

fn test_foo_mut(
    reg: &Registry,
    pool: &mut CellPool<Box<dyn FooMut + Send>>,
    values: Vec<DynBox>,
) -> Vec<String> {
    let mut results = Vec::new();
    for value in values {
        let coerced = coerce_mut(reg, pool, &value, &TypeExpr::plain(KEY_FOO_MUT)).unwrap();
        let mut inner = coerced.replace(pool, Box::new(0i32));
        results.push(inner.bar_mut());
        let _ = coerced.replace(pool, inner);
        coerced.release(pool);
        value.release(pool);
    }
    results
}

#[test]
fn test_registry_display() {
    let mut reg = Registry::new();
    let mut pool: CellPool<Box<dyn Display + Send>> = CellPool::new();
    register_common(&mut reg);

    let one = pool.new_exclusive(
        &mut reg,
        &TypeExpr::plain(KEY_I32),
        "i32",
        Box::new(1i32) as Box<dyn Display + Send>,
    );
    let two = pool.new_shared(
        &mut reg,
        &TypeExpr::plain(KEY_STRING),
        "alloc::string::String",
        Box::new(String::from("two")) as Box<dyn Display + Send>,
    );
    let values: Vec<DynBox> = vec![one, two];
    let results = test_display(&reg, &mut pool, values);

    assert_eq!(results, vec!["1", "two"]);
}

#[test]
fn test_registry_foo() {
    let mut reg = Registry::new();
    let mut pool: CellPool<Box<dyn Foo + Send>> = CellPool::new();
    register_common(&mut reg);

    let three = pool.new_exclusive(
        &mut reg,
        &TypeExpr::plain(KEY_I32),
        "i32",
        Box::new(3i32) as Box<dyn Foo + Send>,
    );
    let four = pool.new_shared(
        &mut reg,
        &TypeExpr::plain(KEY_STRING),
        "alloc::string::String",
        Box::new(String::from("four")) as Box<dyn Foo + Send>,
    );
    let values: Vec<DynBox> = vec![three, four];
    let results = test_foo(&reg, &mut pool, values, &TypeExpr::plain(KEY_FOO));

    assert_eq!(results, vec!["Foo for i32 (3)", "Foo for String (\"four\")"]);
}

#[test]
fn test_registry_compound_trait() {
    let mut reg = Registry::new();
    let mut pool: CellPool<Box<dyn Foo + Send>> = CellPool::new();
    register_common(&mut reg);
    let foo_send = TypeExpr::with_markers(KEY_FOO, vec![KEY_SEND]);
    register_pair(&mut reg, KEY_I32, "i32", &foo_send, "Foo");
    register_pair(&mut reg, KEY_STRING, "alloc::string::String", &foo_send, "Foo");

    let three = pool.new_exclusive(
        &mut reg,
        &TypeExpr::plain(KEY_I32),
        "i32",
        Box::new(3i32) as Box<dyn Foo + Send>,
    );
    let four = pool.new_shared(
        &mut reg,
        &TypeExpr::plain(KEY_STRING),
        "alloc::string::String",
        Box::new(String::from("four")) as Box<dyn Foo + Send>,
    );
    let values: Vec<DynBox> = vec![three, four];
    let results = test_foo(&reg, &mut pool, values, &TypeExpr::with_markers(KEY_FOO, vec![KEY_SEND]));

    assert_eq!(results, vec!["Foo for i32 (3)", "Foo for String (\"four\")"]);
}

#[test]
fn test_registry_foo_mut() {
    let mut reg = Registry::new();
    let mut pool: CellPool<Box<dyn FooMut + Send>> = CellPool::new();
    register_pair(&mut reg, KEY_I32, "i32", &TypeExpr::plain(KEY_FOO_MUT), "FooMut");
    register_pair(
        &mut reg,
        KEY_STRING,
        "alloc::string::String",
        &TypeExpr::plain(KEY_FOO_MUT),
        "FooMut",
    );

    let three = pool.new_exclusive(
        &mut reg,
        &TypeExpr::plain(KEY_I32),
        "i32",
        Box::new(3i32) as Box<dyn FooMut + Send>,
    );
    let four = pool.new_shared(
        &mut reg,
        &TypeExpr::plain(KEY_STRING),
        "alloc::string::String",
        Box::new(String::from("four")) as Box<dyn FooMut + Send>,
    );
    let values: Vec<DynBox> = vec![three, four];
    let results = test_foo_mut(&reg, &mut pool, values);

    assert_eq!(results, vec!["FooMut for i32 (4)", "FooMut for String (\"four!\")"]);
}

#[test]
fn registry_names_unregistered_placeholder() {
    let reg = Registry::new();
    let key = ocaml_rs_smartptr::keys::StorageKey::new(
        ocaml_rs_smartptr::keys::Wrap::Exclusive,
        TypeExpr::plain(KEY_I32),
    );
    assert_eq!(reg.display_name(&key), "<unregistered type>");
}

#[test]
fn plugin_carries_its_initializer() {
    let plugin = ocaml_rs_smartptr::registry::Plugin::new(|| 41 + 1);
    let initializer = plugin.into_initializer();
    assert_eq!(initializer(), 42);
}

#[test]
fn registry_type_info_round_trip() {
    let mut reg = Registry::new();
    ocaml_rs_smartptr::registry::register_type_info(
        &mut reg,
        &TypeExpr::plain(KEY_I32),
        "crate_a::Thing",
        vec![String::from("crate_a::Thing"), String::from("core::marker::Send")],
    );
    let info = ocaml_rs_smartptr::registry::get_type_info(&reg, &TypeExpr::plain(KEY_I32));
    assert_eq!(info.fq_name, "crate_a::Thing");
    assert_eq!(info.implementations, vec!["crate_a::Thing", "core::marker::Send"]);
}
