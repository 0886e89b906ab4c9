//! Name processing: core-name extraction, segmentation, snake casing and
//! the composed binding helpers.

use ocaml_rs_smartptr::extras::{
    callable_desc, insert_type_params, stubs_file_name, variant_tags, TypeParams, P1, P2, P3,
};
use ocaml_rs_smartptr::keys::TypeExpr;
use ocaml_rs_smartptr::names::{
    capitalize_first_letter, capture_segments, convert_to_snake_case, extract_type_name,
    get_type_name, snake_case_of_fully_qualified_name,
};
use ocaml_rs_smartptr::registry::{register_type_info, Registry};
use ocaml_rs_smartptr::text::find_substr;

#[test]
fn extract_core_names() {
    assert_eq!(extract_type_name("std::sync::Mutex<i32>"), "Mutex");
    assert_eq!(extract_type_name("ocaml_rs_smartptr_test::stubs::AnimalProxy"), "AnimalProxy");
    assert_eq!(extract_type_name("Plain"), "Plain");
    assert_eq!(extract_type_name("a::b"), "b");
    assert_eq!(extract_type_name(""), "");
}

#[test]
fn capture_segments_stops_at_core() {
    assert_eq!(
        capture_segments("std::sync::Mutex<i32>"),
        vec!["std", "sync", "Mutex"]
    );
    assert_eq!(
        capture_segments("core::marker::Send"),
        vec!["core", "marker", "Send"]
    );
    assert_eq!(capture_segments("Plain"), vec!["Plain"]);
}

#[test]
fn snake_case_segments() {
    assert_eq!(convert_to_snake_case("AnimalProxy"), "animal_proxy");
    assert_eq!(convert_to_snake_case("stubs"), "stubs");
    assert_eq!(convert_to_snake_case("Send"), "send");
    assert_eq!(convert_to_snake_case(""), "");
}

#[test]
fn capitalization() {
    assert_eq!(capitalize_first_letter("abc"), "Abc");
    assert_eq!(capitalize_first_letter(""), "");
    assert_eq!(capitalize_first_letter("x"), "X");
}

#[test]
fn snake_case_of_full_names() {
    assert_eq!(snake_case_of_fully_qualified_name("core::marker::Send"), "Core_marker_send");
    assert_eq!(
        snake_case_of_fully_qualified_name("ocaml_rs_smartptr_test::stubs::AnimalProxy"),
        "Ocaml_rs_smartptr_test_stubs_animal_proxy"
    );
    assert_eq!(
        snake_case_of_fully_qualified_name("std::sync::Mutex<i32>"),
        "Std_sync_mutex"
    );
}

#[test]
fn variant_tags_join_implementations() {
    let names = vec![
        String::from("ocaml_rs_smartptr_test::stubs::AnimalProxy"),
        String::from("core::marker::Send"),
    ];
    assert_eq!(
        variant_tags(&names),
        "`Ocaml_rs_smartptr_test_stubs_animal_proxy|`Core_marker_send"
    );
}

#[test]
fn type_name_reads_registered_info() {
    let mut reg = Registry::new();
    register_type_info(
        &mut reg,
        &TypeExpr::plain(3),
        "crate_a::deep::Widget<u8>",
        vec![String::from("crate_a::deep::Widget<u8>")],
    );
    assert_eq!(get_type_name(&reg, &TypeExpr::plain(3)), "Widget");
}

#[test]
fn insert_params_after_marker() {
    let inserted = insert_type_params("type nonrec t = u Rusty_obj.t", "'a").unwrap();
    assert_eq!(inserted, "type nonrec 'a t = u Rusty_obj.t");
    let missing = insert_type_params("type t = unit", "'a");
    assert_eq!(missing, Err("Could not find 'type nonrec' in the input string"));
}

#[test]
fn stubs_file_names() {
    assert_eq!(stubs_file_name("ocaml-rs-smartptr"), "Ocaml_rs_smartptr.ml");
    assert_eq!(stubs_file_name("plugin"), "Plugin.ml");
}

#[test]
fn type_params_render() {
    assert_eq!(P1 { c: 'a' }.params_string(), "'a");
    assert_eq!(P1 { c: 'a' }.params_count(), 1);
    assert_eq!(P2 { c1: 'a', c2: 'b' }.params_string(), "('a, 'b)");
    assert_eq!(P2 { c1: 'a', c2: 'b' }.params_count(), 2);
    assert_eq!(P3 { c1: 'a', c2: 'b', c3: 'c' }.params_string(), "('a, 'b, 'c)");
    assert_eq!(P3 { c1: 'a', c2: 'b', c3: 'c' }.params_count(), 3);
}

#[test]
fn callable_signatures_render() {
    let args = vec![String::from("wolf t"), String::from("string")];
    assert_eq!(callable_desc(&args, "unit"), "((wolf t) -> (string) -> (unit))");
    let one = vec![String::from("unit")];
    assert_eq!(callable_desc(&one, "string"), "((unit) -> (string))");
}

#[test]
fn substring_search() {
    assert_eq!(find_substr("abcabc", "ca"), Some(2));
    assert_eq!(find_substr("abcabc", "abc"), Some(0));
    assert_eq!(find_substr("abcabc", "zz"), None);
    assert_eq!(find_substr("", "a"), None);
}
