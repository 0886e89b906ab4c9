//! The verified name scanners held against the `regex` crate: the core-name
//! grammar is `::(\w+)(<|$)` and segmentation is `[^:<]+`, so an
//! implementation built from regular expressions must agree with the
//! verified one on every sample.

use ocaml_rs_smartptr::names::{capture_segments, convert_to_snake_case, extract_type_name};
use regex::Regex;

fn extract_with_regex(type_str: &str) -> String {
    let re = Regex::new(r"::(\w+)(<|$)").unwrap();
    if let Some(captures) = re.captures(type_str) {
        return captures.get(1).unwrap().as_str().to_string();
    }
    let segments: Vec<&str> = type_str.split(':').collect();
    segments.last().copied().unwrap_or(type_str).to_string()
}

fn segments_with_regex(type_str: &str) -> Vec<String> {
    let re = Regex::new(r"[^:<]+").unwrap();
    let segments: Vec<&str> = re.find_iter(type_str).map(|mat| mat.as_str()).collect();
    let core_type = extract_with_regex(type_str);
    let index = segments
        .iter()
        .position(|&s| s == core_type)
        .unwrap_or(segments.len() - 1);
    segments[..=index].iter().map(|s| s.to_string()).collect()
}

fn snake_with_std(segment: &str) -> String {
    segment
        .chars()
        .enumerate()
        .map(|(i, c)| {
            if i > 0 && c.is_uppercase() {
                format!("_{}", c.to_lowercase())
            } else {
                c.to_lowercase().to_string()
            }
        })
        .collect::<String>()
}

const SAMPLES: &[&str] = &[
    "std::sync::Mutex<i32>",
    "std::sync::RwLock<alloc::string::String>",
    "ocaml_rs_smartptr_test::stubs::AnimalProxy",
    "core::marker::Send",
    "core::marker::Sync",
    "std::error::Error",
    "crate_a::deep::Widget<u8>",
    "a::b",
    "a::b::c::d",
    "x9::_under_score7<T>",
    "NoPath",
    "trailing::",
    "::leading",
    "with<angle::only",
    "a::b<c::d<e>>",
];

#[test]
fn extraction_agrees_with_the_regex_grammar() {
    for sample in SAMPLES {
        assert_eq!(
            extract_type_name(sample),
            extract_with_regex(sample),
            "core name of {:?}",
            sample
        );
    }
}

#[test]
fn segmentation_agrees_with_the_regex_grammar() {
    for sample in SAMPLES {
        // Segmentation needs at least one segment to exist.
        if sample.chars().any(|c| c != ':' && c != '<') {
            assert_eq!(
                capture_segments(sample),
                segments_with_regex(sample),
                "segments of {:?}",
                sample
            );
        }
    }
}

#[test]
fn snake_casing_agrees_with_std_on_ascii() {
    for sample in &["AnimalProxy", "Send", "stubs", "x9_Under", "ABC", ""] {
        assert_eq!(convert_to_snake_case(sample), snake_with_std(sample), "snake of {:?}", sample);
    }
}
