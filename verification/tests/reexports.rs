use pax_compiler::reexports::{
    bundle_reexports_into_namespace_string, generate_reexports_partial_rs,
    REEXPORTS_PARTIAL_RS_PATH,
};

fn list(paths: &[&str]) -> Vec<String> {
    paths.iter().map(|p| p.to_string()).collect()
}

const EXPECTED: &str = "pub mod pax_reexports {
    pub use crate::Example;
    pub mod grids {
        pub use crate::grids::Grids;
    }
    pub use usize;

}";

#[test]
fn imports_are_sorted_before_they_are_bundled() {
    let unsorted = list(&["usize", "crate::grids::Grids", "crate::Example"]);
    assert_eq!(generate_reexports_partial_rs(unsorted), EXPECTED);
    let sorted = list(&["crate::Example", "crate::grids::Grids", "usize"]);
    assert_eq!(bundle_reexports_into_namespace_string(&sorted), EXPECTED);
}

#[test]
fn repeated_imports_are_exported_once() {
    let repeated = list(&["usize", "usize", "crate::grids::Grids", "crate::Example", "usize"]);
    assert_eq!(generate_reexports_partial_rs(repeated), EXPECTED);
}

#[test]
fn every_import_has_its_line() {
    let paths = list(&["z::A", "crate::b::C", "crate::b::D", "f64"]);
    let out = generate_reexports_partial_rs(paths.clone());
    for path in paths {
        assert!(out.contains(&format!("pub use {};", path)), "{}", path);
    }
}

#[test]
fn the_file_is_named() {
    assert_eq!(REEXPORTS_PARTIAL_RS_PATH, "reexports.partial.rs");
}

fn use_lines(out: &str) -> Vec<String> {
    out.lines()
        .filter_map(|l| l.trim_start().strip_prefix("pub use ").and_then(|l| l.strip_suffix(";")))
        .map(|l| l.to_string())
        .collect()
}

#[test]
fn the_use_lines_are_the_imports_that_no_other_continues() {
    let out = generate_reexports_partial_rs(list(&[
        "std::vec::Vec",
        "a-b",
        "a",
        "a::c::D",
        "a::c",
        "crate",
        "crate::z::Z",
        "crate::A",
        "crate::z::Y",
        "a::b",
        "a::b",
    ]));
    assert_eq!(
        use_lines(&out),
        list(&["a::b", "a::c::D", "a-b", "crate::A", "crate::z::Y", "crate::z::Z", "std::vec::Vec"])
    );
    assert_eq!(generate_reexports_partial_rs(list(&["crate"])), "pub mod pax_reexports {\n\n}");
}

#[test]
fn use_lines_stand_in_the_modules_of_their_namespaces() {
    let out = generate_reexports_partial_rs(list(&[
        "crate::B",
        "crate::a::B",
        "crate::a::c::D",
        "std::vec::Vec",
        "f64",
    ]));
    let mut open: Vec<String> = Vec::new();
    let mut found: Vec<(String, String)> = Vec::new();
    for line in out.lines() {
        let line = line.trim_start();
        if line == "}" {
            open.pop().unwrap();
        } else if let Some(rest) = line.strip_prefix("pub mod ") {
            open.push(rest.strip_suffix("{").unwrap().trim_end().to_string());
        } else if let Some(rest) = line.strip_prefix("pub use ") {
            found.push((rest.to_string(), open.join("::")));
        }
    }
    assert!(open.is_empty());
    let expected: Vec<(String, String)> = [
        ("crate::B;", "pax_reexports"),
        ("crate::a::B;", "pax_reexports::a"),
        ("crate::a::c::D;", "pax_reexports::a::c"),
        ("f64;", "pax_reexports"),
        ("std::vec::Vec;", "pax_reexports::std::vec"),
    ]
    .iter()
    .map(|(a, b)| (a.to_string(), b.to_string()))
    .collect();
    assert_eq!(found, expected);
    assert_eq!(out.matches('{').count(), out.matches('}').count());
}
