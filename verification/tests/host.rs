use pax_compiler::host::{
    get_host_crate_info, host_crate_named, is_pointed_to_host, point_to_host,
    process_file_content, transform_file_content, try_get_host_crate_info,
    try_process_file_content, try_transform_file_content,
};

const CARTRIDGE: &str = "[package]
name = \"pax-cartridge\"

[dependencies]
my-app = { path = \"elsewhere\" } # the host
itertools = \"0.10\"
";

#[test]
fn the_host_crate_is_described() {
    let info = host_crate_named("my-pax-app".to_string(), "/home/me/my-pax-app/Cargo.toml");
    assert_eq!(info.name, "my-pax-app");
    assert_eq!(info.identifier, "my_pax_app");
    assert_eq!(info.import_prefix, "my_pax_app::pax_reexports::");
    assert!(!info.is_lib_dev_mode);
    let info = host_crate_named("pax-example".to_string(), "../pax-example/Cargo.toml");
    assert!(info.is_lib_dev_mode);
}

#[test]
fn the_host_crate_is_read_from_its_manifest() {
    let info = get_host_crate_info("[package]\nname = 'pax-example'\n", "pax-example/Cargo.toml");
    assert_eq!(info.name, "pax-example");
    assert_eq!(info.identifier, "pax_example");
    assert_eq!(info.import_prefix, "pax_example::pax_reexports::");
    assert!(info.is_lib_dev_mode);
    let info = try_get_host_crate_info("package = { name = \"a\" }", "Cargo.toml").unwrap();
    assert_eq!(info.name, "a");
}

#[test]
fn a_manifest_without_a_name_describes_no_crate() {
    assert!(try_get_host_crate_info("not toml [", "Cargo.toml").is_none());
    assert!(try_get_host_crate_info("", "Cargo.toml").is_none());
    assert!(try_get_host_crate_info("[package]\n", "Cargo.toml").is_none());
    assert!(try_get_host_crate_info("[package]\nname = 1\n", "Cargo.toml").is_none());
}

#[test]
fn two_manifests_are_pointed_to_the_host() {
    assert!(is_pointed_to_host("x/pax-cartridge/Cargo.toml"));
    assert!(is_pointed_to_host("pax-properties-coproduct/Cargo.toml"));
    assert!(!is_pointed_to_host("pax-core/Cargo.toml"));
    assert!(!is_pointed_to_host("pax-cartridge/src/lib.rs"));
}

#[test]
fn a_dependency_is_made_to_point_to_the_host() {
    let info = host_crate_named("my-app".to_string(), "Cargo.toml");
    let out = point_to_host(CARTRIDGE, &info).unwrap();
    assert!(out.contains("path=\"../..\""));
    assert!(!out.contains("elsewhere"));
    assert!(out.contains("itertools = \"0.10\""));
    assert!(out.contains("name = \"pax-cartridge\""));
    let document: toml_edit::Document = out.parse().unwrap();
    assert_eq!(document["dependencies"]["my-app"]["path"].as_str(), Some("../.."));
    let again = point_to_host(&out, &info).unwrap();
    let document: toml_edit::Document = again.parse().unwrap();
    assert_eq!(document["dependencies"]["my-app"]["path"].as_str(), Some("../.."));
}

#[test]
fn a_missing_dependency_is_added() {
    let info = host_crate_named("new-app".to_string(), "Cargo.toml");
    let out = point_to_host(CARTRIDGE, &info).unwrap();
    let document: toml_edit::Document = out.parse().unwrap();
    assert_eq!(document["dependencies"]["new-app"]["path"].as_str(), Some("../.."));
    assert_eq!(document["dependencies"]["my-app"]["path"].as_str(), Some("elsewhere"));
}

#[test]
fn files_are_copied_as_they_are_or_pointed_to_the_host() {
    let info = host_crate_named("my-app".to_string(), "Cargo.toml");
    assert_eq!(process_file_content("any [text", "src/lib.rs", &info), "any [text");
    assert_eq!(transform_file_content("src/lib.rs", "any [text", &info), "any [text");
    let expected = point_to_host(CARTRIDGE, &info).unwrap();
    let path = "pkg/pax-cartridge/Cargo.toml";
    assert_eq!(process_file_content(CARTRIDGE, path, &info), expected);
    assert_eq!(transform_file_content(path, CARTRIDGE, &info), expected);
    assert_eq!(try_process_file_content(CARTRIDGE, path, &info), Some(expected.clone()));
    assert_eq!(try_transform_file_content(path, CARTRIDGE, &info), Some(expected));
}

#[test]
fn a_manifest_that_is_no_toml_is_not_copied() {
    let info = host_crate_named("my-app".to_string(), "Cargo.toml");
    let path = "pax-cartridge/Cargo.toml";
    assert_eq!(try_process_file_content("any [text", path, &info), None);
    assert_eq!(try_transform_file_content(path, "dependencies = 1", &info), None);
    assert_eq!(
        try_process_file_content("any [text", "elsewhere.toml", &info).as_deref(),
        Some("any [text")
    );
}
