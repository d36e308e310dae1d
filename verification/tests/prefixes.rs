use pax_compiler::manifest::{HostCrateInfo, PaxManifest, PropertyDefinition, TypeDefinition};
use pax_compiler::prefixes::update_property_prefixes_in_place;
use pax_compiler::table::StringTable;

fn host() -> HostCrateInfo {
    HostCrateInfo {
        name: "some-app".to_string(),
        identifier: "some_app".to_string(),
        import_prefix: "some_app::pax_reexports::".to_string(),
        is_lib_dev_mode: false,
    }
}

fn definition(id: &str, escaped: &str, property: &str) -> TypeDefinition {
    TypeDefinition {
        type_id: id.to_string(),
        type_id_escaped: escaped.to_string(),
        import_path: "{PREFIX}kept".to_string(),
        property_definitions: vec![PropertyDefinition {
            name: "{PREFIX}name".to_string(),
            type_id: property.to_string(),
        }],
    }
}

fn manifest(types: Vec<(String, TypeDefinition)>) -> PaxManifest {
    PaxManifest {
        import_paths: Vec::new(),
        type_table: StringTable { entries: types },
        components: StringTable::new(),
        expression_specs: None,
    }
}

#[test]
fn placeholders_are_filled_in() {
    let mut m = manifest(vec![(
        "{PREFIX}Grid".to_string(),
        definition("{PREFIX}Grid", "{PREFIX}Grid", "Vec<{PREFIX}Cell>"),
    )]);
    update_property_prefixes_in_place(&mut m, &host());
    assert_eq!(m.type_table.entries.len(), 1);
    let t = m.type_table.get("some_app::pax_reexports::Grid").unwrap();
    assert_eq!(t.type_id, "some_app::pax_reexports::Grid");
    assert_eq!(t.type_id_escaped, "Grid");
    assert_eq!(t.import_path, "{PREFIX}kept");
    assert_eq!(t.property_definitions[0].name, "{PREFIX}name");
    assert_eq!(t.property_definitions[0].type_id, "Vec<some_app::pax_reexports::Cell>");
}

#[test]
fn types_without_placeholders_stay() {
    let mut m = manifest(vec![("f64".to_string(), definition("f64", "f64", "usize"))]);
    update_property_prefixes_in_place(&mut m, &host());
    let t = m.type_table.get("f64").unwrap();
    assert_eq!(t.type_id, "f64");
    assert_eq!(t.type_id_escaped, "f64");
    assert_eq!(t.property_definitions[0].type_id, "usize");
}

#[test]
fn of_two_types_with_one_key_one_is_left() {
    let mut m = manifest(vec![
        ("{PREFIX}A".to_string(), definition("{PREFIX}A", "first", "x")),
        ("some_app::pax_reexports::A".to_string(), definition("B", "second", "y")),
    ]);
    update_property_prefixes_in_place(&mut m, &host());
    assert_eq!(m.type_table.entries.len(), 1);
    let t = m.type_table.get("some_app::pax_reexports::A").unwrap();
    assert_eq!(t.type_id_escaped, "second");
}

#[test]
fn nothing_else_of_the_manifest_changes() {
    let mut m = manifest(Vec::new());
    m.import_paths.push("{PREFIX}x".to_string());
    update_property_prefixes_in_place(&mut m, &host());
    assert_eq!(m.import_paths, vec!["{PREFIX}x".to_string()]);
    assert!(m.components.entries.is_empty());
    assert!(m.expression_specs.is_none());
}

#[test]
fn filling_in_a_second_time_changes_nothing() {
    let mut m = manifest(vec![
        ("{PREFIX}A".to_string(), definition("{PREFIX}A", "{PREFIX}A", "Vec<{PREFIX}B>")),
        ("f64".to_string(), definition("f64", "f64", "{PREFIX}{PREFIX}")),
    ]);
    update_property_prefixes_in_place(&mut m, &host());
    let once = format!("{:?}", m.type_table);
    update_property_prefixes_in_place(&mut m, &host());
    assert_eq!(format!("{:?}", m.type_table), once);
    for (key, t) in &m.type_table.entries {
        for id in [key, &t.type_id, &t.type_id_escaped, &t.property_definitions[0].type_id] {
            assert!(!id.contains("{PREFIX}"), "{}", id);
        }
    }
}
