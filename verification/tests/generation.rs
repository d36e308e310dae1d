use pax_compiler::cartridge::{
    cartridge_imports, cartridge_lib_args, formatted_or_generated, generate_cartridge_args,
    generate_component_factories, sorted_expressions,
};
use pax_compiler::coproduct::properties_coproduct_args;
use pax_compiler::factory::TemplateArgsCodegenCartridgeComponentFactory;
use pax_compiler::manifest::{
    ComponentDefinition, ExpressionSpec, HostCrateInfo, PaxManifest, PropertyDefinition,
    TemplateNodeDefinition, TypeDefinition,
};
use pax_compiler::render::TemplateArgsCodegenCartridgeRenderNodeLiteral;
use pax_compiler::table::StringTable;

fn host() -> HostCrateInfo {
    HostCrateInfo {
        name: "my-app".to_string(),
        identifier: "my_app".to_string(),
        import_prefix: "my_app::pax_reexports::".to_string(),
        is_lib_dev_mode: false,
    }
}

fn component(id: &str, module: &str) -> (String, ComponentDefinition) {
    (
        id.to_string(),
        ComponentDefinition {
            type_id: id.to_string(),
            type_id_escaped: format!("esc{}", id),
            escaped_identifier: id.to_string(),
            snake_case_id: id.to_string(),
            pascal_identifier: id.to_string(),
            module: module.to_string(),
            is_main_component: false,
            is_primitive: false,
            is_struct_only_component: false,
            primitive_instance_import_path: None,
            template: Some(vec![TemplateNodeDefinition {
                type_id: "ROOT".to_string(),
                child_ids: Vec::new(),
                settings: None,
                control_flow_settings: None,
            }]),
            events: None,
        },
    )
}

fn type_named(id: &str, escaped: &str, properties: &[&str]) -> (String, TypeDefinition) {
    (
        id.to_string(),
        TypeDefinition {
            type_id: id.to_string(),
            type_id_escaped: escaped.to_string(),
            import_path: id.to_string(),
            property_definitions: properties
                .iter()
                .map(|p| PropertyDefinition { name: p.to_string(), type_id: p.to_string() })
                .collect(),
        },
    )
}

fn manifest() -> PaxManifest {
    PaxManifest {
        import_paths: Vec::new(),
        type_table: StringTable {
            entries: vec![
                type_named("Z", "escZ", &["crate::grids::Cell", "f64"]),
                type_named("A", "escA", &["crate::grids::Cell"]),
                type_named("crate::grids::Cell", "Cell", &[]),
                type_named("f64", "f64", &[]),
            ],
        },
        components: StringTable {
            entries: vec![component("Z", "crate::grids"), component("A", "crate")],
        },
        expression_specs: Some(Vec::new()),
    }
}

fn pair(a: &str, b: &str) -> (String, String) {
    (a.to_string(), b.to_string())
}

#[test]
fn the_coproduct_lists_components_and_types_in_order() {
    let args = properties_coproduct_args(&manifest(), &host());
    assert_eq!(
        args.properties_coproduct_tuples,
        vec![
            pair("escA", "my_app::pax_reexports::A"),
            pair("escZ", "my_app::pax_reexports::grids::Z"),
        ]
    );
    assert_eq!(
        args.types_coproduct_tuples,
        vec![
            pair("Cell", "my_app::pax_reexports::grids::Cell"),
            pair("Numeric", "pax_runtime_api::Numeric"),
            pair("Size", "pax_runtime_api::Size"),
            pair("Size2D", "pax_runtime_api::Size2D"),
            pair("SizePixels", "pax_runtime_api::SizePixels"),
            pair("String", "String"),
            pair("Transform2D", "pax_runtime_api::Transform2D"),
            pair("bool", "bool"),
            pair("f64", "f64"),
            pair("isize", "isize"),
            pair("stdCOCOopsCOCORangeLABRisizeRABR", "std::ops::Range<isize>"),
            pair(
                "stdCOCOvecCOCOVecLABRstdCOCOrcCOCORcLABRPropertiesCoproductRABRRABR",
                "std::vec::Vec<std::rc::Rc<PropertiesCoproduct>>"
            ),
            pair("usize", "usize"),
        ]
    );
}

#[test]
fn a_variant_that_several_types_share_holds_the_least() {
    let mut m = manifest();
    m.type_table.entries[3].1.type_id = "a64".to_string();
    let mut info = host();
    info.import_prefix = "".to_string();
    let args = properties_coproduct_args(&m, &info);
    let found: Vec<&(String, String)> =
        args.types_coproduct_tuples.iter().filter(|t| t.0 == "f64").collect();
    assert_eq!(found, vec![&pair("f64", "a64")]);
}

#[test]
fn the_element_types_of_lists_are_listed_too() {
    let mut m = manifest();
    m.type_table.entries.push(type_named(
        "L",
        "escL",
        &["std::vec::Vec<crate::Dot>", "std::vec::Vec<Unknown>"],
    ));
    m.type_table.entries.push(type_named("std::vec::Vec<crate::Dot>", "VecDot", &[]));
    m.type_table.entries.push(type_named("std::vec::Vec<Unknown>", "VecUnknown", &[]));
    m.type_table.entries.push(type_named("crate::Dot", "Dot", &[]));
    m.type_table.entries.push(type_named("crate::Unused", "Unused", &[]));
    m.components.entries.push(component("L", "crate"));
    let types = properties_coproduct_args(&m, &host()).types_coproduct_tuples;
    assert!(types.contains(&pair("Dot", "my_app::pax_reexports::Dot")));
    assert!(types.contains(&pair("VecDot", "my_app::pax_reexports::std::vec::Vec<Dot>")));
    assert!(types.iter().any(|t| t.0 == "VecUnknown"));
    assert!(!types.iter().any(|t| t.0 == "Unused" || t.1.ends_with("::Unknown")));
    assert_eq!(types.len(), 13 + 3);
}

#[test]
fn components_that_look_alike_are_listed_once() {
    let mut m = manifest();
    m.components.entries.push(component("A", "crate"));
    m.components.entries[2].0 = "another".to_string();
    let args = properties_coproduct_args(&m, &host());
    assert_eq!(args.properties_coproduct_tuples.len(), 2);
}

#[test]
fn the_cartridge_imports_reexports_and_built_ins() {
    let paths = vec![
        "crate::grids::Grid".to_string(),
        "std::rc::Rc".to_string(),
        "pax_std::Group".to_string(),
    ];
    let imports = cartridge_imports(&paths, "my_app");
    assert_eq!(imports.len(), 3 + 27);
    assert_eq!(imports[0], "my_app::pax_reexports::grids::Grid");
    assert_eq!(imports[1], "");
    assert_eq!(imports[2], "my_app::pax_reexports::pax_std::Group");
    assert_eq!(imports[3], "std::cell::RefCell");
    assert_eq!(imports[7], "std::rc::Rc");
    assert_eq!(imports[29], "piet_common::RenderContext");
}

fn expression(id: usize, statement: &str) -> ExpressionSpec {
    ExpressionSpec { id, output_statement: statement.to_string() }
}

#[test]
fn expressions_are_sorted_by_their_ids() {
    let sorted = sorted_expressions(&vec![
        expression(10, "ten"),
        expression(2, "two"),
        expression(0, "zero"),
        expression(2, "another two"),
    ]);
    let seen: Vec<(usize, &str)> =
        sorted.iter().map(|e| (e.id, e.output_statement.as_str())).collect();
    assert_eq!(seen, vec![(0, "zero"), (2, "two"), (2, "another two"), (10, "ten")]);
    assert!(sorted_expressions(&Vec::new()).is_empty());
}

fn press_node(args: TemplateArgsCodegenCartridgeRenderNodeLiteral) -> String {
    args.pascal_identifier
}

fn press_factory(args: TemplateArgsCodegenCartridgeComponentFactory) -> String {
    format!("factory of {}", args.snake_case_type_id)
}

#[test]
fn primitive_and_struct_only_components_have_no_factories() {
    let mut m = manifest();
    m.components.entries.push(component("P", "crate"));
    m.components.entries[2].1.is_primitive = true;
    m.components.entries[2].1.template = None;
    m.components.entries.push(component("S", "crate"));
    m.components.entries[3].1.is_struct_only_component = true;
    m.components.entries[3].1.template = None;
    assert_eq!(
        generate_component_factories(&m, &host(), &press_node, &press_factory),
        vec!["factory of Z".to_string(), "factory of A".to_string()]
    );
}

#[test]
fn the_cartridge_is_pressed_from_all_of_them() {
    let mut m = manifest();
    m.import_paths.push("f64".to_string());
    m.expression_specs = Some(vec![expression(1, "b"), expression(0, "a")]);
    let args = generate_cartridge_args(&m, &host(), &press_node, &press_factory);
    assert_eq!(args.imports[0], "my_app::pax_reexports::f64");
    assert_eq!(args.imports.len(), 28);
    assert!(args.consts.is_empty());
    assert_eq!(args.expression_specs[0].output_statement, "a");
    assert_eq!(args.expression_specs[1].output_statement, "b");
    assert_eq!(
        args.component_factories_literal,
        vec!["factory of Z".to_string(), "factory of A".to_string()]
    );
    let given = cartridge_lib_args(&m, &host(), vec!["x".to_string()]);
    assert_eq!(given.component_factories_literal, vec!["x".to_string()]);
}

#[test]
fn code_that_cannot_be_formatted_stays_as_it_is() {
    assert_eq!(formatted_or_generated("raw".to_string(), None), "raw");
    assert_eq!(formatted_or_generated("raw".to_string(), Some("neat".to_string())), "neat");
}
