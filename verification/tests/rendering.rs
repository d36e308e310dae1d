use pax_compiler::events::{generate_bound_events, generate_events_map};
use pax_compiler::factory::{
    component_factory_args, generate_cartridge_component_factory_literal,
    TemplateArgsCodegenCartridgeComponentFactory,
};
use pax_compiler::literals::{
    property_expression_text, property_literal_text, recurse_literal_block, value_text,
};
use pax_compiler::manifest::{
    ComponentDefinition, ControlFlowRepeatSourceDefinition, ControlFlowSettingsDefinition,
    EventDefinition, HostCrateInfo, LiteralBlockDefinition, PaxManifest, PropertyDefinition,
    TemplateNodeDefinition, TypeDefinition, ValueDefinition, TYPE_ID_IF, TYPE_ID_REPEAT,
    TYPE_ID_SLOT,
};
use pax_compiler::readiness::{
    are_all_properties_known, are_factories_ready, are_properties_known, is_expressible,
    is_expressible_block, is_node_ready, is_template_ready, is_tree_ready,
};
use pax_compiler::render::{
    generate_cartridge_render_nodes_literal, recurse_generate_render_nodes_literal,
    render_node_args, RenderNodesGenerationContext, TemplateArgsCodegenCartridgeRenderNodeLiteral,
};
use pax_compiler::table::StringTable;

fn host() -> HostCrateInfo {
    HostCrateInfo {
        name: "app".to_string(),
        identifier: "app".to_string(),
        import_prefix: "app::pax_reexports::".to_string(),
        is_lib_dev_mode: false,
    }
}

fn literal(s: &str) -> ValueDefinition {
    ValueDefinition::LiteralValue(s.to_string())
}

fn setting(name: &str, value: ValueDefinition) -> (String, ValueDefinition) {
    (name.to_string(), value)
}

fn node(
    type_id: &str,
    child_ids: Vec<usize>,
    settings: Option<Vec<(String, ValueDefinition)>>,
) -> TemplateNodeDefinition {
    TemplateNodeDefinition {
        type_id: type_id.to_string(),
        child_ids,
        settings,
        control_flow_settings: None,
    }
}

fn flow(
    type_id: &str,
    condition: Option<usize>,
    slot: Option<usize>,
    repeat: Option<ControlFlowRepeatSourceDefinition>,
) -> TemplateNodeDefinition {
    TemplateNodeDefinition {
        type_id: type_id.to_string(),
        child_ids: Vec::new(),
        settings: None,
        control_flow_settings: Some(ControlFlowSettingsDefinition {
            condition_expression_vtable_id: condition,
            slot_index_expression_vtable_id: slot,
            repeat_source_definition: repeat,
        }),
    }
}

fn component(
    type_id: &str,
    pascal: &str,
    template: Option<Vec<TemplateNodeDefinition>>,
) -> ComponentDefinition {
    ComponentDefinition {
        type_id: type_id.to_string(),
        type_id_escaped: format!("{}Escaped", pascal),
        escaped_identifier: format!("{}Identifier", pascal),
        snake_case_id: format!("{}_snake", pascal),
        pascal_identifier: pascal.to_string(),
        module: "crate".to_string(),
        is_main_component: pascal == "Main",
        is_primitive: pascal == "Rect",
        is_struct_only_component: false,
        primitive_instance_import_path: if pascal == "Rect" {
            Some("pax_std::RectInstance".to_string())
        } else {
            None
        },
        template,
        events: None,
    }
}

fn property(name: &str, type_id: &str) -> PropertyDefinition {
    PropertyDefinition { name: name.to_string(), type_id: type_id.to_string() }
}

fn type_named(id: &str, properties: Vec<PropertyDefinition>) -> (String, TypeDefinition) {
    (
        id.to_string(),
        TypeDefinition {
            type_id: id.to_string(),
            type_id_escaped: format!("{}Variant", id),
            import_path: format!("crate::types::{}", id),
            property_definitions: properties,
        },
    )
}

fn manifest(template: Vec<TemplateNodeDefinition>) -> PaxManifest {
    PaxManifest {
        import_paths: Vec::new(),
        type_table: StringTable {
            entries: vec![
                type_named("main_type", vec![property("count", "usize")]),
                type_named("rect_type", vec![property("fill", "Color"), property("label", "usize")]),
                type_named("Color", Vec::new()),
                type_named("usize", Vec::new()),
            ],
        },
        components: StringTable {
            entries: vec![
                ("Main".to_string(), component("main_type", "Main", Some(template))),
                ("Rect".to_string(), component("rect_type", "Rect", None)),
            ],
        },
        expression_specs: None,
    }
}

fn context(m: &PaxManifest) -> RenderNodesGenerationContext<'_> {
    RenderNodesGenerationContext {
        components: &m.components,
        active_component_definition: &m.components.entries[0].1,
        type_table: &m.type_table,
    }
}

fn block(settings: Vec<(String, ValueDefinition)>) -> LiteralBlockDefinition {
    LiteralBlockDefinition { settings_key_value_pairs: settings }
}

const DEFAULT: &str = "PropertyLiteral::new(Default::default())";

#[test]
fn values_are_expressed() {
    assert_eq!(property_literal_text("10"), "PropertyLiteral::new(10)");
    assert_eq!(property_expression_text(42), "PropertyExpression::new(42)");
    assert_eq!(value_text(&literal("1.5"), ""), "PropertyLiteral::new(1.5)");
    assert_eq!(
        value_text(&ValueDefinition::Expression("a + b".to_string(), Some(3)), ""),
        "PropertyExpression::new(3)"
    );
    assert_eq!(
        value_text(&ValueDefinition::Identifier("a".to_string(), Some(4)), ""),
        "PropertyExpression::new(4)"
    );
}

#[test]
fn blocks_are_expressed() {
    let inner = block(vec![setting("w", literal("2"))]);
    let outer = block(vec![
        setting("color", literal("red")),
        setting("size", ValueDefinition::Identifier("s".to_string(), Some(9))),
        setting("inner", ValueDefinition::Block(inner)),
    ]);
    let t = type_named("Stroke", Vec::new()).1;
    assert_eq!(
        recurse_literal_block(&outer, &t, &host()),
        "\n{ let mut ret = app::pax_reexports::types::Stroke::default();\
         \nret.color = Box::new(PropertyLiteral::new(red));\
         \nret.size = Box::new(PropertyExpression::new(9));\
         \nret.inner = Box::new(PropertyLiteral::new(\
         \n{ let mut ret = app::pax_reexports::types::Stroke::default();\
         \nret.w = Box::new(PropertyLiteral::new(2));\
         \n ret }));\
         \n ret }"
    );
    assert_eq!(
        recurse_literal_block(&block(Vec::new()), &t, &host()),
        "\n{ let mut ret = app::pax_reexports::types::Stroke::default();\n ret }"
    );
}

#[test]
fn events_are_bound_by_the_last_setting() {
    let settings = Some(vec![
        setting("click", ValueDefinition::EventBindingTarget("first".to_string())),
        setting("width", literal("1")),
        setting("jab", ValueDefinition::EventBindingTarget("jabbed".to_string())),
        setting("click", ValueDefinition::EventBindingTarget("second".to_string())),
    ]);
    let events = generate_bound_events(&settings);
    assert_eq!(events.entries.len(), 2);
    assert_eq!(events.get("click").map(|s| s.as_str()), Some("second"));
    assert_eq!(events.get("jab").map(|s| s.as_str()), Some("jabbed"));
    assert!(generate_bound_events(&None).entries.is_empty());
}

#[test]
fn handlers_are_those_of_the_last_definition() {
    let events = Some(vec![
        EventDefinition { key: "click".to_string(), value: vec!["a".to_string()] },
        EventDefinition {
            key: "click".to_string(),
            value: vec!["b".to_string(), "c".to_string()],
        },
    ]);
    let map = generate_events_map(&events);
    assert_eq!(map.entries.len(), 1);
    assert_eq!(map.get("click"), Some(&vec!["b".to_string(), "c".to_string()]));
    assert!(generate_events_map(&None).entries.is_empty());
}

#[test]
fn a_repeating_node_goes_through_a_symbol_or_a_range() {
    let m = manifest(Vec::new());
    let symbol = flow(
        TYPE_ID_REPEAT,
        None,
        None,
        Some(ControlFlowRepeatSourceDefinition {
            range_expression_paxel: None,
            symbolic_binding: Some("items".to_string()),
            vtable_id: Some(7),
        }),
    );
    let args = render_node_args(&context(&m), &symbol, &host(), vec!["child".to_string()]);
    assert!(args.is_primitive);
    assert_eq!(args.snake_case_type_id, "UNREACHABLE");
    assert_eq!(args.primitive_instance_import_path.as_deref(), Some("RepeatInstance"));
    assert_eq!(
        args.repeat_source_expression_literal_vec,
        "Some(Box::new(PropertyExpression::new(7)))"
    );
    assert_eq!(args.repeat_source_expression_literal_range, "None");
    assert_eq!(args.conditional_boolean_expression_literal, "None");
    assert_eq!(args.slot_index_literal, "None");
    assert_eq!(args.children_literal, vec!["child".to_string()]);
    assert_eq!(args.transform_ril, DEFAULT);
    assert_eq!(args.size_ril, [DEFAULT.to_string(), DEFAULT.to_string()]);
    assert_eq!(args.pascal_identifier, "Main");
    assert_eq!(args.type_id_escaped, "MainIdentifier");
    assert!(args.properties.is_empty());

    let range = flow(
        TYPE_ID_REPEAT,
        None,
        None,
        Some(ControlFlowRepeatSourceDefinition {
            range_expression_paxel: Some("0..5".to_string()),
            symbolic_binding: None,
            vtable_id: Some(8),
        }),
    );
    let args = render_node_args(&context(&m), &range, &host(), Vec::new());
    assert_eq!(args.repeat_source_expression_literal_vec, "None");
    assert_eq!(
        args.repeat_source_expression_literal_range,
        "Some(Box::new(PropertyExpression::new(8)))"
    );
}

#[test]
fn conditions_and_slots_have_their_expressions() {
    let m = manifest(Vec::new());
    let condition = flow(TYPE_ID_IF, Some(11), None, None);
    let args = render_node_args(&context(&m), &condition, &host(), Vec::new());
    assert_eq!(args.primitive_instance_import_path.as_deref(), Some("ConditionalInstance"));
    assert_eq!(
        args.conditional_boolean_expression_literal,
        "Some(Box::new(PropertyExpression::new(11)))"
    );
    assert_eq!(args.slot_index_literal, "None");
    assert_eq!(args.repeat_source_expression_literal_vec, "None");

    let slot = flow(TYPE_ID_SLOT, None, Some(12), None);
    let args = render_node_args(&context(&m), &slot, &host(), Vec::new());
    assert_eq!(args.primitive_instance_import_path.as_deref(), Some("SlotInstance"));
    assert_eq!(args.slot_index_literal, "Some(Box::new(PropertyExpression::new(12)))");
    assert_eq!(args.conditional_boolean_expression_literal, "None");
}

#[test]
fn properties_have_their_settings_or_defaults() {
    let m = manifest(Vec::new());
    let rect = node(
        "Rect",
        Vec::new(),
        Some(vec![
            setting("fill", ValueDefinition::Block(block(vec![setting("r", literal("1"))]))),
            setting("width", literal("100")),
            setting("width", literal("200")),
            setting("transform", ValueDefinition::Expression("t".to_string(), Some(5))),
            setting("click", ValueDefinition::EventBindingTarget("clicked".to_string())),
        ]),
    );
    let args = render_node_args(&context(&m), &rect, &host(), Vec::new());
    assert!(args.is_primitive);
    assert_eq!(args.snake_case_type_id, "Rect_snake");
    assert_eq!(args.primitive_instance_import_path.as_deref(), Some("pax_std::RectInstance"));
    assert_eq!(args.properties_coproduct_variant, "RectEscaped");
    assert_eq!(args.component_properties_struct, "Rect");
    assert_eq!(
        args.properties,
        vec![
            (
                "fill".to_string(),
                "PropertyLiteral::new(\n{ let mut ret = app::pax_reexports::types::Color::default();\
                 \nret.r = Box::new(PropertyLiteral::new(1));\n ret })"
                    .to_string()
            ),
            ("label".to_string(), DEFAULT.to_string()),
        ]
    );
    assert_eq!(
        args.size_ril,
        ["PropertyLiteral::new(100)".to_string(), DEFAULT.to_string()]
    );
    assert_eq!(args.transform_ril, "PropertyExpression::new(5)");
    assert_eq!(args.events.get("click").map(|s| s.as_str()), Some("clicked"));
    assert_eq!(args.pascal_identifier, "Main");

    let bare = node("Rect", Vec::new(), None);
    let args = render_node_args(&context(&m), &bare, &host(), Vec::new());
    assert_eq!(args.properties[0].1, DEFAULT);
    assert!(args.events.entries.is_empty());
}

fn press_node(args: TemplateArgsCodegenCartridgeRenderNodeLiteral) -> String {
    format!("<{}:{}>", args.component_properties_struct, args.children_literal.join("+"))
}

fn press_factory(args: TemplateArgsCodegenCartridgeComponentFactory) -> String {
    format!("{}={}", args.snake_case_type_id, args.render_nodes_literal)
}

#[test]
fn children_are_rendered_before_their_parents() {
    let m = manifest(vec![
        node("ROOT", vec![1, 3], None),
        node("Rect", vec![2, 2], None),
        node("Main", Vec::new(), None),
        flow(TYPE_ID_IF, Some(1), None, None),
    ]);
    let rngc = context(&m);
    let template = rngc.active_component_definition.template.as_ref().unwrap();
    assert_eq!(
        recurse_generate_render_nodes_literal(&rngc, &template[1], &host(), &press_node),
        "<Rect:<Main:>+<Main:>>"
    );
    assert_eq!(
        generate_cartridge_render_nodes_literal(&rngc, &host(), &press_node),
        "<Rect:<Main:>+<Main:>>,<None:>"
    );
}

#[test]
fn factories_are_pressed_from_their_components() {
    let mut m = manifest(vec![node("ROOT", vec![1], None), node("Rect", Vec::new(), None)]);
    m.components.entries[0].1.events =
        Some(vec![EventDefinition { key: "tick".to_string(), value: vec!["f".to_string()] }]);
    let cd = &m.components.entries[0].1;
    let args = component_factory_args(&m, cd, "nodes".to_string());
    assert!(args.is_main_component);
    assert_eq!(args.snake_case_type_id, "Main_snake");
    assert_eq!(args.component_properties_struct, "Main");
    assert_eq!(args.properties.len(), 1);
    assert_eq!(args.properties[0].0.name, "count");
    assert_eq!(args.properties[0].0.type_id, "usize");
    assert_eq!(args.properties[0].1, "usizeVariant");
    assert_eq!(args.events.get("tick"), Some(&vec!["f".to_string()]));
    assert_eq!(args.render_nodes_literal, "nodes");
    assert_eq!(args.properties_coproduct_variant, "MainEscaped");
    assert_eq!(
        generate_cartridge_component_factory_literal(&m, cd, &host(), &press_node, &press_factory),
        "Main_snake=<Rect:>"
    );
}

#[test]
fn what_cannot_be_rendered_is_told() {
    let m = manifest(vec![node("ROOT", vec![1], None), node("Rect", Vec::new(), None)]);
    assert!(is_template_ready(&context(&m)));
    assert!(are_properties_known(&m, &m.components.entries[0].1));
    assert!(are_all_properties_known(&m));
    assert!(are_factories_ready(&m));

    let out_of_range = manifest(vec![node("ROOT", vec![5], None)]);
    assert!(!is_template_ready(&context(&out_of_range)));
    let circular = manifest(vec![node("ROOT", vec![1], None), node("Rect", vec![1], None)]);
    assert!(!is_template_ready(&context(&circular)));
    let unknown = manifest(vec![node("ROOT", vec![1], None), node("Circle", Vec::new(), None)]);
    assert!(!are_factories_ready(&unknown));
    let empty = manifest(Vec::new());
    assert!(!is_template_ready(&context(&empty)));

    let mut untyped = manifest(vec![node("ROOT", Vec::new(), None)]);
    untyped.type_table.entries.pop();
    assert!(!are_properties_known(&untyped, &untyped.components.entries[0].1));
    assert!(!are_all_properties_known(&untyped));
}

#[test]
fn values_that_cannot_be_rendered_are_told() {
    assert!(is_expressible(&literal("1")));
    assert!(!is_expressible(&ValueDefinition::Expression("a".to_string(), None)));
    assert!(!is_expressible(&ValueDefinition::EventBindingTarget("f".to_string())));
    let bad = block(vec![setting("x", ValueDefinition::Identifier("a".to_string(), None))]);
    assert!(!is_expressible_block(&bad));
    assert!(is_expressible_block(&block(Vec::new())));

    let m = manifest(Vec::new());
    let rngc = context(&m);
    assert!(is_node_ready(&rngc, &flow(TYPE_ID_IF, Some(1), None, None)));
    assert!(!is_node_ready(&rngc, &flow(TYPE_ID_IF, None, Some(1), None)));
    assert!(!is_node_ready(&rngc, &flow(TYPE_ID_REPEAT, Some(1), Some(1), None)));
    assert!(!is_node_ready(&rngc, &node(TYPE_ID_SLOT, Vec::new(), None)));
    let wide = node(
        "Rect",
        Vec::new(),
        Some(vec![setting("width", ValueDefinition::Block(block(Vec::new())))]),
    );
    assert!(!is_node_ready(&rngc, &wide));
    let labelled = node("Rect", Vec::new(), Some(vec![setting("label", literal("x"))]));
    assert!(is_tree_ready(&rngc, &labelled, 0));
}
