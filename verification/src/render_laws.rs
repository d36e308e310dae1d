//! What the nodes of a template are rendered from.

use crate::event_laws::{holds_the_last_bindings, lemma_bindings_table};
use crate::events::string_map;
use crate::literal_laws::constructs;
use crate::literals::recurse_literal_block;
use crate::manifest::{
    HostCrateInfo, LiteralBlockDefinition, TemplateNodeDefinition, TypeDefinition, ValueDefinition,
};
use crate::render::{
    a_node_is_rendered_in_one_way, find_setting, generate_cartridge_render_nodes_literal,
    node_setting, press_is_determined, presses, recurse_generate_render_nodes_literal, renders,
    render_node_args, renders_children, renders_template, RenderNodesGenerationContext,
    TemplateArgsCodegenCartridgeRenderNodeLiteral,
};
use crate::text::{decimal, join, optional_text, text_pairs, texts};
use vstd::prelude::*;
use vstd::string::*;

verus! {

/// The `j`-th setting of the node is the first with that name.
pub open spec fn is_first_setting(node: TemplateNodeDefinition, name: Seq<char>, j: int) -> bool {
    &&& node.settings is Some
    &&& 0 <= j < node.settings->0@.len()
    &&& node.settings->0@[j].0@ == name
    &&& forall|k: int| 0 <= k < j ==> (#[trigger] node.settings->0@[k]).0@ != name
}

/// No setting of the node has that name.
pub open spec fn is_unset(node: TemplateNodeDefinition, name: Seq<char>) -> bool {
    node.settings matches Some(list) ==> forall|k: int|
        0 <= k < list@.len() ==> (#[trigger] list@[k]).0@ != name
}

/// `s` is the value that the node gives a property: the one of the first setting
/// with its name, or the default where no setting has it.
pub open spec fn is_given(node: TemplateNodeDefinition, name: Seq<char>, s: Seq<char>) -> bool {
    &&& forall|j: int| #[trigger]
        is_first_setting(node, name, j) ==> constructs(node.settings->0@[j].1, s)
    &&& is_unset(node, name) ==> s == "PropertyLiteral::new(Default::default())"@
}

/// The arguments have the events that the node binds, and the identifiers of the
/// component whose template the node is in.
pub open spec fn names_its_component(
    args: TemplateArgsCodegenCartridgeRenderNodeLiteral,
    rngc: RenderNodesGenerationContext,
    node: TemplateNodeDefinition,
) -> bool {
    &&& args.pascal_identifier@ == rngc.active_component_definition.pascal_identifier@
    &&& args.type_id_escaped@ == rngc.active_component_definition.escaped_identifier@
    &&& args.events.wf()
    &&& node.settings matches Some(list) ==> holds_the_last_bindings(list@, args.events)
    &&& node.settings is None ==> forall|k: Seq<char>| !#[trigger] args.events@.contains_key(k)
}

/// The arguments are those of an instance of a component.
pub open spec fn describes_instance(
    args: TemplateArgsCodegenCartridgeRenderNodeLiteral,
    rngc: RenderNodesGenerationContext,
    node: TemplateNodeDefinition,
) -> bool {
    let component = rngc.components@[node.type_id@];
    let properties = rngc.type_table@[component.type_id@].property_definitions@;
    &&& args.is_primitive == component.is_primitive
    &&& args.snake_case_type_id@ == component.snake_case_id@
    &&& match component.primitive_instance_import_path {
        Some(path) => args.primitive_instance_import_path matches Some(p) && p@ == path@,
        None => args.primitive_instance_import_path is None,
    }
    &&& args.properties_coproduct_variant@ == component.type_id_escaped@
    &&& args.component_properties_struct@ == component.pascal_identifier@
    &&& args.properties@.len() == properties.len()
    &&& forall|i: int|
        0 <= i < properties.len() ==> (#[trigger] args.properties@[i]).0@ == properties[i].name@
            && is_given(node, properties[i].name@, args.properties@[i].1@)
    &&& is_given(node, "width"@, args.size_ril@[0]@)
    &&& is_given(node, "height"@, args.size_ril@[1]@)
    &&& is_given(node, "transform"@, args.transform_ril@)
    &&& args.slot_index_literal@ == "None"@
    &&& args.repeat_source_expression_literal_vec@ == "None"@
    &&& args.repeat_source_expression_literal_range@ == "None"@
    &&& args.conditional_boolean_expression_literal@ == "None"@
}

/// The arguments are those of a node of control flow.
pub open spec fn describes_control_flow(
    args: TemplateArgsCodegenCartridgeRenderNodeLiteral,
    instance: Seq<char>,
) -> bool {
    &&& args.is_primitive
    &&& args.snake_case_type_id@ == "UNREACHABLE"@
    &&& args.primitive_instance_import_path matches Some(p) && p@ == instance
    &&& args.properties_coproduct_variant@ == "None"@
    &&& args.component_properties_struct@ == "None"@
    &&& args.properties@.len() == 0
    &&& args.transform_ril@ == "PropertyLiteral::new(Default::default())"@
    &&& args.size_ril@[0]@ == "PropertyLiteral::new(Default::default())"@
    &&& args.size_ril@[1]@ == "PropertyLiteral::new(Default::default())"@
}

/// `s` is the number of a compiled expression, boxed.
pub open spec fn boxes(id: usize, s: Seq<char>) -> bool {
    s == "Some(Box::new("@ + ("PropertyExpression::new("@ + decimal(id as nat) + ")"@) + "))"@
}

/// The arguments are those of the node.
pub open spec fn describes(
    args: TemplateArgsCodegenCartridgeRenderNodeLiteral,
    rngc: RenderNodesGenerationContext,
    node: TemplateNodeDefinition,
) -> bool {
    &&& names_its_component(args, rngc, node)
    &&& if node.type_id@ == "REPEAT"@ {
        &&& describes_control_flow(args, "RepeatInstance"@)
        &&& args.slot_index_literal@ == "None"@
        &&& args.conditional_boolean_expression_literal@ == "None"@
        &&& node.control_flow_settings is Some
            && node.control_flow_settings->0.repeat_source_definition is Some
            && node.control_flow_settings->0.repeat_source_definition->0.vtable_id is Some ==> {
            let source = node.control_flow_settings->0.repeat_source_definition->0;
            &&& source.symbolic_binding is Some ==> boxes(
                source.vtable_id->0,
                args.repeat_source_expression_literal_vec@,
            )
            &&& source.symbolic_binding is None ==> args.repeat_source_expression_literal_vec@
                == "None"@
            &&& source.range_expression_paxel is Some ==> boxes(
                source.vtable_id->0,
                args.repeat_source_expression_literal_range@,
            )
            &&& source.range_expression_paxel is None
                ==> args.repeat_source_expression_literal_range@ == "None"@
        }
    } else if node.type_id@ == "IF"@ {
        &&& describes_control_flow(args, "ConditionalInstance"@)
        &&& args.slot_index_literal@ == "None"@
        &&& args.repeat_source_expression_literal_vec@ == "None"@
        &&& args.repeat_source_expression_literal_range@ == "None"@
        &&& node.control_flow_settings matches Some(flow)
            ==> flow.condition_expression_vtable_id matches Some(id) ==> boxes(
            id,
            args.conditional_boolean_expression_literal@,
        )
    } else if node.type_id@ == "SLOT"@ {
        &&& describes_control_flow(args, "SlotInstance"@)
        &&& args.conditional_boolean_expression_literal@ == "None"@
        &&& args.repeat_source_expression_literal_vec@ == "None"@
        &&& args.repeat_source_expression_literal_range@ == "None"@
        &&& node.control_flow_settings matches Some(flow)
            ==> flow.slot_index_expression_vtable_id matches Some(id) ==> boxes(
            id,
            args.slot_index_literal@,
        )
    } else {
        describes_instance(args, rngc, node)
    }
}

proof fn lemma_find_first(settings: Seq<(String, ValueDefinition)>, name: Seq<char>, j: int)
    requires
        0 <= j < settings.len(),
        settings[j].0@ == name,
        forall|k: int| 0 <= k < j ==> (#[trigger] settings[k]).0@ != name,
    ensures
        find_setting(settings, name) == Some(settings[j].1),
    decreases settings.len(),
{
    if j > 0 {
        let rest = settings.drop_first();
        assert(settings[0].0@ != name);
        assert(rest[j - 1] == settings[j]);
        assert forall|k: int| 0 <= k < j - 1 implies (#[trigger] rest[k]).0@ != name by {
            assert(rest[k] == settings[k + 1]);
        }
        lemma_find_first(rest, name, j - 1);
    }
}

proof fn lemma_find_none(settings: Seq<(String, ValueDefinition)>, name: Seq<char>)
    requires
        forall|k: int| 0 <= k < settings.len() ==> (#[trigger] settings[k]).0@ != name,
    ensures
        find_setting(settings, name) is None,
    decreases settings.len(),
{
    if settings.len() > 0 {
        let rest = settings.drop_first();
        assert forall|k: int| 0 <= k < rest.len() implies (#[trigger] rest[k]).0@ != name by {
            assert(rest[k] == settings[k + 1]);
        }
        lemma_find_none(rest, name);
    }
}

/// The setting of a node is the first with its name.
pub(crate) proof fn lemma_setting(node: TemplateNodeDefinition, name: Seq<char>)
    ensures
        forall|j: int| #[trigger]
            is_first_setting(node, name, j) ==> node_setting(node, name) == Some(
                node.settings->0@[j].1,
            ),
        is_unset(node, name) ==> node_setting(node, name) is None,
{
    assert forall|j: int| #[trigger] is_first_setting(node, name, j) implies node_setting(
        node,
        name,
    ) == Some(node.settings->0@[j].1) by {
        lemma_find_first(node.settings->0@, name, j);
    }
    if is_unset(node, name) && node.settings is Some {
        lemma_find_none(node.settings->0@, name);
    }
}

proof fn lemma_described(
    args: TemplateArgsCodegenCartridgeRenderNodeLiteral,
    rngc: RenderNodesGenerationContext,
    node: TemplateNodeDefinition,
    import_prefix: Seq<char>,
    children: Seq<Seq<char>>,
)
    requires
        args.events.wf(),
        args@ == rngc.node_args(node, import_prefix, children),
    ensures
        describes(args, rngc, node),
{
    let model = rngc.node_args(node, import_prefix, children);
    assert(args@.events == string_map(args.events));
    assert(names_its_component(args, rngc, node)) by {
        let map = string_map(args.events);
        assert forall|k: Seq<char>| #[trigger]
            args.events@.contains_key(k) <==> map.contains_key(k) by {}
        match node.settings {
            Some(list) => {
                lemma_bindings_table(list@, args.events);
            },
            None => {},
        }
    }
    assert(args@.properties == text_pairs(args.properties@));
    assert(args@.properties.len() == args.properties@.len());
    assert(args@.primitive_instance_import_path == optional_text(
        args.primitive_instance_import_path,
    ));
    if node.type_id@ != "REPEAT"@ && node.type_id@ != "IF"@ && node.type_id@
        != "SLOT"@ {
        let component = rngc.components@[node.type_id@];
        let properties = rngc.type_table@[component.type_id@].property_definitions@;
        assert forall|i: int| 0 <= i < properties.len() implies (
        #[trigger] args.properties@[i]).0@ == properties[i].name@ && is_given(
            node,
            properties[i].name@,
            args.properties@[i].1@,
        ) by {
            lemma_setting(node, properties[i].name@);
            assert(args@.properties[i] == model.properties[i]);
        }
        lemma_setting(node, "width"@);
        lemma_setting(node, "height"@);
        lemma_setting(node, "transform"@);
    }
}

/// A node is pressed from what its template says. An instance has every property
/// of its component, each with the value of the first setting of that name, or
/// the default where there is none; so have the size and the transformation. A
/// node of control flow has the expressions that it repeats, tests or counts by.
/// All have their children in order.
pub proof fn a_node_is_pressed_from_its_settings(
    rngc: &RenderNodesGenerationContext,
    node: &TemplateNodeDefinition,
    host: &HostCrateInfo,
    children: Vec<String>,
    r: TemplateArgsCodegenCartridgeRenderNodeLiteral,
)
    requires
        call_ensures(render_node_args, (rngc, node, host, children), r),
    ensures
        describes(r, *rngc, *node),
        r.children_literal@.len() == children@.len(),
        forall|i: int|
            0 <= i < children@.len() ==> (#[trigger] r.children_literal@[i])@ == children@[i]@,
{
    lemma_described(r, *rngc, *node, host.import_prefix@, texts(children@));
    assert(r@.children_literal == texts(r.children_literal@));
    assert(r@.children_literal == texts(children@));
    assert(texts(r.children_literal@).len() == texts(children@).len());
    assert forall|i: int| 0 <= i < children@.len() implies (#[trigger] r.children_literal@[i])@
        == children@[i]@ by {
        assert(texts(r.children_literal@)[i] == texts(children@)[i]);
    }
}

/// A property that is set is pressed with the value of its first setting, one
/// that is not with the default.
pub proof fn a_property_has_the_value_of_its_first_setting(
    rngc: &RenderNodesGenerationContext,
    node: &TemplateNodeDefinition,
    host: &HostCrateInfo,
    children: Vec<String>,
    r: TemplateArgsCodegenCartridgeRenderNodeLiteral,
    i: int,
    j: int,
)
    requires
        call_ensures(render_node_args, (rngc, node, host, children), r),
        node.type_id@ != "REPEAT"@,
        node.type_id@ != "IF"@,
        node.type_id@ != "SLOT"@,
        0 <= i,
        i < rngc.type_table@[rngc.components@[node.type_id@].type_id@].property_definitions@.len(),
    ensures
        ({
            let property =
                rngc.type_table@[rngc.components@[node.type_id@].type_id@].property_definitions@[i];
            let pressed = r.properties@[i];
            &&& i < r.properties@.len()
            &&& pressed.0@ == property.name@
            &&& is_first_setting(*node, property.name@, j) ==> {
                match node.settings->0@[j].1 {
                    ValueDefinition::LiteralValue(s) => pressed.1@ == "PropertyLiteral::new("@ + s@
                        + ")"@,
                    ValueDefinition::Expression(_, Some(id)) => pressed.1@
                        == "PropertyExpression::new("@ + decimal(id as nat) + ")"@,
                    ValueDefinition::Identifier(_, Some(id)) => pressed.1@
                        == "PropertyExpression::new("@ + decimal(id as nat) + ")"@,
                    _ => true,
                }
            }
            &&& is_unset(*node, property.name@) ==> pressed.1@
                == "PropertyLiteral::new(Default::default())"@
        }),
{
    a_node_is_pressed_from_its_settings(rngc, node, host, children, r);
    assert(describes_instance(r, *rngc, *node));
    let name =
        rngc.type_table@[rngc.components@[node.type_id@].type_id@].property_definitions@[i].name@;
    assert(r.properties@[i].0@ == name);
    assert(is_given(*node, name, r.properties@[i].1@));
}

/// A property that a block sets is the literal of what the block becomes as a
/// value of the property's type.
pub proof fn a_block_is_a_value_of_the_property_s_type(
    rngc: &RenderNodesGenerationContext,
    node: &TemplateNodeDefinition,
    host: &HostCrateInfo,
    children: Vec<String>,
    r: TemplateArgsCodegenCartridgeRenderNodeLiteral,
    i: int,
    j: int,
    block: &LiteralBlockDefinition,
    t: &TypeDefinition,
    s: String,
)
    requires
        call_ensures(render_node_args, (rngc, node, host, children), r),
        node.type_id@ != "REPEAT"@,
        node.type_id@ != "IF"@,
        node.type_id@ != "SLOT"@,
        0 <= i,
        i < rngc.type_table@[rngc.components@[node.type_id@].type_id@].property_definitions@.len(),
        ({
            let property =
                rngc.type_table@[rngc.components@[node.type_id@].type_id@].property_definitions@[i];
            &&& is_first_setting(*node, property.name@, j)
            &&& node.settings->0@[j].1 == ValueDefinition::Block(*block)
            &&& *t == rngc.type_table@[property.type_id@]
        }),
        call_ensures(recurse_literal_block, (block, t, host), s),
    ensures
        i < r.properties@.len(),
        r.properties@[i].1@ == "PropertyLiteral::new("@ + s@ + ")"@,
{
    let property =
        rngc.type_table@[rngc.components@[node.type_id@].type_id@].property_definitions@[i];
    lemma_setting(*node, property.name@);
    let model = rngc.node_args(*node, host.import_prefix@, texts(children@));
    assert(r@.properties == text_pairs(r.properties@));
    assert(r@.properties[i] == model.properties[i]);
}

/// To press is to call the press.
pub proof fn pressing_is_calling<A, F: Fn(A) -> String>(press: F, args: A, r: String)
    ensures
        presses(press, args, r) <==> call_ensures(press, (args,), r),
{
}

proof fn lemma_more_levels<F: Fn(TemplateArgsCodegenCartridgeRenderNodeLiteral) -> String>(
    press: F,
    rngc: RenderNodesGenerationContext,
    node: TemplateNodeDefinition,
    import_prefix: Seq<char>,
    n: nat,
    m: nat,
    s: Seq<char>,
)
    requires
        renders(press, rngc, node, import_prefix, n, s),
        n <= m,
    ensures
        renders(press, rngc, node, import_prefix, m, s),
    decreases n,
{
    let (a, r) = choose|a: TemplateArgsCodegenCartridgeRenderNodeLiteral, r: String|
        {
            &&& #[trigger] presses(press, a, r)
            &&& r@ == s
            &&& a.events.wf()
            &&& a@ == rngc.node_args(node, import_prefix, texts(a.children_literal@))
            &&& renders_children(press, rngc, node, import_prefix, n, texts(a.children_literal@))
        };
    let children = texts(a.children_literal@);
    assert forall|i: int| 0 <= i < node.child_ids.len() && m > 0 implies renders(
        press,
        rngc,
        rngc.template()[node.child_ids[i] as int],
        import_prefix,
        (m - 1) as nat,
        #[trigger] children[i],
    ) by {
        lemma_more_levels(
            press,
            rngc,
            rngc.template()[node.child_ids[i] as int],
            import_prefix,
            (n - 1) as nat,
            (m - 1) as nat,
            children[i],
        );
    }
    assert(renders_children(press, rngc, node, import_prefix, m, children));
}

/// The text of a node is what the press makes of the node's arguments, and among
/// these are the texts of its children, in the order of the children.
pub proof fn a_node_holds_its_children<
    F: Fn(TemplateArgsCodegenCartridgeRenderNodeLiteral) -> String,
>(
    rngc: &RenderNodesGenerationContext,
    node: &TemplateNodeDefinition,
    host: &HostCrateInfo,
    press: &F,
    r: String,
    children: Seq<String>,
)
    requires
        press_is_determined(*press),
        call_ensures(
            recurse_generate_render_nodes_literal::<F>,
            (rngc, node, host, press),
            r,
        ),
        rngc.active_component_definition.template is Some,
        children.len() == node.child_ids@.len(),
        forall|i: int|
            0 <= i < children.len() ==> call_ensures(
                recurse_generate_render_nodes_literal::<F>,
                (
                    rngc,
                    &rngc.active_component_definition.template->0@[node.child_ids@[i] as int],
                    host,
                    press,
                ),
                #[trigger] children[i],
            ),
    ensures
        exists|args: TemplateArgsCodegenCartridgeRenderNodeLiteral, q: String|
            {
                &&& #[trigger] presses(*press, args, q)
                &&& q@ == r@
                &&& describes(args, *rngc, *node)
                &&& args.children_literal@.len() == children.len()
                &&& forall|i: int|
                    0 <= i < children.len() ==> (#[trigger] args.children_literal@[i])@
                        == children[i]@
            },
{
    let prefix = host.import_prefix@;
    let n = rngc.template().len();
    assert(renders(*press, *rngc, *node, prefix, n, r@));
    let (args, q) = choose|args: TemplateArgsCodegenCartridgeRenderNodeLiteral, q: String|
        {
            &&& #[trigger] presses(*press, args, q)
            &&& q@ == r@
            &&& args.events.wf()
            &&& args@ == rngc.node_args(*node, prefix, texts(args.children_literal@))
            &&& renders_children(*press, *rngc, *node, prefix, n, texts(args.children_literal@))
        };
    let found = texts(args.children_literal@);
    lemma_described(args, *rngc, *node, prefix, found);
    assert(found.len() == node.child_ids.len());
    assert forall|i: int| 0 <= i < children.len() implies (#[trigger] args.children_literal@[i])@
        == children[i]@ by {
        let child = rngc.template()[node.child_ids@[i] as int];
        assert(call_ensures(
            recurse_generate_render_nodes_literal::<F>,
            (rngc, &child, host, press),
            children[i],
        ));
        assert(renders(*press, *rngc, child, prefix, (n - 1) as nat, found[i]));
        lemma_more_levels(*press, *rngc, child, prefix, (n - 1) as nat, n, found[i]);
        a_node_is_rendered_in_one_way(*press, *rngc, child, prefix, n, found[i], children[i]@);
        assert(found[i] == args.children_literal@[i]@);
    }
}

/// The text of a node is what the press makes of its arguments, with one text for
/// each child.
pub proof fn a_node_is_pressed<F: Fn(TemplateArgsCodegenCartridgeRenderNodeLiteral) -> String>(
    rngc: &RenderNodesGenerationContext,
    node: &TemplateNodeDefinition,
    host: &HostCrateInfo,
    press: &F,
    r: String,
)
    requires
        call_ensures(
            recurse_generate_render_nodes_literal::<F>,
            (rngc, node, host, press),
            r,
        ),
    ensures
        exists|args: TemplateArgsCodegenCartridgeRenderNodeLiteral, q: String|
            {
                &&& #[trigger] presses(*press, args, q)
                &&& q@ == r@
                &&& describes(args, *rngc, *node)
                &&& args.children_literal@.len() == node.child_ids@.len()
            },
{
    let prefix = host.import_prefix@;
    let n = rngc.template().len();
    let (args, q) = choose|args: TemplateArgsCodegenCartridgeRenderNodeLiteral, q: String|
        {
            &&& #[trigger] presses(*press, args, q)
            &&& q@ == r@
            &&& args.events.wf()
            &&& args@ == rngc.node_args(*node, prefix, texts(args.children_literal@))
            &&& renders_children(*press, *rngc, *node, prefix, n, texts(args.children_literal@))
        };
    lemma_described(args, *rngc, *node, prefix, texts(args.children_literal@));
    assert(texts(args.children_literal@).len() == args.children_literal@.len());
}

/// The text of a template is that of the children of its first node, in order,
/// with commas between them.
pub proof fn a_template_is_its_root_s_children<
    F: Fn(TemplateArgsCodegenCartridgeRenderNodeLiteral) -> String,
>(
    rngc: &RenderNodesGenerationContext,
    host: &HostCrateInfo,
    press: &F,
    r: String,
    nodes: Seq<TemplateNodeDefinition>,
    children: Seq<String>,
)
    requires
        press_is_determined(*press),
        call_ensures(generate_cartridge_render_nodes_literal::<F>, (rngc, host, press), r),
        rngc.active_component_definition.template matches Some(list) && list@ == nodes,
        nodes.len() > 0,
        children.len() == nodes[0].child_ids@.len(),
        forall|i: int|
            0 <= i < children.len() ==> call_ensures(
                recurse_generate_render_nodes_literal::<F>,
                (rngc, &nodes[nodes[0].child_ids@[i] as int], host, press),
                #[trigger] children[i],
            ),
    ensures
        r@ == join(Seq::new(children.len(), |i: int| children[i]@), ","@),
{
    let prefix = host.import_prefix@;
    let n = rngc.template().len();
    let root = rngc.template()[0];
    assert(rngc.template() == nodes);
    let parts = choose|parts: Seq<Seq<char>>|
        {
            &&& r@ == #[trigger] join(parts, ","@)
            &&& parts.len() == root.child_ids.len()
            &&& forall|k: int|
                0 <= k < root.child_ids.len() ==> renders(
                    *press,
                    *rngc,
                    rngc.template()[(#[trigger] root.child_ids[k]) as int],
                    prefix,
                    n,
                    parts[k],
                )
        };
    assert forall|i: int| 0 <= i < children.len() implies #[trigger] parts[i] == children[i]@ by {
        let child = nodes[root.child_ids[i] as int];
        assert(call_ensures(
            recurse_generate_render_nodes_literal::<F>,
            (rngc, &child, host, press),
            children[i],
        ));
        assert(renders(*press, *rngc, child, prefix, n, parts[i]));
        a_node_is_rendered_in_one_way(*press, *rngc, child, prefix, n, parts[i], children[i]@);
    }
    assert(parts =~= Seq::new(children.len(), |i: int| children[i]@));
}

/// The text of a template whose first node has no children is empty.
pub proof fn a_template_without_nodes_is_empty<
    F: Fn(TemplateArgsCodegenCartridgeRenderNodeLiteral) -> String,
>(rngc: &RenderNodesGenerationContext, host: &HostCrateInfo, press: &F, r: String)
    requires
        call_ensures(generate_cartridge_render_nodes_literal::<F>, (rngc, host, press), r),
        rngc.active_component_definition.template is Some,
        rngc.active_component_definition.template->0@.len() > 0,
        rngc.active_component_definition.template->0@[0].child_ids@.len() == 0,
    ensures
        r@.len() == 0,
{
    assert(renders_template(*press, *rngc, host.import_prefix@, r@));
}

} // verus!
