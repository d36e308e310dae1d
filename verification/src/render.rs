//! The nodes of a component's template as Rust expressions.

use crate::events::{generate_bound_events, node_events, string_map};
use crate::literals::{
    expressible, property_expression, property_expression_text, property_literal_text,
    qualified_path, recurse_literal_block, value_literal, value_text,
};
use crate::manifest::{
    ComponentDefinition, ControlFlowRepeatSourceDefinition, HostCrateInfo, PropertyDefinition,
    TemplateNodeDefinition, TypeDefinition, TypeTable, ValueDefinition, TYPE_ID_IF,
    TYPE_ID_REPEAT, TYPE_ID_SLOT,
};
use crate::table::StringTable;
use crate::text::{join, join_texts, optional_text, same_text, text_pairs, texts};
use vstd::prelude::*;
use vstd::string::*;

verus! {

/// What the nodes of a template are rendered with.
pub struct RenderNodesGenerationContext<'a> {
    pub components: &'a StringTable<ComponentDefinition>,
    pub active_component_definition: &'a ComponentDefinition,
    pub type_table: &'a TypeTable,
}

/// What the expression of one node is pressed from.
#[derive(Debug)]
pub struct TemplateArgsCodegenCartridgeRenderNodeLiteral {
    pub is_primitive: bool,
    pub snake_case_type_id: String,
    pub primitive_instance_import_path: Option<String>,
    pub properties_coproduct_variant: String,
    pub component_properties_struct: String,
    pub properties: Vec<(String, String)>,
    pub transform_ril: String,
    pub size_ril: [String; 2],
    pub children_literal: Vec<String>,
    pub slot_index_literal: String,
    pub repeat_source_expression_literal_vec: String,
    pub repeat_source_expression_literal_range: String,
    pub conditional_boolean_expression_literal: String,
    pub pascal_identifier: String,
    pub type_id_escaped: String,
    pub events: StringTable<String>,
}

/// The same as mathematical values.
#[verifier::ext_equal]
pub struct RenderNodeArgs {
    pub is_primitive: bool,
    pub snake_case_type_id: Seq<char>,
    pub primitive_instance_import_path: Option<Seq<char>>,
    pub properties_coproduct_variant: Seq<char>,
    pub component_properties_struct: Seq<char>,
    pub properties: Seq<(Seq<char>, Seq<char>)>,
    pub transform_ril: Seq<char>,
    pub width_ril: Seq<char>,
    pub height_ril: Seq<char>,
    pub children_literal: Seq<Seq<char>>,
    pub slot_index_literal: Seq<char>,
    pub repeat_source_expression_literal_vec: Seq<char>,
    pub repeat_source_expression_literal_range: Seq<char>,
    pub conditional_boolean_expression_literal: Seq<char>,
    pub pascal_identifier: Seq<char>,
    pub type_id_escaped: Seq<char>,
    pub events: Map<Seq<char>, Seq<char>>,
}

impl View for TemplateArgsCodegenCartridgeRenderNodeLiteral {
    type V = RenderNodeArgs;

    open spec fn view(&self) -> RenderNodeArgs {
        RenderNodeArgs {
            is_primitive: self.is_primitive,
            snake_case_type_id: self.snake_case_type_id@,
            primitive_instance_import_path: optional_text(self.primitive_instance_import_path),
            properties_coproduct_variant: self.properties_coproduct_variant@,
            component_properties_struct: self.component_properties_struct@,
            properties: text_pairs(self.properties@),
            transform_ril: self.transform_ril@,
            width_ril: self.size_ril@[0]@,
            height_ril: self.size_ril@[1]@,
            children_literal: texts(self.children_literal@),
            slot_index_literal: self.slot_index_literal@,
            repeat_source_expression_literal_vec: self.repeat_source_expression_literal_vec@,
            repeat_source_expression_literal_range: self.repeat_source_expression_literal_range@,
            conditional_boolean_expression_literal: self.conditional_boolean_expression_literal@,
            pascal_identifier: self.pascal_identifier@,
            type_id_escaped: self.type_id_escaped@,
            events: string_map(self.events),
        }
    }
}

/// The value of a property that no setting gives one.
pub open spec fn default_property() -> Seq<char> {
    "PropertyLiteral::new(Default::default())"@
}

/// The first setting with the given name.
pub open spec fn find_setting(settings: Seq<(String, ValueDefinition)>, name: Seq<char>) -> Option<
    ValueDefinition,
>
    decreases settings.len(),
{
    if settings.len() == 0 {
        None
    } else if settings[0].0@ == name {
        Some(settings[0].1)
    } else {
        find_setting(settings.drop_first(), name)
    }
}

/// The setting of the node with the given name.
pub open spec fn node_setting(node: TemplateNodeDefinition, name: Seq<char>) -> Option<
    ValueDefinition,
> {
    match node.settings {
        Some(settings) => find_setting(settings@, name),
        None => None,
    }
}

/// The value of a property of the node: the one that a setting gives it, or
/// the default.
pub open spec fn node_property(
    node: TemplateNodeDefinition,
    property: PropertyDefinition,
    types: Map<Seq<char>, TypeDefinition>,
    import_prefix: Seq<char>,
) -> Seq<char> {
    match node_setting(node, property.name@) {
        Some(value) => value_literal(
            value,
            qualified_path(import_prefix, types[property.type_id@].import_path@),
        ),
        None => default_property(),
    }
}

/// The value of a property that every node has.
pub open spec fn common_property(node: TemplateNodeDefinition, name: Seq<char>) -> Seq<char> {
    match node_setting(node, name) {
        Some(value) => value_literal(value, Seq::empty()),
        None => default_property(),
    }
}

/// The optional compiled expression `id`.
pub open spec fn some_expression(id: nat) -> Seq<char> {
    "Some(Box::new("@ + property_expression(id) + "))"@
}

impl<'a> RenderNodesGenerationContext<'a> {
    /// No type and no component occurs twice.
    pub open spec fn wf(self) -> bool {
        self.components.wf() && self.type_table.wf()
    }

    /// The nodes of the template.
    pub open spec fn template(self) -> Seq<TemplateNodeDefinition> {
        match self.active_component_definition.template {
            Some(template) => template@,
            None => Seq::empty(),
        }
    }

    /// The properties of the component that the node is an instance of.
    pub open spec fn node_properties(self, node: TemplateNodeDefinition) -> Seq<
        PropertyDefinition,
    > {
        self.type_table@[self.components@[node.type_id@].type_id@].property_definitions@
    }

    /// A setting of the property can be rendered.
    pub open spec fn property_ready(
        self,
        node: TemplateNodeDefinition,
        property: PropertyDefinition,
    ) -> bool {
        node_setting(node, property.name@) matches Some(value) ==> {
            &&& expressible(value)
            &&& value is Block ==> self.type_table@.contains_key(property.type_id@)
        }
    }

    /// All that rendering the node looks up is there: for a node of control
    /// flow the number of its expression; for any other its component, the
    /// properties of that and values that can be rendered.
    pub open spec fn node_ready(self, node: TemplateNodeDefinition) -> bool {
        if node.type_id@ == TYPE_ID_REPEAT@ {
            &&& node.control_flow_settings matches Some(flow)
            &&& flow.repeat_source_definition matches Some(source)
            &&& source.vtable_id is Some
        } else if node.type_id@ == TYPE_ID_IF@ {
            &&& node.control_flow_settings matches Some(flow)
            &&& flow.condition_expression_vtable_id is Some
        } else if node.type_id@ == TYPE_ID_SLOT@ {
            &&& node.control_flow_settings matches Some(flow)
            &&& flow.slot_index_expression_vtable_id is Some
        } else {
            &&& self.components@.contains_key(node.type_id@)
            &&& self.type_table@.contains_key(self.components@[node.type_id@].type_id@)
            &&& forall|i: int|
                0 <= i < self.node_properties(node).len() ==> self.property_ready(
                    node,
                    #[trigger] self.node_properties(node)[i],
                )
            &&& common_ready(node, "width"@)
            &&& common_ready(node, "height"@)
            &&& common_ready(node, "transform"@)
        }
    }

    /// The node and all below, at most `n` levels, can be rendered.
    pub open spec fn tree_ready(self, node: TemplateNodeDefinition, n: nat) -> bool
        decreases n,
    {
        &&& self.node_ready(node)
        &&& node.child_ids.len() > 0 ==> n > 0
        &&& forall|i: int|
            0 <= i < node.child_ids.len() && n > 0 ==> (#[trigger] node.child_ids[i])
                < self.template().len() && self.tree_ready(
                self.template()[node.child_ids[i] as int],
                (n - 1) as nat,
            )
    }

    /// What a node of control flow is pressed from.
    pub open spec fn control_flow_args(
        self,
        node: TemplateNodeDefinition,
        children: Seq<Seq<char>>,
        instance: Seq<char>,
        slot_index: Seq<char>,
        repeat_vec: Seq<char>,
        repeat_range: Seq<char>,
        condition: Seq<char>,
    ) -> RenderNodeArgs {
        RenderNodeArgs {
            is_primitive: true,
            snake_case_type_id: "UNREACHABLE"@,
            primitive_instance_import_path: Some(instance),
            properties_coproduct_variant: "None"@,
            component_properties_struct: "None"@,
            properties: Seq::empty(),
            transform_ril: default_property(),
            width_ril: default_property(),
            height_ril: default_property(),
            children_literal: children,
            slot_index_literal: slot_index,
            repeat_source_expression_literal_vec: repeat_vec,
            repeat_source_expression_literal_range: repeat_range,
            conditional_boolean_expression_literal: condition,
            pascal_identifier: self.active_component_definition.pascal_identifier@,
            type_id_escaped: self.active_component_definition.escaped_identifier@,
            events: node_events(node.settings),
        }
    }

    /// What a node is pressed from, given the expressions of its children.
    pub open spec fn node_args(
        self,
        node: TemplateNodeDefinition,
        import_prefix: Seq<char>,
        children: Seq<Seq<char>>,
    ) -> RenderNodeArgs {
        let none = "None"@;
        if node.type_id@ == TYPE_ID_REPEAT@ {
            let source = node.control_flow_settings.unwrap().repeat_source_definition.unwrap();
            let expression = some_expression(source.vtable_id.unwrap() as nat);
            self.control_flow_args(
                node,
                children,
                "RepeatInstance"@,
                none,
                if source.symbolic_binding is Some {
                    expression
                } else {
                    none
                },
                if source.range_expression_paxel is Some {
                    expression
                } else {
                    none
                },
                none,
            )
        } else if node.type_id@ == TYPE_ID_IF@ {
            let id = node.control_flow_settings.unwrap().condition_expression_vtable_id.unwrap();
            self.control_flow_args(
                node,
                children,
                "ConditionalInstance"@,
                none,
                none,
                none,
                some_expression(id as nat),
            )
        } else if node.type_id@ == TYPE_ID_SLOT@ {
            let id = node.control_flow_settings.unwrap().slot_index_expression_vtable_id.unwrap();
            self.control_flow_args(
                node,
                children,
                "SlotInstance"@,
                some_expression(id as nat),
                none,
                none,
                none,
            )
        } else {
            let component = self.components@[node.type_id@];
            RenderNodeArgs {
                is_primitive: component.is_primitive,
                snake_case_type_id: component.snake_case_id@,
                primitive_instance_import_path: optional_text(
                    component.primitive_instance_import_path,
                ),
                properties_coproduct_variant: component.type_id_escaped@,
                component_properties_struct: component.pascal_identifier@,
                properties: self.node_properties(node).map_values(
                    |p: PropertyDefinition|
                        (p.name@, node_property(node, p, self.type_table@, import_prefix)),
                ),
                transform_ril: common_property(node, "transform"@),
                width_ril: common_property(node, "width"@),
                height_ril: common_property(node, "height"@),
                children_literal: children,
                slot_index_literal: none,
                repeat_source_expression_literal_vec: none,
                repeat_source_expression_literal_range: none,
                conditional_boolean_expression_literal: none,
                pascal_identifier: self.active_component_definition.pascal_identifier@,
                type_id_escaped: self.active_component_definition.escaped_identifier@,
                events: node_events(node.settings),
            }
        }
    }
}

/// A setting of a property that every node has can be rendered. It is no
/// block.
pub open spec fn common_ready(node: TemplateNodeDefinition, name: Seq<char>) -> bool {
    node_setting(node, name) matches Some(value) ==> expressible(value) && !(value is Block)
}

/// The setting of the node with the given name.
pub(crate) fn find_node_setting<'a>(node: &'a TemplateNodeDefinition, name: &str) -> (r: Option<
    &'a ValueDefinition,
>)
    ensures
        match r {
            Some(value) => node_setting(*node, name@) == Some(*value),
            None => node_setting(*node, name@) is None,
        },
{
    match &node.settings {
        Some(settings) => {
            let mut i: usize = 0;
            assert(settings@.skip(0) =~= settings@);
            while i < settings.len()
                invariant
                    node.settings == Some(*settings),
                    i <= settings.len(),
                    find_setting(settings@, name@) == find_setting(settings@.skip(i as int), name@),
                decreases settings.len() - i,
            {
                if same_text(settings[i].0.as_str(), name) {
                    return Some(&settings[i].1);
                }
                assert(settings@.skip(i as int).drop_first() =~= settings@.skip(i + 1));
                i += 1;
            }
            None
        },
        None => None,
    }
}

/// The value of a property of the node.
fn node_property_text(
    rngc: &RenderNodesGenerationContext,
    node: &TemplateNodeDefinition,
    property: &PropertyDefinition,
    host_crate_info: &HostCrateInfo,
) -> (r: String)
    requires
        rngc.wf(),
        rngc.property_ready(*node, *property),
    ensures
        r@ == node_property(
            *node,
            *property,
            rngc.type_table@,
            host_crate_info.import_prefix@,
        ),
{
    match find_node_setting(node, property.name.as_str()) {
        Some(value) => match value {
            ValueDefinition::Block(block) => {
                let literal: String = recurse_literal_block(
                    block,
                    property.get_type_definition(rngc.type_table),
                    host_crate_info,
                );
                property_literal_text(literal.as_str())
            },
            _ => value_text(value, ""),
        },
        None => String::from_str("PropertyLiteral::new(Default::default())"),
    }
}

/// The value of a property that every node has.
fn common_property_text(node: &TemplateNodeDefinition, name: &str) -> (r: String)
    requires
        common_ready(*node, name@),
    ensures
        r@ == common_property(*node, name@),
{
    match find_node_setting(node, name) {
        Some(value) => value_text(value, ""),
        None => String::from_str("PropertyLiteral::new(Default::default())"),
    }
}

/// The optional compiled expression `id`.
fn some_expression_text(id: usize) -> (r: String)
    ensures
        r@ == some_expression(id as nat),
{
    String::from_str("Some(Box::new(").concat(property_expression_text(id).as_str()).concat("))")
}

fn copy_of(s: &Option<String>) -> (r: Option<String>)
    ensures
        optional_text(r) == optional_text(*s),
{
    match s {
        Some(s) => Some(s.clone()),
        None => None,
    }
}

/// What a node of control flow is pressed from.
fn control_flow_node(
    rngc: &RenderNodesGenerationContext,
    node: &TemplateNodeDefinition,
    children_literal: Vec<String>,
    instance: &str,
    slot_index: String,
    repeat_vec: String,
    repeat_range: String,
    condition: String,
) -> (r: TemplateArgsCodegenCartridgeRenderNodeLiteral)
    ensures
        r.events.wf(),
        r@ == rngc.control_flow_args(
            *node,
            texts(children_literal@),
            instance@,
            slot_index@,
            repeat_vec@,
            repeat_range@,
            condition@,
        ),
{
    let r: TemplateArgsCodegenCartridgeRenderNodeLiteral =
        TemplateArgsCodegenCartridgeRenderNodeLiteral {
        is_primitive: true,
        snake_case_type_id: String::from_str("UNREACHABLE"),
        primitive_instance_import_path: Some(String::from_str(instance)),
        properties_coproduct_variant: String::from_str("None"),
        component_properties_struct: String::from_str("None"),
        properties: Vec::new(),
        transform_ril: String::from_str("PropertyLiteral::new(Default::default())"),
        size_ril: [
            String::from_str("PropertyLiteral::new(Default::default())"),
            String::from_str("PropertyLiteral::new(Default::default())"),
        ],
        children_literal,
        slot_index_literal: slot_index,
        repeat_source_expression_literal_vec: repeat_vec,
        repeat_source_expression_literal_range: repeat_range,
        conditional_boolean_expression_literal: condition,
        pascal_identifier: rngc.active_component_definition.pascal_identifier.clone(),
        type_id_escaped: rngc.active_component_definition.escaped_identifier.clone(),
        events: generate_bound_events(&node.settings),
    };
    assert(r@.properties =~= Seq::empty());
    r
}

/// What an instance of a component is pressed from.
fn component_node(
    rngc: &RenderNodesGenerationContext,
    node: &TemplateNodeDefinition,
    host_crate_info: &HostCrateInfo,
    children_literal: Vec<String>,
) -> (r: TemplateArgsCodegenCartridgeRenderNodeLiteral)
    requires
        rngc.wf(),
        rngc.node_ready(*node),
        node.type_id@ != TYPE_ID_REPEAT@,
        node.type_id@ != TYPE_ID_IF@,
        node.type_id@ != TYPE_ID_SLOT@,
    ensures
        r.events.wf(),
        r@ == rngc.node_args(
            *node,
            host_crate_info.import_prefix@,
            texts(children_literal@),
        ),
{
    let component: &ComponentDefinition = rngc.components.get(node.type_id.as_str()).unwrap();
    let definitions: &Vec<PropertyDefinition> = component.get_property_definitions(
        rngc.type_table,
    );
    let mut properties: Vec<(String, String)> = Vec::new();
    let mut i: usize = 0;
    while i < definitions.len()
        invariant
            rngc.wf(),
            rngc.node_ready(*node),
            node.type_id@ != TYPE_ID_REPEAT@,
            node.type_id@ != TYPE_ID_IF@,
            node.type_id@ != TYPE_ID_SLOT@,
            definitions@ == rngc.node_properties(*node),
            i <= definitions.len(),
            properties.len() == i,
            forall|j: int|
                0 <= j < i ==> (#[trigger] properties@[j]).0@ == definitions@[j].name@
                    && properties@[j].1@ == node_property(
                    *node,
                    definitions@[j],
                    rngc.type_table@,
                    host_crate_info.import_prefix@,
                ),
        decreases definitions.len() - i,
    {
        let value: String = node_property_text(rngc, node, &definitions[i], host_crate_info);
        properties.push((definitions[i].name.clone(), value));
        i += 1;
    }
    let r: TemplateArgsCodegenCartridgeRenderNodeLiteral =
        TemplateArgsCodegenCartridgeRenderNodeLiteral {
        is_primitive: component.is_primitive,
        snake_case_type_id: component.snake_case_id.clone(),
        primitive_instance_import_path: copy_of(&component.primitive_instance_import_path),
        properties_coproduct_variant: component.type_id_escaped.clone(),
        component_properties_struct: component.pascal_identifier.clone(),
        properties,
        transform_ril: common_property_text(node, "transform"),
        size_ril: [common_property_text(node, "width"), common_property_text(node, "height")],
        children_literal,
        slot_index_literal: String::from_str("None"),
        repeat_source_expression_literal_vec: String::from_str("None"),
        repeat_source_expression_literal_range: String::from_str("None"),
        conditional_boolean_expression_literal: String::from_str("None"),
        pascal_identifier: rngc.active_component_definition.pascal_identifier.clone(),
        type_id_escaped: rngc.active_component_definition.escaped_identifier.clone(),
        events: generate_bound_events(&node.settings),
    };
    assert(r@.properties =~= rngc.node_args(
        *node,
        host_crate_info.import_prefix@,
        texts(children_literal@),
    ).properties);
    r
}

/// What a node is pressed from, given the expressions of its children.
pub fn render_node_args(
    rngc: &RenderNodesGenerationContext,
    tnd: &TemplateNodeDefinition,
    host_crate_info: &HostCrateInfo,
    children_literal: Vec<String>,
) -> (r: TemplateArgsCodegenCartridgeRenderNodeLiteral)
    requires
        rngc.wf(),
        rngc.node_ready(*tnd),
    ensures
        r.events.wf(),
        r@ == rngc.node_args(*tnd, host_crate_info.import_prefix@, texts(children_literal@)),
{
    if same_text(tnd.type_id.as_str(), TYPE_ID_REPEAT) {
        let flow = tnd.control_flow_settings.as_ref().unwrap();
        let source: &ControlFlowRepeatSourceDefinition =
            flow.repeat_source_definition.as_ref().unwrap();
        let id: usize = source.vtable_id.unwrap();
        let repeat_vec: String = if source.symbolic_binding.is_some() {
            some_expression_text(id)
        } else {
            String::from_str("None")
        };
        let repeat_range: String = if source.range_expression_paxel.is_some() {
            some_expression_text(id)
        } else {
            String::from_str("None")
        };
        control_flow_node(
            rngc,
            tnd,
            children_literal,
            "RepeatInstance",
            String::from_str("None"),
            repeat_vec,
            repeat_range,
            String::from_str("None"),
        )
    } else if same_text(tnd.type_id.as_str(), TYPE_ID_IF) {
        let flow = tnd.control_flow_settings.as_ref().unwrap();
        let id: usize = flow.condition_expression_vtable_id.unwrap();
        control_flow_node(
            rngc,
            tnd,
            children_literal,
            "ConditionalInstance",
            String::from_str("None"),
            String::from_str("None"),
            String::from_str("None"),
            some_expression_text(id),
        )
    } else if same_text(tnd.type_id.as_str(), TYPE_ID_SLOT) {
        let flow = tnd.control_flow_settings.as_ref().unwrap();
        let id: usize = flow.slot_index_expression_vtable_id.unwrap();
        control_flow_node(
            rngc,
            tnd,
            children_literal,
            "SlotInstance",
            some_expression_text(id),
            String::from_str("None"),
            String::from_str("None"),
            String::from_str("None"),
        )
    } else {
        component_node(rngc, tnd, host_crate_info, children_literal)
    }
}

/// `press` may make `r` of `args`.
pub open spec fn presses<A, F: Fn(A) -> String>(press: F, args: A, r: String) -> bool {
    call_ensures(press, (args,), r)
}

/// `s` is what `press` makes of the node, given what it makes of the nodes
/// below, at most `n` levels.
pub open spec fn renders<F: Fn(TemplateArgsCodegenCartridgeRenderNodeLiteral) -> String>(
    press: F,
    rngc: RenderNodesGenerationContext,
    node: TemplateNodeDefinition,
    import_prefix: Seq<char>,
    n: nat,
    s: Seq<char>,
) -> bool
    decreases n, 1nat,
{
    exists|args: TemplateArgsCodegenCartridgeRenderNodeLiteral, r: String|
        {
            &&& #[trigger] presses(press, args, r)
            &&& r@ == s
            &&& args.events.wf()
            &&& args@ == rngc.node_args(node, import_prefix, texts(args.children_literal@))
            &&& renders_children(
                press,
                rngc,
                node,
                import_prefix,
                n,
                texts(args.children_literal@),
            )
        }
}

/// The texts are what `press` makes of the children of the node, one by one.
pub open spec fn renders_children<F: Fn(TemplateArgsCodegenCartridgeRenderNodeLiteral) -> String>(
    press: F,
    rngc: RenderNodesGenerationContext,
    node: TemplateNodeDefinition,
    import_prefix: Seq<char>,
    n: nat,
    children: Seq<Seq<char>>,
) -> bool
    decreases n, 0nat,
{
    &&& children.len() == node.child_ids.len()
    &&& children.len() > 0 ==> n > 0
    &&& forall|i: int|
        0 <= i < node.child_ids.len() && n > 0 ==> renders(
            press,
            rngc,
            rngc.template()[node.child_ids[i] as int],
            import_prefix,
            (n - 1) as nat,
            #[trigger] children[i],
        )
}

/// Renders the node and the nodes below, at most `n` levels.
fn render_levels<F: Fn(TemplateArgsCodegenCartridgeRenderNodeLiteral) -> String>(
    rngc: &RenderNodesGenerationContext,
    tnd: &TemplateNodeDefinition,
    host_crate_info: &HostCrateInfo,
    press: &F,
    n: usize,
) -> (r: String)
    requires
        rngc.wf(),
        rngc.tree_ready(*tnd, n as nat),
        forall|args: TemplateArgsCodegenCartridgeRenderNodeLiteral|
            call_requires(*press, (args,)),
    ensures
        renders(*press, *rngc, *tnd, host_crate_info.import_prefix@, n as nat, r@),
    decreases n,
{
    let mut children_literal: Vec<String> = Vec::new();
    let mut i: usize = 0;
    while i < tnd.child_ids.len()
        invariant
            rngc.wf(),
            rngc.tree_ready(*tnd, n as nat),
            forall|args: TemplateArgsCodegenCartridgeRenderNodeLiteral|
                call_requires(*press, (args,)),
            i <= tnd.child_ids.len(),
            children_literal.len() == i,
            forall|j: int|
                0 <= j < i ==> renders(
                    *press,
                    *rngc,
                    rngc.template()[(#[trigger] tnd.child_ids[j]) as int],
                    host_crate_info.import_prefix@,
                    (n - 1) as nat,
                    children_literal[j]@,
                ),
        decreases tnd.child_ids.len() - i,
    {
        let id: usize = tnd.child_ids[i];
        assert(tnd.child_ids@[i as int] < rngc.template().len());
        let template: &Vec<TemplateNodeDefinition> =
            rngc.active_component_definition.template.as_ref().unwrap();
        let child: String = render_levels(rngc, &template[id], host_crate_info, press, n - 1);
        children_literal.push(child);
        i += 1;
    }
    let args: TemplateArgsCodegenCartridgeRenderNodeLiteral = render_node_args(
        rngc,
        tnd,
        host_crate_info,
        children_literal,
    );
    let ghost children = texts(children_literal@);
    proof {
        assert(texts(args.children_literal@) == children);
        assert(children.len() == tnd.child_ids.len());
        assert forall|j: int| 0 <= j < tnd.child_ids.len() && n > 0 implies renders(
            *press,
            *rngc,
            rngc.template()[tnd.child_ids[j] as int],
            host_crate_info.import_prefix@,
            (n - 1) as nat,
            #[trigger] children[j],
        ) by {
            assert(children[j] == children_literal@[j]@);
        }
        assert(renders_children(
            *press,
            *rngc,
            *tnd,
            host_crate_info.import_prefix@,
            n as nat,
            children,
        ));
    }
    let ghost pressed = args;
    let r: String = (*press)(args);
    assert(presses(*press, pressed, r));
    r
}

/// The expression of a node, with those of the nodes below in it. `press`
/// makes the expression of one node.
pub fn recurse_generate_render_nodes_literal<
    F: Fn(TemplateArgsCodegenCartridgeRenderNodeLiteral) -> String,
>(
    rngc: &RenderNodesGenerationContext,
    tnd: &TemplateNodeDefinition,
    host_crate_info: &HostCrateInfo,
    press: &F,
) -> (r: String)
    requires
        rngc.wf(),
        rngc.tree_ready(*tnd, rngc.template().len()),
        forall|args: TemplateArgsCodegenCartridgeRenderNodeLiteral|
            call_requires(*press, (args,)),
    ensures
        renders(
            *press,
            *rngc,
            *tnd,
            host_crate_info.import_prefix@,
            rngc.template().len(),
            r@,
        ),
{
    let n: usize = match &rngc.active_component_definition.template {
        Some(template) => template.len(),
        None => 0,
    };
    render_levels(rngc, tnd, host_crate_info, press, n)
}

/// `s` is what `press` makes of the children of the template's root, joined by
/// commas.
pub open spec fn renders_template<F: Fn(TemplateArgsCodegenCartridgeRenderNodeLiteral) -> String>(
    press: F,
    rngc: RenderNodesGenerationContext,
    import_prefix: Seq<char>,
    s: Seq<char>,
) -> bool {
    let root = rngc.template()[0];
    exists|children: Seq<Seq<char>>|
        {
            &&& s == #[trigger] join(children, ","@)
            &&& children.len() == root.child_ids.len()
            &&& forall|i: int|
                0 <= i < root.child_ids.len() ==> renders(
                    press,
                    rngc,
                    rngc.template()[(#[trigger] root.child_ids[i]) as int],
                    import_prefix,
                    rngc.template().len(),
                    children[i],
                )
        }
}

impl<'a> RenderNodesGenerationContext<'a> {
    /// There is a template, and all nodes below its root can be rendered.
    pub open spec fn template_ready(self) -> bool {
        &&& self.active_component_definition.template is Some
        &&& self.template().len() > 0
        &&& forall|i: int|
            0 <= i < self.template()[0].child_ids.len() ==> (
            #[trigger] self.template()[0].child_ids[i]) < self.template().len() && self.tree_ready(
                self.template()[self.template()[0].child_ids[i] as int],
                self.template().len(),
            )
    }
}

/// The expressions of the children of the template's root, joined by commas.
/// The root itself is implicit.
pub fn generate_cartridge_render_nodes_literal<
    F: Fn(TemplateArgsCodegenCartridgeRenderNodeLiteral) -> String,
>(
    rngc: &RenderNodesGenerationContext,
    host_crate_info: &HostCrateInfo,
    press: &F,
) -> (r: String)
    requires
        rngc.wf(),
        rngc.template_ready(),
        forall|args: TemplateArgsCodegenCartridgeRenderNodeLiteral|
            call_requires(*press, (args,)),
    ensures
        renders_template(*press, *rngc, host_crate_info.import_prefix@, r@),
{
    let nodes: &Vec<TemplateNodeDefinition> =
        rngc.active_component_definition.template.as_ref().unwrap();
    let implicit_root: &TemplateNodeDefinition = &nodes[0];
    let mut children_literal: Vec<String> = Vec::new();
    let mut i: usize = 0;
    while i < implicit_root.child_ids.len()
        invariant
            rngc.wf(),
            rngc.template_ready(),
            forall|args: TemplateArgsCodegenCartridgeRenderNodeLiteral|
                call_requires(*press, (args,)),
            nodes@ == rngc.template(),
            *implicit_root == rngc.template()[0],
            i <= implicit_root.child_ids.len(),
            children_literal.len() == i,
            forall|j: int|
                0 <= j < i ==> renders(
                    *press,
                    *rngc,
                    rngc.template()[(#[trigger] implicit_root.child_ids[j]) as int],
                    host_crate_info.import_prefix@,
                    rngc.template().len(),
                    children_literal[j]@,
                ),
        decreases implicit_root.child_ids.len() - i,
    {
        let id: usize = implicit_root.child_ids[i];
        assert(rngc.template()[0].child_ids[i as int] < rngc.template().len());
        let child: String = recurse_generate_render_nodes_literal(
            rngc,
            &nodes[id],
            host_crate_info,
            press,
        );
        children_literal.push(child);
        i += 1;
    }
    let ghost children = texts(children_literal@);
    let r: String = join_texts(&children_literal, ",");
    assert(r@ == join(children, ","@));
    r
}

/// `press` makes the same text of the same arguments.
pub open spec fn press_is_determined<
    F: Fn(TemplateArgsCodegenCartridgeRenderNodeLiteral) -> String,
>(press: F) -> bool {
    forall|
        a: TemplateArgsCodegenCartridgeRenderNodeLiteral,
        b: TemplateArgsCodegenCartridgeRenderNodeLiteral,
        r: String,
        q: String,
    | #[trigger]
        presses(press, a, r) && #[trigger] presses(press, b, q) && a@ == b@ ==> r@ == q@
}

/// What is rendered depends on the template and the press alone: a press that
/// makes the same text of the same arguments renders a node in one way.
pub proof fn a_node_is_rendered_in_one_way<
    F: Fn(TemplateArgsCodegenCartridgeRenderNodeLiteral) -> String,
>(
    press: F,
    rngc: RenderNodesGenerationContext,
    node: TemplateNodeDefinition,
    import_prefix: Seq<char>,
    n: nat,
    s: Seq<char>,
    t: Seq<char>,
)
    requires
        press_is_determined(press),
        renders(press, rngc, node, import_prefix, n, s),
        renders(press, rngc, node, import_prefix, n, t),
    ensures
        s == t,
    decreases n,
{
    let (a, r) = choose|a: TemplateArgsCodegenCartridgeRenderNodeLiteral, r: String|
        {
            &&& #[trigger] presses(press, a, r)
            &&& r@ == s
            &&& a.events.wf()
            &&& a@ == rngc.node_args(node, import_prefix, texts(a.children_literal@))
            &&& renders_children(press, rngc, node, import_prefix, n, texts(a.children_literal@))
        };
    let (b, q) = choose|b: TemplateArgsCodegenCartridgeRenderNodeLiteral, q: String|
        {
            &&& #[trigger] presses(press, b, q)
            &&& q@ == t
            &&& b.events.wf()
            &&& b@ == rngc.node_args(node, import_prefix, texts(b.children_literal@))
            &&& renders_children(press, rngc, node, import_prefix, n, texts(b.children_literal@))
        };
    let x = texts(a.children_literal@);
    let y = texts(b.children_literal@);
    assert forall|i: int| 0 <= i < x.len() implies x[i] == y[i] by {
        a_node_is_rendered_in_one_way(
            press,
            rngc,
            rngc.template()[node.child_ids[i] as int],
            import_prefix,
            (n - 1) as nat,
            x[i],
            y[i],
        );
    }
    assert(x =~= y);
}

} // verus!
