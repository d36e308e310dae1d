//! The factory of a component: the function that makes its instances.

use crate::events::{component_handlers, generate_events_map, string_list_map};
use crate::manifest::{
    ComponentDefinition, HostCrateInfo, PaxManifest, PropertyDefinition, PropertyView,
    TypeDefinition,
};
use crate::render::{
    generate_cartridge_render_nodes_literal, presses, renders_template,
    RenderNodesGenerationContext, TemplateArgsCodegenCartridgeRenderNodeLiteral,
};
use crate::table::StringTable;
use vstd::prelude::*;

verus! {

/// What the factory of a component is pressed from.
#[derive(Debug)]
pub struct TemplateArgsCodegenCartridgeComponentFactory {
    pub is_main_component: bool,
    pub snake_case_type_id: String,
    pub component_properties_struct: String,
    pub properties: Vec<(PropertyDefinition, String)>,
    pub events: StringTable<Vec<String>>,
    pub render_nodes_literal: String,
    pub properties_coproduct_variant: String,
}

/// The same as mathematical values.
#[verifier::ext_equal]
pub struct ComponentFactoryArgs {
    pub is_main_component: bool,
    pub snake_case_type_id: Seq<char>,
    pub component_properties_struct: Seq<char>,
    pub properties: Seq<(PropertyView, Seq<char>)>,
    pub events: Map<Seq<char>, Seq<Seq<char>>>,
    pub render_nodes_literal: Seq<char>,
    pub properties_coproduct_variant: Seq<char>,
}

impl View for TemplateArgsCodegenCartridgeComponentFactory {
    type V = ComponentFactoryArgs;

    open spec fn view(&self) -> ComponentFactoryArgs {
        ComponentFactoryArgs {
            is_main_component: self.is_main_component,
            snake_case_type_id: self.snake_case_type_id@,
            component_properties_struct: self.component_properties_struct@,
            properties: self.properties@.map_values(
                |p: (PropertyDefinition, String)| (p.0@, p.1@),
            ),
            events: string_list_map(self.events),
            render_nodes_literal: self.render_nodes_literal@,
            properties_coproduct_variant: self.properties_coproduct_variant@,
        }
    }
}

impl PaxManifest {
    /// No type and no component occurs twice.
    pub open spec fn wf(self) -> bool {
        self.type_table.wf() && self.components.wf()
    }

    /// The properties of a component.
    pub open spec fn properties_of(self, cd: ComponentDefinition) -> Seq<PropertyDefinition> {
        self.type_table@[cd.type_id@].property_definitions@
    }

    /// The table has the component's type and the types of its properties.
    pub open spec fn properties_known(self, cd: ComponentDefinition) -> bool {
        &&& self.type_table@.contains_key(cd.type_id@)
        &&& forall|i: int|
            0 <= i < self.properties_of(cd).len() ==> self.type_table@.contains_key(
                (#[trigger] self.properties_of(cd)[i]).type_id@,
            )
    }

    /// What the templates of a component are rendered with.
    pub open spec fn context<'a>(
        &'a self,
        cd: &'a ComponentDefinition,
    ) -> RenderNodesGenerationContext<'a> {
        RenderNodesGenerationContext {
            components: &self.components,
            active_component_definition: cd,
            type_table: &self.type_table,
        }
    }

    /// What the factory of a component is pressed from, given the expressions
    /// of its nodes.
    pub open spec fn factory_args(
        self,
        cd: ComponentDefinition,
        render_nodes: Seq<char>,
    ) -> ComponentFactoryArgs {
        ComponentFactoryArgs {
            is_main_component: cd.is_main_component,
            snake_case_type_id: cd.snake_case_id@,
            component_properties_struct: cd.pascal_identifier@,
            properties: self.properties_of(cd).map_values(
                |p: PropertyDefinition|
                    (p@, self.type_table@[p.type_id@].type_id_escaped@),
            ),
            events: component_handlers(cd.events),
            render_nodes_literal: render_nodes,
            properties_coproduct_variant: cd.type_id_escaped@,
        }
    }
}

/// What the factory of a component is pressed from, given the expressions of
/// its nodes.
pub fn component_factory_args(
    manifest: &PaxManifest,
    cd: &ComponentDefinition,
    render_nodes_literal: String,
) -> (r: TemplateArgsCodegenCartridgeComponentFactory)
    requires
        manifest.wf(),
        manifest.properties_known(*cd),
    ensures
        r.events.wf(),
        r@ == manifest.factory_args(*cd, render_nodes_literal@),
{
    let definitions: &Vec<PropertyDefinition> = cd.get_property_definitions(&manifest.type_table);
    let mut properties: Vec<(PropertyDefinition, String)> = Vec::new();
    let mut i: usize = 0;
    while i < definitions.len()
        invariant
            manifest.wf(),
            manifest.properties_known(*cd),
            definitions@ == manifest.properties_of(*cd),
            i <= definitions.len(),
            properties.len() == i,
            forall|j: int|
                0 <= j < i ==> (#[trigger] properties@[j]).0@ == definitions@[j]@
                    && properties@[j].1@
                    == manifest.type_table@[definitions@[j].type_id@].type_id_escaped@,
        decreases definitions.len() - i,
    {
        let definition: &PropertyDefinition = &definitions[i];
        assert(manifest.type_table@.contains_key(
            manifest.properties_of(*cd)[i as int].type_id@,
        ));
        let t: &TypeDefinition = definition.get_type_definition(&manifest.type_table);
        properties.push((definition.duplicate(), t.type_id_escaped.clone()));
        i += 1;
    }
    let r: TemplateArgsCodegenCartridgeComponentFactory =
        TemplateArgsCodegenCartridgeComponentFactory {
        is_main_component: cd.is_main_component,
        snake_case_type_id: cd.snake_case_id.clone(),
        component_properties_struct: cd.pascal_identifier.clone(),
        properties,
        events: generate_events_map(&cd.events),
        render_nodes_literal,
        properties_coproduct_variant: cd.type_id_escaped.clone(),
    };
    assert(r@.properties =~= manifest.factory_args(*cd, render_nodes_literal@).properties);
    r
}

/// `s` is what `press_factory` makes of the component, given what `press_node`
/// makes of the nodes of its template.
pub open spec fn renders_factory<
    N: Fn(TemplateArgsCodegenCartridgeRenderNodeLiteral) -> String,
    C: Fn(TemplateArgsCodegenCartridgeComponentFactory) -> String,
>(
    press_node: N,
    press_factory: C,
    manifest: PaxManifest,
    cd: ComponentDefinition,
    import_prefix: Seq<char>,
    s: Seq<char>,
) -> bool {
    exists|args: TemplateArgsCodegenCartridgeComponentFactory, r: String|
        {
            &&& #[trigger] presses(press_factory, args, r)
            &&& r@ == s
            &&& args.events.wf()
            &&& args@ == manifest.factory_args(cd, args.render_nodes_literal@)
            &&& renders_template(
                press_node,
                manifest.context(&cd),
                import_prefix,
                args.render_nodes_literal@,
            )
        }
}

/// The factory of a component. `press_node` makes the expression of a node,
/// `press_factory` that of the factory.
pub fn generate_cartridge_component_factory_literal<
    N: Fn(TemplateArgsCodegenCartridgeRenderNodeLiteral) -> String,
    C: Fn(TemplateArgsCodegenCartridgeComponentFactory) -> String,
>(
    manifest: &PaxManifest,
    cd: &ComponentDefinition,
    host_crate_info: &HostCrateInfo,
    press_node: &N,
    press_factory: &C,
) -> (r: String)
    requires
        manifest.wf(),
        manifest.properties_known(*cd),
        manifest.context(cd).template_ready(),
        forall|args: TemplateArgsCodegenCartridgeRenderNodeLiteral|
            call_requires(*press_node, (args,)),
        forall|args: TemplateArgsCodegenCartridgeComponentFactory|
            call_requires(*press_factory, (args,)),
    ensures
        renders_factory(
            *press_node,
            *press_factory,
            *manifest,
            *cd,
            host_crate_info.import_prefix@,
            r@,
        ),
{
    let rngc: RenderNodesGenerationContext = RenderNodesGenerationContext {
        components: &manifest.components,
        active_component_definition: cd,
        type_table: &manifest.type_table,
    };
    let nodes: String = generate_cartridge_render_nodes_literal(
        &rngc,
        host_crate_info,
        press_node,
    );
    let args: TemplateArgsCodegenCartridgeComponentFactory = component_factory_args(
        manifest,
        cd,
        nodes,
    );
    assert(args.render_nodes_literal@ == args@.render_nodes_literal);
    let ghost pressed = args;
    let r: String = (*press_factory)(args);
    assert(presses(*press_factory, pressed, r));
    r
}

} // verus!
