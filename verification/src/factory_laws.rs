//! What the factories of components are made from.

use crate::event_laws::{holds_the_last_definitions, lemma_handlers_table};
use crate::events::string_list_map;
use crate::factory::{
    component_factory_args, generate_cartridge_component_factory_literal, renders_factory,
    TemplateArgsCodegenCartridgeComponentFactory,
};
use crate::manifest::{ComponentDefinition, HostCrateInfo, PaxManifest};
use crate::render::{
    a_node_is_rendered_in_one_way, generate_cartridge_render_nodes_literal, press_is_determined,
    presses, renders, renders_template, RenderNodesGenerationContext,
    TemplateArgsCodegenCartridgeRenderNodeLiteral,
};
use crate::text::join;
use vstd::prelude::*;

verus! {

/// The arguments are those of the component: its identifiers, its properties in
/// order, each with the variant of its type, and the handlers of its events.
pub open spec fn describes_component(
    args: TemplateArgsCodegenCartridgeComponentFactory,
    manifest: PaxManifest,
    cd: ComponentDefinition,
) -> bool {
    let properties = manifest.type_table@[cd.type_id@].property_definitions@;
    &&& args.is_main_component == cd.is_main_component
    &&& args.snake_case_type_id@ == cd.snake_case_id@
    &&& args.component_properties_struct@ == cd.pascal_identifier@
    &&& args.properties_coproduct_variant@ == cd.type_id_escaped@
    &&& args.properties@.len() == properties.len()
    &&& forall|i: int|
        0 <= i < properties.len() ==> {
            &&& (#[trigger] args.properties@[i]).0.name@ == properties[i].name@
            &&& args.properties@[i].0.type_id@ == properties[i].type_id@
            &&& args.properties@[i].1@
                == manifest.type_table@[properties[i].type_id@].type_id_escaped@
        }
    &&& args.events.wf()
    &&& cd.events matches Some(list) ==> holds_the_last_definitions(list@, args.events)
    &&& cd.events is None ==> forall|k: Seq<char>| !#[trigger] args.events@.contains_key(k)
}

proof fn lemma_described(
    args: TemplateArgsCodegenCartridgeComponentFactory,
    manifest: PaxManifest,
    cd: ComponentDefinition,
    nodes: Seq<char>,
)
    requires
        args.events.wf(),
        args@ == manifest.factory_args(cd, nodes),
    ensures
        describes_component(args, manifest, cd),
        args.render_nodes_literal@ == nodes,
{
    let model = manifest.factory_args(cd, nodes);
    let properties = manifest.type_table@[cd.type_id@].property_definitions@;
    assert(args@.render_nodes_literal == args.render_nodes_literal@);
    assert(args@.events == string_list_map(args.events));
    let map = string_list_map(args.events);
    assert forall|k: Seq<char>| #[trigger]
        args.events@.contains_key(k) <==> map.contains_key(k) by {}
    match cd.events {
        Some(list) => {
            lemma_handlers_table(list@, args.events);
        },
        None => {},
    }
    assert(args@.properties.len() == args.properties@.len());
    assert forall|i: int| 0 <= i < properties.len() implies {
        &&& (#[trigger] args.properties@[i]).0.name@ == properties[i].name@
        &&& args.properties@[i].0.type_id@ == properties[i].type_id@
        &&& args.properties@[i].1@ == manifest.type_table@[properties[i].type_id@].type_id_escaped@
    } by {
        assert(args@.properties[i] == model.properties[i]);
        assert(args@.properties[i] == (args.properties@[i].0@, args.properties@[i].1@));
    }
}

/// A factory is pressed from its component and the text of its nodes.
pub proof fn a_factory_is_pressed_from_its_component(
    manifest: &PaxManifest,
    cd: &ComponentDefinition,
    nodes: String,
    r: TemplateArgsCodegenCartridgeComponentFactory,
)
    requires
        call_ensures(component_factory_args, (manifest, cd, nodes), r),
    ensures
        describes_component(r, *manifest, *cd),
        r.render_nodes_literal@ == nodes@,
{
    lemma_described(r, *manifest, *cd, nodes@);
}

/// What is rendered for a component is what the press makes of it.
pub proof fn lemma_rendered_factory<
    N: Fn(TemplateArgsCodegenCartridgeRenderNodeLiteral) -> String,
    C: Fn(TemplateArgsCodegenCartridgeComponentFactory) -> String,
>(
    press_node: N,
    press_factory: C,
    manifest: PaxManifest,
    cd: ComponentDefinition,
    import_prefix: Seq<char>,
    s: Seq<char>,
)
    requires
        renders_factory(press_node, press_factory, manifest, cd, import_prefix, s),
    ensures
        exists|args: TemplateArgsCodegenCartridgeComponentFactory, q: String|
            {
                &&& #[trigger] presses(press_factory, args, q)
                &&& q@ == s
                &&& describes_component(args, manifest, cd)
            },
{
    let (args, q) = choose|args: TemplateArgsCodegenCartridgeComponentFactory, q: String|
        {
            &&& #[trigger] presses(press_factory, args, q)
            &&& q@ == s
            &&& args.events.wf()
            &&& args@ == manifest.factory_args(cd, args.render_nodes_literal@)
            &&& renders_template(
                press_node,
                manifest.context(&cd),
                import_prefix,
                args.render_nodes_literal@,
            )
        };
    lemma_described(args, manifest, cd, args.render_nodes_literal@);
}

/// A template is rendered in one way.
pub proof fn lemma_template_in_one_way<
    F: Fn(TemplateArgsCodegenCartridgeRenderNodeLiteral) -> String,
>(
    press: F,
    rngc: RenderNodesGenerationContext,
    import_prefix: Seq<char>,
    s: Seq<char>,
    t: Seq<char>,
)
    requires
        press_is_determined(press),
        renders_template(press, rngc, import_prefix, s),
        renders_template(press, rngc, import_prefix, t),
    ensures
        s == t,
{
    let root = rngc.template()[0];
    let n = rngc.template().len();
    let x = choose|x: Seq<Seq<char>>|
        {
            &&& s == #[trigger] join(x, ","@)
            &&& x.len() == root.child_ids.len()
            &&& forall|i: int|
                0 <= i < root.child_ids.len() ==> renders(
                    press,
                    rngc,
                    rngc.template()[(#[trigger] root.child_ids[i]) as int],
                    import_prefix,
                    n,
                    x[i],
                )
        };
    let y = choose|y: Seq<Seq<char>>|
        {
            &&& t == #[trigger] join(y, ","@)
            &&& y.len() == root.child_ids.len()
            &&& forall|i: int|
                0 <= i < root.child_ids.len() ==> renders(
                    press,
                    rngc,
                    rngc.template()[(#[trigger] root.child_ids[i]) as int],
                    import_prefix,
                    n,
                    y[i],
                )
        };
    assert forall|i: int| 0 <= i < x.len() implies x[i] == y[i] by {
        let child = rngc.template()[root.child_ids[i] as int];
        assert(renders(press, rngc, child, import_prefix, n, x[i]));
        assert(renders(press, rngc, child, import_prefix, n, y[i]));
        a_node_is_rendered_in_one_way(press, rngc, child, import_prefix, n, x[i], y[i]);
    }
    assert(x =~= y);
}

/// The text of a factory is what the press makes of its component, and among
/// what it is made of is the text of the component's template.
pub proof fn a_factory_holds_its_template<
    N: Fn(TemplateArgsCodegenCartridgeRenderNodeLiteral) -> String,
    C: Fn(TemplateArgsCodegenCartridgeComponentFactory) -> String,
>(
    manifest: &PaxManifest,
    cd: &ComponentDefinition,
    host: &HostCrateInfo,
    press_node: &N,
    press_factory: &C,
    r: String,
    rngc: &RenderNodesGenerationContext,
    nodes: String,
)
    requires
        press_is_determined(*press_node),
        call_ensures(
            generate_cartridge_component_factory_literal::<N, C>,
            (manifest, cd, host, press_node, press_factory),
            r,
        ),
        *rngc.components == manifest.components,
        *rngc.active_component_definition == *cd,
        *rngc.type_table == manifest.type_table,
        call_ensures(
            generate_cartridge_render_nodes_literal::<N>,
            (rngc, host, press_node),
            nodes,
        ),
    ensures
        exists|args: TemplateArgsCodegenCartridgeComponentFactory, q: String|
            {
                &&& #[trigger] presses(*press_factory, args, q)
                &&& q@ == r@
                &&& describes_component(args, *manifest, *cd)
                &&& args.render_nodes_literal@ == nodes@
            },
{
    let prefix = host.import_prefix@;
    let (args, q) = choose|args: TemplateArgsCodegenCartridgeComponentFactory, q: String|
        {
            &&& #[trigger] presses(*press_factory, args, q)
            &&& q@ == r@
            &&& args.events.wf()
            &&& args@ == manifest.factory_args(*cd, args.render_nodes_literal@)
            &&& renders_template(
                *press_node,
                manifest.context(cd),
                prefix,
                args.render_nodes_literal@,
            )
        };
    lemma_described(args, *manifest, *cd, args.render_nodes_literal@);
    assert(manifest.context(cd) == *rngc);
    lemma_template_in_one_way(*press_node, *rngc, prefix, args.render_nodes_literal@, nodes@);
}

} // verus!
