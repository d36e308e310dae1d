//! When an application can be rendered.

use crate::cartridge::has_factory;
use crate::literals::expressible;
use crate::manifest::{
    ComponentDefinition, LiteralBlockDefinition, PaxManifest, TemplateNodeDefinition,
    ValueDefinition,
};
use crate::readiness::{
    are_all_properties_known, are_factories_ready, are_properties_known, is_expressible,
    is_expressible_block, is_node_ready, is_template_ready, is_tree_ready,
};
use crate::render::{find_setting, node_setting, RenderNodesGenerationContext};
use crate::render_laws::{is_first_setting, lemma_setting};
use vstd::prelude::*;
use vstd::string::*;

verus! {

/// A literal can stand in a setting, an event cannot, and what is compiled can
/// once it has its number. A block can where all its values can.
pub proof fn a_value_can_stand_where_it_is_compiled(
    value: &ValueDefinition,
    r: bool,
    inner: bool,
)
    requires
        call_ensures(is_expressible, (value,), r),
        value matches ValueDefinition::Block(block) ==> call_ensures(
            is_expressible_block,
            (&block,),
            inner,
        ),
    ensures
        value is LiteralValue ==> r,
        value is EventBindingTarget ==> !r,
        value matches ValueDefinition::Expression(_, id) ==> (r <==> id is Some),
        value matches ValueDefinition::Identifier(_, id) ==> (r <==> id is Some),
        value is Block ==> (r <==> inner),
{
}

/// A value that cannot stand in a setting, wherever it is asked.
pub open spec fn cannot_stand(value: ValueDefinition) -> bool {
    forall|r: bool| #[trigger] call_ensures(is_expressible, (&value,), r) ==> !r
}

/// A value that can stand in a setting, wherever it is asked.
pub open spec fn can_stand(value: ValueDefinition) -> bool {
    forall|r: bool| #[trigger] call_ensures(is_expressible, (&value,), r) ==> r
}

/// A block can stand where all its values can, and nowhere else.
pub proof fn a_block_can_stand_where_its_values_can(block: &LiteralBlockDefinition, r: bool)
    requires
        call_ensures(is_expressible_block, (block,), r),
    ensures
        r ==> forall|i: int|
            0 <= i < block.settings_key_value_pairs@.len() ==> can_stand(
                (#[trigger] block.settings_key_value_pairs@[i]).1,
            ),
        !r ==> exists|i: int|
            0 <= i < block.settings_key_value_pairs@.len() && cannot_stand(
                (#[trigger] block.settings_key_value_pairs@[i]).1,
            ),
{
    let pairs = block.settings_key_value_pairs@;
    if r {
        assert forall|i: int| 0 <= i < pairs.len() implies can_stand((#[trigger] pairs[i]).1) by {
            assert(block.settings_key_value_pairs[i] == pairs[i]);
        }
    } else {
        let i = choose|i: int|
            0 <= i < pairs.len() && !expressible(
                (#[trigger] block.settings_key_value_pairs[i]).1,
            );
        assert(block.settings_key_value_pairs[i] == pairs[i]);
        assert(cannot_stand(pairs[i].1));
    }
}

/// The value that the node gives the name, if any, can stand in a setting.
pub open spec fn has_value(node: TemplateNodeDefinition, name: Seq<char>) -> bool {
    forall|j: int| #[trigger]
        is_first_setting(node, name, j) ==> expressible(node.settings->0@[j].1)
}

/// The node gives the name a block.
pub open spec fn has_block(node: TemplateNodeDefinition, name: Seq<char>) -> bool {
    exists|j: int| #[trigger]
        is_first_setting(node, name, j) && node.settings->0@[j].1 is Block
}

proof fn lemma_found_first(settings: Seq<(String, ValueDefinition)>, name: Seq<char>) -> (j: int)
    requires
        find_setting(settings, name) is Some,
    ensures
        0 <= j < settings.len(),
        settings[j].0@ == name,
        find_setting(settings, name) == Some(settings[j].1),
        forall|k: int| 0 <= k < j ==> (#[trigger] settings[k]).0@ != name,
    decreases settings.len(),
{
    if settings[0].0@ == name {
        0
    } else {
        let rest = settings.drop_first();
        let i = lemma_found_first(rest, name);
        assert(rest[i] == settings[i + 1]);
        assert forall|k: int| 0 <= k < i + 1 implies (#[trigger] settings[k]).0@ != name by {
            if k > 0 {
                assert(rest[k - 1] == settings[k]);
            }
        }
        i + 1
    }
}

proof fn lemma_values(node: TemplateNodeDefinition, name: Seq<char>)
    ensures
        has_value(node, name) <==> (node_setting(node, name) matches Some(value) ==> expressible(
            value,
        )),
        has_block(node, name) <==> (node_setting(node, name) matches Some(value)
            && value is Block),
{
    lemma_setting(node, name);
    if node_setting(node, name) is Some {
        let j = lemma_found_first(node.settings->0@, name);
        assert(is_first_setting(node, name, j));
    }
}

/// What a node needs in order to be rendered. A node of control flow needs the
/// number of its expression. Any other needs its component and the type of that;
/// what it sets must be able to stand in a setting. A block needs the type of
/// the property that it sets, and can set nothing that all nodes have.
pub open spec fn has_all_it_needs(
    rngc: RenderNodesGenerationContext,
    node: TemplateNodeDefinition,
) -> bool {
    let flow = node.control_flow_settings;
    let component = rngc.components@[node.type_id@];
    let properties = rngc.type_table@[component.type_id@].property_definitions@;
    if node.type_id@ == "REPEAT"@ {
        flow is Some && flow->0.repeat_source_definition is Some
            && flow->0.repeat_source_definition->0.vtable_id is Some
    } else if node.type_id@ == "IF"@ {
        flow is Some && flow->0.condition_expression_vtable_id is Some
    } else if node.type_id@ == "SLOT"@ {
        flow is Some && flow->0.slot_index_expression_vtable_id is Some
    } else {
        &&& rngc.components@.contains_key(node.type_id@)
        &&& rngc.type_table@.contains_key(component.type_id@)
        &&& forall|i: int|
            0 <= i < properties.len() ==> {
                &&& has_value(node, (#[trigger] properties[i]).name@)
                &&& has_block(node, properties[i].name@) ==> rngc.type_table@.contains_key(
                    properties[i].type_id@,
                )
            }
        &&& has_value(node, "width"@) && !has_block(node, "width"@)
        &&& has_value(node, "height"@) && !has_block(node, "height"@)
        &&& has_value(node, "transform"@) && !has_block(node, "transform"@)
    }
}

proof fn lemma_needs(rngc: RenderNodesGenerationContext, node: TemplateNodeDefinition)
    ensures
        rngc.node_ready(node) <==> has_all_it_needs(rngc, node),
{
    let properties = rngc.node_properties(node);
    assert forall|i: int| 0 <= i < properties.len() implies (rngc.property_ready(
        node,
        #[trigger] properties[i],
    ) <==> {
        &&& has_value(node, properties[i].name@)
        &&& has_block(node, properties[i].name@) ==> rngc.type_table@.contains_key(
            properties[i].type_id@,
        )
    }) by {
        lemma_values(node, properties[i].name@);
    }
    lemma_values(node, "width"@);
    lemma_values(node, "height"@);
    lemma_values(node, "transform"@);
}

/// A node can be rendered if and only if it has all it needs.
pub proof fn a_node_is_ready_where_it_has_all_it_needs(
    rngc: &RenderNodesGenerationContext,
    node: &TemplateNodeDefinition,
    r: bool,
)
    requires
        call_ensures(is_node_ready, (rngc, node), r),
    ensures
        r <==> has_all_it_needs(*rngc, *node),
{
    lemma_needs(*rngc, *node);
}

/// The node and those below, for so many levels, have all they need; none is
/// deeper than that.
pub open spec fn tree_has_all_it_needs(
    rngc: RenderNodesGenerationContext,
    node: TemplateNodeDefinition,
    levels: nat,
) -> bool
    decreases levels,
{
    &&& has_all_it_needs(rngc, node)
    &&& levels == 0 ==> node.child_ids@.len() == 0
    &&& levels > 0 ==> forall|i: int|
        0 <= i < node.child_ids@.len() ==> {
            let template = rngc.active_component_definition.template->0@;
            &&& (#[trigger] node.child_ids@[i]) < template.len()
            &&& tree_has_all_it_needs(
                rngc,
                template[node.child_ids@[i] as int],
                (levels - 1) as nat,
            )
        }
}

proof fn lemma_tree_needs(
    rngc: RenderNodesGenerationContext,
    node: TemplateNodeDefinition,
    n: nat,
)
    requires
        rngc.active_component_definition.template is Some,
    ensures
        rngc.tree_ready(node, n) <==> tree_has_all_it_needs(rngc, node, n),
    decreases n,
{
    lemma_needs(rngc, node);
    if n > 0 {
        let template = rngc.template();
        assert forall|i: int|
            0 <= i < node.child_ids@.len() && (#[trigger] node.child_ids@[i])
                < template.len() implies (rngc.tree_ready(
            template[node.child_ids@[i] as int],
            (n - 1) as nat,
        ) <==> tree_has_all_it_needs(
            rngc,
            template[node.child_ids@[i] as int],
            (n - 1) as nat,
        )) by {
            lemma_tree_needs(rngc, template[node.child_ids@[i] as int], (n - 1) as nat);
        }
        if rngc.tree_ready(node, n) {
            assert forall|i: int| 0 <= i < node.child_ids@.len() implies {
                &&& (#[trigger] node.child_ids@[i]) < template.len()
                &&& tree_has_all_it_needs(
                    rngc,
                    template[node.child_ids@[i] as int],
                    (n - 1) as nat,
                )
            } by {
                assert(node.child_ids[i] == node.child_ids@[i]);
            }
        }
        if tree_has_all_it_needs(rngc, node, n) {
            assert forall|i: int| 0 <= i < node.child_ids.len() implies (
            #[trigger] node.child_ids[i]) < template.len() && rngc.tree_ready(
                template[node.child_ids[i] as int],
                (n - 1) as nat,
            ) by {
                assert(node.child_ids[i] == node.child_ids@[i]);
            }
        }
    } else if node.child_ids@.len() > 0 {
        assert(node.child_ids.len() > 0);
    }
}

/// A tree of nodes can be rendered if and only if all its nodes have all they
/// need.
pub proof fn a_tree_is_ready_where_its_nodes_are(
    rngc: &RenderNodesGenerationContext,
    node: &TemplateNodeDefinition,
    n: usize,
    r: bool,
)
    requires
        rngc.active_component_definition.template is Some,
        call_ensures(is_tree_ready, (rngc, node, n), r),
    ensures
        r <==> tree_has_all_it_needs(*rngc, *node, n as nat),
{
    lemma_tree_needs(*rngc, *node, n as nat);
}

/// There is a template with a root, and the trees below the root have all they
/// need.
pub open spec fn template_has_all_it_needs(rngc: RenderNodesGenerationContext) -> bool {
    let nodes = rngc.active_component_definition.template->0@;
    &&& rngc.active_component_definition.template is Some
    &&& nodes.len() > 0
    &&& forall|i: int|
        0 <= i < nodes[0].child_ids@.len() ==> {
            &&& (#[trigger] nodes[0].child_ids@[i]) < nodes.len()
            &&& tree_has_all_it_needs(
                rngc,
                nodes[nodes[0].child_ids@[i] as int],
                nodes.len(),
            )
        }
}

proof fn lemma_template_needs(rngc: RenderNodesGenerationContext)
    ensures
        rngc.template_ready() <==> template_has_all_it_needs(rngc),
{
    if rngc.active_component_definition.template is Some && rngc.template().len() > 0 {
        let nodes = rngc.template();
        let root = nodes[0];
        assert forall|i: int|
            0 <= i < root.child_ids@.len() && (#[trigger] root.child_ids@[i])
                < nodes.len() implies (rngc.tree_ready(
            nodes[root.child_ids@[i] as int],
            nodes.len(),
        ) <==> tree_has_all_it_needs(
            rngc,
            nodes[root.child_ids@[i] as int],
            nodes.len(),
        )) by {
            lemma_tree_needs(rngc, nodes[root.child_ids@[i] as int], nodes.len());
        }
        if rngc.template_ready() {
            assert forall|i: int| 0 <= i < nodes[0].child_ids@.len() implies {
                &&& (#[trigger] nodes[0].child_ids@[i]) < nodes.len()
                &&& tree_has_all_it_needs(
                    rngc,
                    nodes[nodes[0].child_ids@[i] as int],
                    nodes.len(),
                )
            } by {
                assert(rngc.template()[0].child_ids[i] == root.child_ids@[i]);
            }
        }
        if template_has_all_it_needs(rngc) {
            assert forall|i: int| 0 <= i < rngc.template()[0].child_ids.len() implies (
            #[trigger] rngc.template()[0].child_ids[i]) < nodes.len() && rngc.tree_ready(
                nodes[rngc.template()[0].child_ids[i] as int],
                nodes.len(),
            ) by {
                assert(rngc.template()[0].child_ids[i] == root.child_ids@[i]);
            }
        }
    }
}

/// A template can be rendered if and only if it has a root and the trees below it
/// have all they need.
pub proof fn a_template_is_ready_where_its_trees_are(
    rngc: &RenderNodesGenerationContext,
    r: bool,
)
    requires
        call_ensures(is_template_ready, (rngc,), r),
    ensures
        r <==> template_has_all_it_needs(*rngc),
{
    lemma_template_needs(*rngc);
}

/// The table has the type of the component and those of all its properties.
pub open spec fn knows_properties(manifest: PaxManifest, cd: ComponentDefinition) -> bool {
    let properties = manifest.type_table@[cd.type_id@].property_definitions@;
    &&& manifest.type_table@.contains_key(cd.type_id@)
    &&& forall|i: int|
        0 <= i < properties.len() ==> manifest.type_table@.contains_key(
            (#[trigger] properties[i]).type_id@,
        )
}

proof fn lemma_knows(manifest: PaxManifest, cd: ComponentDefinition)
    ensures
        manifest.properties_known(cd) <==> knows_properties(manifest, cd),
{
    let properties = manifest.type_table@[cd.type_id@].property_definitions@;
    assert(manifest.properties_of(cd) == properties);
    if manifest.properties_known(cd) {
        assert forall|i: int| 0 <= i < properties.len() implies manifest.type_table@.contains_key(
            (#[trigger] properties[i]).type_id@,
        ) by {
            assert(manifest.properties_of(cd)[i] == properties[i]);
        }
    }
    if knows_properties(manifest, cd) {
        assert forall|i: int|
            0 <= i < manifest.properties_of(
                cd,
            ).len() implies manifest.type_table@.contains_key(
            (#[trigger] manifest.properties_of(cd)[i]).type_id@,
        ) by {
            assert(manifest.properties_of(cd)[i] == properties[i]);
        }
    }
}

/// The properties of a component are known if and only if the table has their
/// types and that of the component.
pub proof fn properties_are_known_by_their_types(
    manifest: &PaxManifest,
    cd: &ComponentDefinition,
    r: bool,
)
    requires
        call_ensures(are_properties_known, (manifest, cd), r),
    ensures
        r <==> knows_properties(*manifest, *cd),
{
    lemma_knows(*manifest, *cd);
}

/// All properties are known if and only if those of each component are.
pub proof fn all_properties_are_those_of_all_components(manifest: &PaxManifest, r: bool)
    requires
        call_ensures(are_all_properties_known, (manifest,), r),
    ensures
        r <==> forall|i: int|
            0 <= i < manifest.components.entries@.len() ==> knows_properties(
                *manifest,
                (#[trigger] manifest.components.entries@[i]).1,
            ),
{
    let entries = manifest.components.entries@;
    assert forall|i: int| 0 <= i < entries.len() implies (manifest.properties_known(
        (#[trigger] entries[i]).1,
    ) <==> knows_properties(*manifest, entries[i].1)) by {
        lemma_knows(*manifest, entries[i].1);
    }
}

/// The component needs no factory, or all that its factory is made from is there.
pub open spec fn factory_has_all_it_needs(
    manifest: PaxManifest,
    cd: ComponentDefinition,
) -> bool {
    cd.is_primitive || cd.is_struct_only_component || {
        &&& knows_properties(manifest, cd)
        &&& template_has_all_it_needs(
            (RenderNodesGenerationContext {
                components: &manifest.components,
                active_component_definition: &cd,
                type_table: &manifest.type_table,
            }),
        )
    }
}

/// All factories can be generated if and only if the properties of each component
/// with a factory are known and its template has all it needs.
pub proof fn factories_are_ready_where_their_components_are(manifest: &PaxManifest, r: bool)
    requires
        call_ensures(are_factories_ready, (manifest,), r),
    ensures
        r <==> forall|i: int|
            0 <= i < manifest.components.entries@.len() ==> factory_has_all_it_needs(
                *manifest,
                (#[trigger] manifest.components.entries@[i]).1,
            ),
{
    let entries = manifest.components.entries@;
    assert forall|i: int| 0 <= i < entries.len() implies (factory_has_all_it_needs(
        *manifest,
        (#[trigger] entries[i]).1,
    ) <==> (has_factory(entries[i].1) ==> manifest.properties_known(entries[i].1)
        && manifest.context(&entries[i].1).template_ready())) by {
        lemma_knows(*manifest, entries[i].1);
        lemma_template_needs(manifest.context(&entries[i].1));
    }
}

} // verus!
