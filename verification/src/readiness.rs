//! Tests of whether an application can be rendered.

use crate::cartridge::has_factory;
use crate::literals::{expressible, expressible_block};
use crate::manifest::{
    ComponentDefinition, LiteralBlockDefinition, PaxManifest, PropertyDefinition,
    TemplateNodeDefinition, ValueDefinition, TYPE_ID_IF, TYPE_ID_REPEAT, TYPE_ID_SLOT,
};
use crate::render::{common_ready, find_node_setting, RenderNodesGenerationContext};
use crate::text::same_text;
use vstd::prelude::*;

verus! {

/// Whether the value can stand in a setting that is no event.
pub fn is_expressible(value: &ValueDefinition) -> (r: bool)
    ensures
        r == expressible(*value),
    decreases value,
{
    match value {
        ValueDefinition::LiteralValue(_) => true,
        ValueDefinition::Expression(_, id) => id.is_some(),
        ValueDefinition::Identifier(_, id) => id.is_some(),
        ValueDefinition::Block(block) => is_expressible_block(block),
        ValueDefinition::EventBindingTarget(_) => false,
    }
}

/// Whether all values of the block can stand in it.
pub fn is_expressible_block(block: &LiteralBlockDefinition) -> (r: bool)
    ensures
        r == expressible_block(*block),
    decreases block,
{
    let mut i: usize = 0;
    while i < block.settings_key_value_pairs.len()
        invariant
            i <= block.settings_key_value_pairs@.len(),
            forall|j: int|
                0 <= j < i ==> expressible((#[trigger] block.settings_key_value_pairs[j]).1),
        decreases block.settings_key_value_pairs@.len() - i,
    {
        if !is_expressible(&block.settings_key_value_pairs[i].1) {
            assert(!expressible(block.settings_key_value_pairs[i as int].1));
            return false;
        }
        i += 1;
    }
    true
}

fn is_common_ready(node: &TemplateNodeDefinition, name: &str) -> (r: bool)
    ensures
        r == common_ready(*node, name@),
{
    match find_node_setting(node, name) {
        Some(value) => {
            let is_block: bool = match value {
                ValueDefinition::Block(_) => true,
                _ => false,
            };
            is_expressible(value) && !is_block
        },
        None => true,
    }
}

fn is_property_ready(
    rngc: &RenderNodesGenerationContext,
    node: &TemplateNodeDefinition,
    property: &PropertyDefinition,
) -> (r: bool)
    requires
        rngc.wf(),
    ensures
        r == rngc.property_ready(*node, *property),
{
    match find_node_setting(node, property.name.as_str()) {
        Some(value) => {
            let is_block: bool = match value {
                ValueDefinition::Block(_) => true,
                _ => false,
            };
            is_expressible(value) && (!is_block || rngc.type_table.get(
                property.type_id.as_str(),
            ).is_some())
        },
        None => true,
    }
}

/// Whether all that rendering the node looks up is there.
pub fn is_node_ready(rngc: &RenderNodesGenerationContext, node: &TemplateNodeDefinition) -> (r:
    bool)
    requires
        rngc.wf(),
    ensures
        r == rngc.node_ready(*node),
{
    if same_text(node.type_id.as_str(), TYPE_ID_REPEAT) {
        match &node.control_flow_settings {
            Some(flow) => match &flow.repeat_source_definition {
                Some(source) => source.vtable_id.is_some(),
                None => false,
            },
            None => false,
        }
    } else if same_text(node.type_id.as_str(), TYPE_ID_IF) {
        match &node.control_flow_settings {
            Some(flow) => flow.condition_expression_vtable_id.is_some(),
            None => false,
        }
    } else if same_text(node.type_id.as_str(), TYPE_ID_SLOT) {
        match &node.control_flow_settings {
            Some(flow) => flow.slot_index_expression_vtable_id.is_some(),
            None => false,
        }
    } else {
        match rngc.components.get(node.type_id.as_str()) {
            Some(component) => match rngc.type_table.get(component.type_id.as_str()) {
                Some(t) => {
                    let properties: &Vec<PropertyDefinition> = &t.property_definitions;
                    let mut i: usize = 0;
                    while i < properties.len()
                        invariant
                            rngc.wf(),
                            properties@ == rngc.node_properties(*node),
                            i <= properties@.len(),
                            forall|j: int|
                                0 <= j < i ==> rngc.property_ready(
                                    *node,
                                    #[trigger] rngc.node_properties(*node)[j],
                                ),
                            node.type_id@ != TYPE_ID_REPEAT@,
                            node.type_id@ != TYPE_ID_IF@,
                            node.type_id@ != TYPE_ID_SLOT@,
                        decreases properties@.len() - i,
                    {
                        if !is_property_ready(rngc, node, &properties[i]) {
                            assert(!rngc.property_ready(
                                *node,
                                rngc.node_properties(*node)[i as int],
                            ));
                            return false;
                        }
                        i += 1;
                    }
                    is_common_ready(node, "width") && is_common_ready(node, "height")
                        && is_common_ready(node, "transform")
                },
                None => false,
            },
            None => false,
        }
    }
}

/// Whether the node and all below, at most `n` levels, can be rendered.
pub fn is_tree_ready(
    rngc: &RenderNodesGenerationContext,
    node: &TemplateNodeDefinition,
    n: usize,
) -> (r: bool)
    requires
        rngc.wf(),
        rngc.active_component_definition.template is Some,
    ensures
        r == rngc.tree_ready(*node, n as nat),
    decreases n,
{
    if !is_node_ready(rngc, node) {
        return false;
    }
    if n == 0 {
        return node.child_ids.len() == 0;
    }
    let nodes: &Vec<TemplateNodeDefinition> =
        rngc.active_component_definition.template.as_ref().unwrap();
    let mut i: usize = 0;
    while i < node.child_ids.len()
        invariant
            rngc.wf(),
            rngc.active_component_definition.template is Some,
            nodes@ == rngc.template(),
            n > 0,
            i <= node.child_ids@.len(),
            forall|j: int|
                0 <= j < i ==> (#[trigger] node.child_ids[j]) < rngc.template().len()
                    && rngc.tree_ready(
                    rngc.template()[node.child_ids[j] as int],
                    (n - 1) as nat,
                ),
        decreases node.child_ids@.len() - i,
    {
        let id: usize = node.child_ids[i];
        if id >= nodes.len() {
            assert(!(node.child_ids[i as int] < rngc.template().len()));
            return false;
        }
        if !is_tree_ready(rngc, &nodes[id], n - 1) {
            assert(!rngc.tree_ready(
                rngc.template()[node.child_ids[i as int] as int],
                (n - 1) as nat,
            ));
            return false;
        }
        i += 1;
    }
    true
}

/// Whether there is a template, and all nodes below its root can be rendered.
pub fn is_template_ready(rngc: &RenderNodesGenerationContext) -> (r: bool)
    requires
        rngc.wf(),
    ensures
        r == rngc.template_ready(),
{
    match &rngc.active_component_definition.template {
        Some(nodes) => {
            if nodes.len() == 0 {
                return false;
            }
            let root: &TemplateNodeDefinition = &nodes[0];
            let mut i: usize = 0;
            while i < root.child_ids.len()
                invariant
                    rngc.wf(),
                    rngc.active_component_definition.template is Some,
                    nodes@ == rngc.template(),
                    nodes@.len() > 0,
                    *root == rngc.template()[0],
                    i <= root.child_ids@.len(),
                    forall|j: int|
                        0 <= j < i ==> (#[trigger] rngc.template()[0].child_ids[j])
                            < rngc.template().len() && rngc.tree_ready(
                            rngc.template()[rngc.template()[0].child_ids[j] as int],
                            rngc.template().len(),
                        ),
                decreases root.child_ids@.len() - i,
            {
                let id: usize = root.child_ids[i];
                if id >= nodes.len() {
                    assert(!(rngc.template()[0].child_ids[i as int] < rngc.template().len()));
                    return false;
                }
                if !is_tree_ready(rngc, &nodes[id], nodes.len()) {
                    assert(!rngc.tree_ready(
                        rngc.template()[rngc.template()[0].child_ids[i as int] as int],
                        rngc.template().len(),
                    ));
                    return false;
                }
                i += 1;
            }
            true
        },
        None => false,
    }
}

/// Whether the table has the component's type and the types of its properties.
pub fn are_properties_known(manifest: &PaxManifest, cd: &ComponentDefinition) -> (r: bool)
    requires
        manifest.wf(),
    ensures
        r == manifest.properties_known(*cd),
{
    match manifest.type_table.get(cd.type_id.as_str()) {
        Some(t) => {
            let properties: &Vec<PropertyDefinition> = &t.property_definitions;
            let mut i: usize = 0;
            while i < properties.len()
                invariant
                    manifest.wf(),
                    properties@ == manifest.properties_of(*cd),
                    i <= properties@.len(),
                    forall|j: int|
                        0 <= j < i ==> manifest.type_table@.contains_key(
                            (#[trigger] manifest.properties_of(*cd)[j]).type_id@,
                        ),
                decreases properties@.len() - i,
            {
                if manifest.type_table.get(properties[i].type_id.as_str()).is_none() {
                    assert(!manifest.type_table@.contains_key(
                        manifest.properties_of(*cd)[i as int].type_id@,
                    ));
                    return false;
                }
                i += 1;
            }
            true
        },
        None => false,
    }
}

/// Whether the table has the types of all components and of their properties.
pub fn are_all_properties_known(manifest: &PaxManifest) -> (r: bool)
    requires
        manifest.wf(),
    ensures
        r == manifest.all_properties_known(),
{
    let mut i: usize = 0;
    while i < manifest.components.entries.len()
        invariant
            manifest.wf(),
            i <= manifest.components.entries@.len(),
            forall|j: int|
                0 <= j < i ==> manifest.properties_known(
                    (#[trigger] manifest.components.entries@[j]).1,
                ),
        decreases manifest.components.entries@.len() - i,
    {
        if !are_properties_known(manifest, &manifest.components.entries[i].1) {
            assert(!manifest.properties_known(manifest.components.entries@[i as int].1));
            return false;
        }
        i += 1;
    }
    true
}

/// Whether the templates of all components that have factories can be rendered.
pub fn are_factories_ready(manifest: &PaxManifest) -> (r: bool)
    requires
        manifest.wf(),
    ensures
        r == manifest.factories_ready(),
{
    let mut i: usize = 0;
    while i < manifest.components.entries.len()
        invariant
            manifest.wf(),
            i <= manifest.components.entries@.len(),
            forall|j: int|
                #![trigger manifest.components.entries@[j]]
                0 <= j < i && has_factory(manifest.components.entries@[j].1) ==> {
                    &&& manifest.properties_known(manifest.components.entries@[j].1)
                    &&& manifest.context(&manifest.components.entries@[j].1).template_ready()
                },
        decreases manifest.components.entries@.len() - i,
    {
        let cd: &ComponentDefinition = &manifest.components.entries[i].1;
        let rngc: RenderNodesGenerationContext = RenderNodesGenerationContext {
            components: &manifest.components,
            active_component_definition: cd,
            type_table: &manifest.type_table,
        };
        assert(*cd == manifest.components.entries@[i as int].1);
        assert(rngc == manifest.context(cd));
        if !cd.is_primitive && !cd.is_struct_only_component && !(are_properties_known(
            manifest,
            cd,
        ) && is_template_ready(&rngc)) {
            assert(has_factory(manifest.components.entries@[i as int].1));
            return false;
        }
        i += 1;
    }
    true
}

} // verus!
