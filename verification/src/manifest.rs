//! What a parsed application is made of.

use crate::table::StringTable;
use vstd::prelude::*;

verus! {

/// The type of the nodes that repeat their children.
pub const TYPE_ID_REPEAT: &'static str = "REPEAT";

/// The type of the nodes that show their children on a condition.
pub const TYPE_ID_IF: &'static str = "IF";

/// The type of the nodes that stand for a child of the enclosing component.
pub const TYPE_ID_SLOT: &'static str = "SLOT";

/// A value that a setting binds. Expressions and identifiers hold the number
/// under which they were compiled, once they are.
#[derive(Debug)]
pub enum ValueDefinition {
    LiteralValue(String),
    Expression(String, Option<usize>),
    Identifier(String, Option<usize>),
    Block(LiteralBlockDefinition),
    EventBindingTarget(String),
}

/// A block of settings that makes up one value.
#[derive(Debug)]
pub struct LiteralBlockDefinition {
    pub settings_key_value_pairs: Vec<(String, ValueDefinition)>,
}

/// A property of a type.
#[derive(Debug)]
pub struct PropertyDefinition {
    pub name: String,
    pub type_id: String,
}

/// A type and its properties.
#[derive(Debug)]
pub struct TypeDefinition {
    pub type_id: String,
    pub type_id_escaped: String,
    pub import_path: String,
    pub property_definitions: Vec<PropertyDefinition>,
}

/// The known types, by type id.
pub type TypeTable = StringTable<TypeDefinition>;

/// The handlers of an event.
#[derive(Debug)]
pub struct EventDefinition {
    pub key: String,
    pub value: Vec<String>,
}

/// What a repeating node goes through: a range or a symbol.
#[derive(Debug)]
pub struct ControlFlowRepeatSourceDefinition {
    pub range_expression_paxel: Option<String>,
    pub symbolic_binding: Option<String>,
    pub vtable_id: Option<usize>,
}

/// The settings of a node that repeats, shows or stands for others.
#[derive(Debug)]
pub struct ControlFlowSettingsDefinition {
    pub condition_expression_vtable_id: Option<usize>,
    pub slot_index_expression_vtable_id: Option<usize>,
    pub repeat_source_definition: Option<ControlFlowRepeatSourceDefinition>,
}

/// A node of a template. Its children are positions in the template.
#[derive(Debug)]
pub struct TemplateNodeDefinition {
    pub type_id: String,
    pub child_ids: Vec<usize>,
    pub settings: Option<Vec<(String, ValueDefinition)>>,
    pub control_flow_settings: Option<ControlFlowSettingsDefinition>,
}

/// A component.
#[derive(Debug)]
pub struct ComponentDefinition {
    pub type_id: String,
    /// The component's variant among the properties.
    pub type_id_escaped: String,
    /// The type id with what no identifier can hold escaped.
    pub escaped_identifier: String,
    /// The type id in snake case.
    pub snake_case_id: String,
    pub pascal_identifier: String,
    /// The module that the component is in, for example `crate::grids`.
    pub module: String,
    pub is_main_component: bool,
    pub is_primitive: bool,
    pub is_struct_only_component: bool,
    pub primitive_instance_import_path: Option<String>,
    /// The nodes of the template. The first is the root; it is implicit.
    pub template: Option<Vec<TemplateNodeDefinition>>,
    pub events: Option<Vec<EventDefinition>>,
}

/// A compiled expression. Expressions are ordered by their ids.
#[derive(Debug)]
pub struct ExpressionSpec {
    pub id: usize,
    pub output_statement: String,
}

/// An application: what it imports, its types, components and expressions.
#[derive(Debug)]
pub struct PaxManifest {
    pub import_paths: Vec<String>,
    pub type_table: TypeTable,
    pub components: StringTable<ComponentDefinition>,
    /// Present once the expressions are compiled.
    pub expression_specs: Option<Vec<ExpressionSpec>>,
}

/// The crate that the application is written in, from its `Cargo.toml`.
#[derive(Debug)]
pub struct HostCrateInfo {
    /// For example `pax-example`.
    pub name: String,
    /// For example `pax_example`.
    pub identifier: String,
    /// What leads to the re-exports of the crate, for example
    /// `pax_example::pax_reexports::`.
    pub import_prefix: String,
    /// Whether the application is developed inside `pax-example`.
    pub is_lib_dev_mode: bool,
}

/// A property as mathematical values.
#[verifier::ext_equal]
pub struct PropertyView {
    pub name: Seq<char>,
    pub type_id: Seq<char>,
}

/// A type as mathematical values.
#[verifier::ext_equal]
pub struct TypeView {
    pub type_id: Seq<char>,
    pub type_id_escaped: Seq<char>,
    pub import_path: Seq<char>,
    pub property_definitions: Seq<PropertyView>,
}

impl View for PropertyDefinition {
    type V = PropertyView;

    open spec fn view(&self) -> PropertyView {
        PropertyView { name: self.name@, type_id: self.type_id@ }
    }
}

impl View for TypeDefinition {
    type V = TypeView;

    open spec fn view(&self) -> TypeView {
        TypeView {
            type_id: self.type_id@,
            type_id_escaped: self.type_id_escaped@,
            import_path: self.import_path@,
            property_definitions: self.property_definitions@.map_values(
                |p: PropertyDefinition| p@,
            ),
        }
    }
}

impl ComponentDefinition {
    /// The properties of the component, which its type in the table has.
    pub fn get_property_definitions<'a>(&self, type_table: &'a TypeTable) -> (r: &'a Vec<
        PropertyDefinition,
    >)
        requires
            type_table.wf(),
            type_table@.contains_key(self.type_id@),
        ensures
            *r == type_table@[self.type_id@].property_definitions,
    {
        &type_table.get(self.type_id.as_str()).unwrap().property_definitions
    }
}

impl PropertyDefinition {
    /// The type of the property.
    pub fn get_type_definition<'a>(&self, type_table: &'a TypeTable) -> (r: &'a TypeDefinition)
        requires
            type_table.wf(),
            type_table@.contains_key(self.type_id@),
        ensures
            *r == type_table@[self.type_id@],
    {
        type_table.get(self.type_id.as_str()).unwrap()
    }

    /// The same property once more.
    pub fn duplicate(&self) -> (r: PropertyDefinition)
        ensures
            r@ == self@,
    {
        PropertyDefinition { name: self.name.clone(), type_id: self.type_id.clone() }
    }
}

} // verus!
