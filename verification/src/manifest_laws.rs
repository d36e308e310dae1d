//! Types, properties and expressions of a manifest.

use crate::manifest::{
    ComponentDefinition, ExpressionSpec, PropertyDefinition, TypeDefinition, TypeTable,
};
use crate::table_laws::{has_entry, lemma_entry};
use vstd::prelude::*;

verus! {

/// A component has the properties of the type that the table has under its id.
pub proof fn a_component_has_the_properties_of_its_type(
    cd: &ComponentDefinition,
    types: &TypeTable,
    t: TypeDefinition,
    r: &Vec<PropertyDefinition>,
)
    requires
        types.wf(),
        has_entry(*types, cd.type_id@, t),
        call_ensures(ComponentDefinition::get_property_definitions, (cd, types), r),
    ensures
        *r == t.property_definitions,
{
    lemma_entry(*types, cd.type_id@, t);
}

/// A property has the type that the table has under its id.
pub proof fn a_property_has_the_type_of_its_id(
    property: &PropertyDefinition,
    types: &TypeTable,
    t: TypeDefinition,
    r: &TypeDefinition,
)
    requires
        types.wf(),
        has_entry(*types, property.type_id@, t),
        call_ensures(PropertyDefinition::get_type_definition, (property, types), r),
    ensures
        *r == t,
{
    lemma_entry(*types, property.type_id@, t);
}

/// A duplicate has the name and the type of the property.
pub proof fn a_duplicate_is_the_same_property(
    property: &PropertyDefinition,
    r: PropertyDefinition,
)
    requires
        call_ensures(PropertyDefinition::duplicate, (property,), r),
    ensures
        r.name@ == property.name@,
        r.type_id@ == property.type_id@,
{
    assert(r@ == property@);
}

/// A duplicate has the number and the statement of the expression.
pub proof fn a_duplicate_is_the_same_expression(expression: &ExpressionSpec, r: ExpressionSpec)
    requires
        call_ensures(ExpressionSpec::duplicate, (expression,), r),
    ensures
        r.id == expression.id,
        r.output_statement@ == expression.output_statement@,
{
    assert(r@ == expression@);
}

} // verus!
