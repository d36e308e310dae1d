//! What values and blocks of settings become.

use crate::literals::{
    assignments, block_literal, property_expression_text, property_literal_text, qualified_path,
    recurse_literal_block, value_literal, value_text,
};
use crate::manifest::{HostCrateInfo, LiteralBlockDefinition, TypeDefinition, ValueDefinition};
use crate::text::{decimal, replace};
use vstd::prelude::*;
use vstd::string::*;

verus! {

/// A literal stands between `PropertyLiteral::new(` and a bracket, the number of
/// a compiled expression between `PropertyExpression::new(` and a bracket.
pub proof fn literals_and_expressions_are_constructed(
    value: &str,
    id: usize,
    literal: String,
    expression: String,
)
    requires
        call_ensures(property_literal_text, (value,), literal),
        call_ensures(property_expression_text, (id,), expression),
    ensures
        literal@ == "PropertyLiteral::new("@ + value@ + ")"@,
        expression@ == "PropertyExpression::new("@ + decimal(id as nat) + ")"@,
{
}

/// `s` is the constructor call of a value that is no block.
pub open spec fn constructs(value: ValueDefinition, s: Seq<char>) -> bool {
    match value {
        ValueDefinition::LiteralValue(text) => s == "PropertyLiteral::new("@ + text@ + ")"@,
        ValueDefinition::Expression(_, Some(id)) => s == "PropertyExpression::new("@ + decimal(
            id as nat,
        ) + ")"@,
        ValueDefinition::Identifier(_, Some(id)) => s == "PropertyExpression::new("@ + decimal(
            id as nat,
        ) + ")"@,
        _ => true,
    }
}

/// A literal is written as it is; an expression or identifier by the number
/// under which it was compiled.
pub proof fn a_value_is_constructed(value: &ValueDefinition, path: &str, r: String)
    requires
        call_ensures(value_text, (value, path), r),
    ensures
        constructs(*value, r@),
{
}

/// A block is a new value of its type, and its settings are given to that value
/// one by one. A block without settings is the default of its type, which the
/// host crate re-exports.
pub proof fn a_block_without_settings_is_the_default(
    block: &LiteralBlockDefinition,
    type_definition: &TypeDefinition,
    host: &HostCrateInfo,
    r: String,
)
    requires
        call_ensures(recurse_literal_block, (block, type_definition, host), r),
        block.settings_key_value_pairs@.len() == 0,
    ensures
        r@ == "\n{ let mut ret = "@ + host.import_prefix@ + replace(
            type_definition.import_path@,
            "crate::"@,
            Seq::empty(),
        ) + "::default();"@ + "\n ret }"@,
{
    let path = qualified_path(host.import_prefix@, type_definition.import_path@);
    assert(r@ =~= "\n{ let mut ret = "@ + host.import_prefix@ + replace(
        type_definition.import_path@,
        "crate::"@,
        Seq::empty(),
    ) + "::default();"@ + "\n ret }"@);
}

/// One more setting at the end of a block adds one more assignment before the
/// end, and changes nothing else.
pub proof fn a_setting_adds_an_assignment(
    shorter: &LiteralBlockDefinition,
    longer: &LiteralBlockDefinition,
    name: String,
    value: ValueDefinition,
    type_definition: &TypeDefinition,
    host: &HostCrateInfo,
    r: String,
    q: String,
)
    requires
        call_ensures(recurse_literal_block, (shorter, type_definition, host), r),
        call_ensures(recurse_literal_block, (longer, type_definition, host), q),
        longer.settings_key_value_pairs@ == shorter.settings_key_value_pairs@.push((name, value)),
    ensures
        exists|head: Seq<char>, v: Seq<char>|
            {
                &&& r@ == head + "\n ret }"@
                &&& q@ == #[trigger] (head + "\nret."@ + name@ + " = Box::new("@ + v + ");"@)
                    + "\n ret }"@
                &&& constructs(value, v)
            },
{
    let path = qualified_path(host.import_prefix@, type_definition.import_path@);
    let settings = shorter.settings_key_value_pairs@;
    let head = "\n{ let mut ret = "@ + path + "::default();"@ + assignments(settings, path);
    let v = value_literal(value, path);
    assert(settings.push((name, value)).drop_last() =~= settings);
    assert(q@ =~= (head + "\nret."@ + name@ + " = Box::new("@ + v + ");"@) + "\n ret }"@);
    assert(constructs(value, v));
}

/// A block within a block is the literal of what that block becomes by itself.
pub proof fn a_block_within_a_block_is_a_literal(
    shorter: &LiteralBlockDefinition,
    longer: &LiteralBlockDefinition,
    inner: &LiteralBlockDefinition,
    name: String,
    type_definition: &TypeDefinition,
    host: &HostCrateInfo,
    r: String,
    q: String,
    within: String,
)
    requires
        call_ensures(recurse_literal_block, (shorter, type_definition, host), r),
        call_ensures(recurse_literal_block, (longer, type_definition, host), q),
        call_ensures(recurse_literal_block, (inner, type_definition, host), within),
        longer.settings_key_value_pairs@ == shorter.settings_key_value_pairs@.push(
            (name, ValueDefinition::Block(*inner)),
        ),
    ensures
        exists|head: Seq<char>|
            {
                &&& r@ == head + "\n ret }"@
                &&& q@ == #[trigger] (head + "\nret."@ + name@) + " = Box::new("@
                    + "PropertyLiteral::new("@ + within@ + ")"@ + ");"@ + "\n ret }"@
            },
{
    let path = qualified_path(host.import_prefix@, type_definition.import_path@);
    let settings = shorter.settings_key_value_pairs@;
    let value = ValueDefinition::Block(*inner);
    let head = "\n{ let mut ret = "@ + path + "::default();"@ + assignments(settings, path);
    assert(settings.push((name, value)).drop_last() =~= settings);
    assert(value_literal(value, path) == "PropertyLiteral::new("@ + block_literal(*inner, path)
        + ")"@);
    assert(q@ =~= (head + "\nret."@ + name@) + " = Box::new("@ + "PropertyLiteral::new("@ + within@
        + ")"@ + ");"@ + "\n ret }"@);
}

} // verus!
