//! Values of settings as Rust expressions.

use crate::manifest::{HostCrateInfo, LiteralBlockDefinition, TypeDefinition, ValueDefinition};
use crate::text::{decimal, decimal_text, replace, replace_text};
use vstd::prelude::*;
use vstd::string::*;

verus! {

/// The expression of a literal.
pub open spec fn property_literal(value: Seq<char>) -> Seq<char> {
    "PropertyLiteral::new("@ + value + ")"@
}

/// The expression of the compiled expression `id`.
pub open spec fn property_expression(id: nat) -> Seq<char> {
    "PropertyExpression::new("@ + decimal(id) + ")"@
}

/// The value can stand in a setting that is no event: all expressions in it
/// are compiled, and it binds no event.
pub open spec fn expressible(value: ValueDefinition) -> bool
    decreases value,
{
    match value {
        ValueDefinition::LiteralValue(_) => true,
        ValueDefinition::Expression(_, id) => id is Some,
        ValueDefinition::Identifier(_, id) => id is Some,
        ValueDefinition::Block(block) => forall|i: int|
            0 <= i < block.settings_key_value_pairs.len() ==> expressible(
                (#[trigger] block.settings_key_value_pairs[i]).1,
            ),
        ValueDefinition::EventBindingTarget(_) => false,
    }
}

/// All values of the block can stand in it.
pub open spec fn expressible_block(block: LiteralBlockDefinition) -> bool {
    forall|i: int|
        0 <= i < block.settings_key_value_pairs.len() ==> expressible(
            (#[trigger] block.settings_key_value_pairs[i]).1,
        )
}

/// Where the type of a block is found.
pub open spec fn qualified_path(import_prefix: Seq<char>, import_path: Seq<char>) -> Seq<char> {
    import_prefix + replace(import_path, "crate::"@, Seq::empty())
}

/// The expression of a value. A block is a value of the type that `path` leads
/// to.
pub open spec fn value_literal(value: ValueDefinition, path: Seq<char>) -> Seq<char>
    decreases value,
{
    match value {
        ValueDefinition::LiteralValue(s) => property_literal(s@),
        ValueDefinition::Expression(_, id) => property_expression(id.unwrap() as nat),
        ValueDefinition::Identifier(_, id) => property_expression(id.unwrap() as nat),
        ValueDefinition::Block(block) => property_literal(block_literal(block, path)),
        ValueDefinition::EventBindingTarget(_) => Seq::empty(),
    }
}

/// The statements that give a new value its settings, one after the other.
pub open spec fn assignments(settings: Seq<(String, ValueDefinition)>, path: Seq<char>) -> Seq<char>
    decreases settings,
{
    if settings.len() == 0 {
        Seq::empty()
    } else {
        assignments(settings.drop_last(), path) + "\nret."@ + settings.last().0@ + " = Box::new("@
            + value_literal(settings.last().1, path) + ");"@
    }
}

/// The expression of a block: a new value of the type that `path` leads to,
/// with the settings of the block.
pub open spec fn block_literal(block: LiteralBlockDefinition, path: Seq<char>) -> Seq<char>
    decreases block,
{
    "\n{ let mut ret = "@ + path + "::default();"@ + assignments(
        block.settings_key_value_pairs@,
        path,
    ) + "\n ret }"@
}

/// The expression of a literal.
pub fn property_literal_text(value: &str) -> (r: String)
    ensures
        r@ == property_literal(value@),
{
    String::from_str("PropertyLiteral::new(").concat(value).concat(")")
}

/// The expression of the compiled expression `id`.
pub fn property_expression_text(id: usize) -> (r: String)
    ensures
        r@ == property_expression(id as nat),
{
    String::from_str("PropertyExpression::new(").concat(decimal_text(id).as_str()).concat(")")
}

/// The expression of a value.
pub fn value_text(value: &ValueDefinition, path: &str) -> (r: String)
    requires
        expressible(*value),
    ensures
        r@ == value_literal(*value, path@),
    decreases value,
{
    match value {
        ValueDefinition::LiteralValue(s) => property_literal_text(s.as_str()),
        ValueDefinition::Expression(_, id) => property_expression_text(id.unwrap()),
        ValueDefinition::Identifier(_, id) => property_expression_text(id.unwrap()),
        ValueDefinition::Block(block) => property_literal_text(block_text(block, path).as_str()),
        ValueDefinition::EventBindingTarget(_) => String::new(),
    }
}

/// The expression of a block.
fn block_text(block: &LiteralBlockDefinition, path: &str) -> (r: String)
    requires
        expressible_block(*block),
    ensures
        r@ == block_literal(*block, path@),
    decreases block,
{
    let mut r: String = String::from_str("\n{ let mut ret = ");
    r.append(path);
    r.append("::default();");
    let ghost head = r@;
    let ghost settings = block.settings_key_value_pairs@;
    let mut i: usize = 0;
    assert(r@ =~= head + assignments(settings.take(0), path@));
    while i < block.settings_key_value_pairs.len()
        invariant
            expressible_block(*block),
            settings == block.settings_key_value_pairs@,
            i <= settings.len(),
            r@ == head + assignments(settings.take(i as int), path@),
        decreases settings.len() - i,
    {
        let value: String = value_text(&block.settings_key_value_pairs[i].1, path);
        r.append("\nret.");
        r.append(block.settings_key_value_pairs[i].0.as_str());
        r.append(" = Box::new(");
        r.append(value.as_str());
        r.append(");");
        proof {
            assert(settings.take(i + 1).drop_last() =~= settings.take(i as int));
            assert(r@ =~= head + assignments(settings.take(i + 1), path@));
        }
        i += 1;
    }
    assert(settings.take(settings.len() as int) =~= settings);
    r.append("\n ret }");
    r
}

/// The expression of a block of the given type. A block within the block has
/// the same type.
pub fn recurse_literal_block(
    block: &LiteralBlockDefinition,
    type_definition: &TypeDefinition,
    host_crate_info: &HostCrateInfo,
) -> (r: String)
    requires
        expressible_block(*block),
    ensures
        r@ == block_literal(
            *block,
            qualified_path(host_crate_info.import_prefix@, type_definition.import_path@),
        ),
{
    proof {
        reveal_strlit("crate::");
        reveal_strlit("");
        assert(""@ =~= Seq::<char>::empty());
    }
    let import_path: String = replace_text(type_definition.import_path.as_str(), "crate::", "");
    let path: String = host_crate_info.import_prefix.clone().concat(import_path.as_str());
    block_text(block, path.as_str())
}

} // verus!
