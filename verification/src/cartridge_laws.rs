//! What a cartridge imports, and which expressions and factories it has.

use crate::cartridge::{
    built_in_imports, by_id, cartridge_imports, cartridge_lib_args, expressions_view,
    formatted_or_generated, generate_cartridge_args, generate_component_factories, has_factory,
    imports, number_order, numbered, renders_factories, sorted_expressions, with_factories,
    TemplateArgsCodegenCartridgeLib,
};
use crate::coproduct_laws::{is_plain_module, lemma_where_reexported};
use crate::factory::{renders_factory, TemplateArgsCodegenCartridgeComponentFactory};
use crate::factory_laws::{describes_component, lemma_rendered_factory};
use crate::manifest::{ComponentDefinition, ExpressionSpec, HostCrateInfo, PaxManifest};
use crate::nesting::modules_around;
use crate::order::{lemma_an_order_exists, ordered};
use crate::render::{presses, TemplateArgsCodegenCartridgeRenderNodeLiteral};
use crate::text::{contains_text, join, occurs_at, replace, replace_without_match, texts};
use crate::text_laws::an_occurrence_is_replaced;
use vstd::prelude::*;
use vstd::relations::total_ordering;
use vstd::string::*;

verus! {

/// What a cartridge imports whatever the application is.
pub open spec fn standard_imports() -> Seq<Seq<char>> {
    seq![
        "std::cell::RefCell"@,
        "std::collections::HashMap"@,
        "std::collections::VecDeque"@,
        "std::ops::Deref"@,
        "std::rc::Rc"@,
        "pax_runtime_api::PropertyInstance"@,
        "pax_runtime_api::PropertyLiteral"@,
        "pax_runtime_api::Size2D"@,
        "pax_runtime_api::Transform2D"@,
        "pax_core::ComponentInstance"@,
        "pax_core::RenderNodePtr"@,
        "pax_core::PropertyExpression"@,
        "pax_core::RenderNodePtrList"@,
        "pax_core::RenderTreeContext"@,
        "pax_core::ExpressionContext"@,
        "pax_core::PaxEngine"@,
        "pax_core::RenderNode"@,
        "pax_core::InstanceRegistry"@,
        "pax_core::HandlerRegistry"@,
        "pax_core::InstantiationArgs"@,
        "pax_core::ConditionalInstance"@,
        "pax_core::SlotInstance"@,
        "pax_core::StackFrame"@,
        "pax_core::pax_properties_coproduct::PropertiesCoproduct"@,
        "pax_core::pax_properties_coproduct::TypesCoproduct"@,
        "pax_core::repeat::RepeatInstance"@,
        "piet_common::RenderContext"@,
    ]
}

/// The list has one line for each path, the re-export of the path by the host
/// crate or nothing where the path is imported anyway, and then what is always
/// imported.
pub open spec fn imports_all(
    paths: Seq<String>,
    identifier: Seq<char>,
    list: Seq<String>,
) -> bool {
    &&& list.len() == paths.len() + standard_imports().len()
    &&& forall|k: int|
        0 <= k < paths.len() ==> {
            &&& standard_imports().contains(paths[k]@) ==> (#[trigger] list[k])@.len() == 0
            &&& !standard_imports().contains(paths[k]@) ==> list[k]@ == identifier
                + "::pax_reexports::"@ + replace(paths[k]@, "crate::"@, Seq::empty())
        }
    &&& forall|k: int|
        0 <= k < standard_imports().len() ==> (#[trigger] standard_imports()[k])
            == list[paths.len() + k]@
}

proof fn lemma_imports(paths: Seq<String>, identifier: Seq<char>, list: Seq<String>)
    requires
        texts(list) == imports(texts(paths), identifier),
    ensures
        imports_all(paths, identifier, list),
{
    assert(standard_imports() =~= built_in_imports());
    let model = imports(texts(paths), identifier);
    assert(texts(list).len() == list.len());
    assert forall|k: int| 0 <= k < paths.len() implies {
        &&& standard_imports().contains(paths[k]@) ==> (#[trigger] list[k])@.len() == 0
        &&& !standard_imports().contains(paths[k]@) ==> list[k]@ == identifier
            + "::pax_reexports::"@ + replace(paths[k]@, "crate::"@, Seq::empty())
    } by {
        assert(texts(list)[k] == list[k]@);
        assert(texts(paths)[k] == paths[k]@);
        assert(model[k] == list[k]@);
    }
    assert forall|k: int| 0 <= k < standard_imports().len() implies (
    #[trigger] standard_imports()[k]) == list[paths.len() + k]@ by {
        assert(texts(list)[paths.len() + k] == list[paths.len() + k]@);
        assert(model[paths.len() + k] == built_in_imports()[k]);
    }
}

/// A cartridge imports what the application imports, as the host crate
/// re-exports it, and what every cartridge imports.
pub proof fn a_cartridge_imports_all(paths: &Vec<String>, identifier: &str, r: Vec<String>)
    requires
        call_ensures(cartridge_imports, (paths, identifier), r),
    ensures
        imports_all(paths@, identifier@, r@),
{
    lemma_imports(paths@, identifier@, r@);
}

/// What the cartridge imports for a path is where the module of re-exports
/// re-exports it.
pub proof fn an_import_is_found_where_it_is_reexported(module: Seq<char>, last: Seq<char>)
    requires
        is_plain_module(module),
        is_plain_module(module + "::"@ + last),
        !last.contains(':'),
    ensures
        replace(module + "::"@ + last, "crate::"@, Seq::empty()) == join(
            modules_around(module + "::"@ + last).push(last),
            "::"@,
        ),
{
    let path = module + "::"@ + last;
    lemma_where_reexported(module, last);
    if contains_text(path, "crate::"@) {
        let rest = choose|rest: Seq<char>|
            path == #[trigger] ("crate::"@ + rest) && !contains_text(rest, "crate::"@);
        lemma_import_below_the_root(module, last, rest);
    } else {
        lemma_import_of_another_crate(module, last);
    }
}

/// What does not occur in a text does not occur in a part of it.
proof fn lemma_part_without(whole: Seq<char>, before: Seq<char>, part: Seq<char>, p: Seq<char>)
    requires
        before.len() + part.len() <= whole.len(),
        part == whole.subrange(before.len() as int, (before.len() + part.len()) as int),
        !contains_text(whole, p),
    ensures
        !contains_text(part, p),
{
    if contains_text(part, p) {
        let i = choose|i: int| occurs_at(part, p, i);
        let j = before.len() + i;
        assert(whole.subrange(j, j + p.len()) =~= part.subrange(i, i + p.len()));
        assert(occurs_at(whole, p, j));
    }
}

proof fn lemma_import_of_another_crate(module: Seq<char>, last: Seq<char>)
    requires
        !contains_text(module + "::"@ + last, "crate::"@),
    ensures
        module != "crate"@,
        replace(module + "::"@ + last, "crate::"@, Seq::empty()) == replace(
            module,
            "crate::"@,
            Seq::empty(),
        ) + "::"@ + last,
{
    reveal_strlit("crate");
    reveal_strlit("crate::");
    reveal_strlit("::");
    let path = module + "::"@ + last;
    replace_without_match(path, "crate::"@, Seq::empty());
    assert(module =~= path.subrange(0, module.len() as int));
    lemma_part_without(path, Seq::empty(), module, "crate::"@);
    replace_without_match(module, "crate::"@, Seq::empty());
    if module == "crate"@ {
        assert(path.subrange(0, 7) =~= "crate::"@);
        assert(occurs_at(path, "crate::"@, 0));
    }
}

proof fn lemma_import_below_the_root(module: Seq<char>, last: Seq<char>, rest: Seq<char>)
    requires
        module.len() > 0,
        module.last() != ':',
        module + "::"@ + last == "crate::"@ + rest,
        !contains_text(rest, "crate::"@),
    ensures
        replace(module + "::"@ + last, "crate::"@, Seq::empty()) == (if module == "crate"@ {
            last
        } else {
            replace(module, "crate::"@, Seq::empty()) + "::"@ + last
        }),
{
    let path = module + "::"@ + last;
    let pat = "crate::"@;
    lemma_replaced_at_the_root(rest);
    if module == "crate"@ {
        lemma_root_last(last, rest);
    } else {
        lemma_module_below_the_root(module, last, rest);
        let inner = module.skip(7);
        reveal_strlit("::");
        assert(inner =~= rest.subrange(0, inner.len() as int));
        lemma_part_without(rest, Seq::empty(), inner, pat);
        lemma_replaced_at_the_root(inner);
    }
}

proof fn lemma_replaced_at_the_root(rest: Seq<char>)
    requires
        !contains_text(rest, "crate::"@),
    ensures
        replace("crate::"@ + rest, "crate::"@, Seq::empty()) == rest,
{
    reveal_strlit("crate::");
    let none = Seq::<char>::empty();
    let pat = "crate::"@;
    assert(none + pat + rest =~= pat + rest);
    an_occurrence_is_replaced(none, pat, rest, none);
    replace_without_match(rest, pat, none);
    assert(replace(pat + rest, pat, none) =~= rest);
}

proof fn lemma_root_last(last: Seq<char>, rest: Seq<char>)
    requires
        "crate"@ + "::"@ + last == "crate::"@ + rest,
    ensures
        rest == last,
{
    reveal_strlit("crate");
    reveal_strlit("crate::");
    reveal_strlit("::");
    assert(("crate"@ + "::"@ + last).skip(7) =~= last);
    assert(("crate::"@ + rest).skip(7) =~= rest);
}

proof fn lemma_module_below_the_root(module: Seq<char>, last: Seq<char>, rest: Seq<char>)
    requires
        module.len() > 0,
        module.last() != ':',
        module != "crate"@,
        module + "::"@ + last == "crate::"@ + rest,
    ensures
        module.len() >= 7,
        module == "crate::"@ + module.skip(7),
        rest == module.skip(7) + "::"@ + last,
{
    reveal_strlit("crate");
    reveal_strlit("crate::");
    reveal_strlit("::");
    let path = module + "::"@ + last;
    let n = module.len() as int;
    let pat = "crate::"@;
    assert(path[n] == ':');
    assert(path[n + 1] == ':');
    if n < 7 {
        assert(path[n] == pat[n]);
        if n == 5 {
            assert forall|i: int| 0 <= i < 5 implies module[i] == "crate"@[i] by {
                assert(module[i] == path[i]);
                assert(path[i] == pat[i]);
            }
            assert(module =~= "crate"@);
        } else if n == 6 {
            assert(module[5] == path[5]);
            assert(path[5] == pat[5]);
        }
    }
    assert(path.skip(7) =~= rest);
    assert(path.skip(7) =~= module.skip(7) + "::"@ + last);
    assert forall|i: int| 0 <= i < 7 implies module[i] == pat[i] by {
        assert(module[i] == path[i]);
        assert(path[i] == pat[i]);
    }
    assert(module =~= pat + module.skip(7));
}

/// The list is the given one in the order of the ids; expressions with one id
/// stay in the order that they had.
pub open spec fn is_sorted_from(
    es: Seq<ExpressionSpec>,
    r: Seq<ExpressionSpec>,
    positions: Seq<int>,
) -> bool {
    &&& r.len() == es.len()
    &&& positions.len() == es.len()
    &&& forall|i: int|
        0 <= i < r.len() ==> {
            &&& 0 <= #[trigger] positions[i] < es.len()
            &&& r[i].id == es[positions[i]].id
            &&& r[i].output_statement@ == es[positions[i]].output_statement@
        }
    &&& forall|i: int, j: int|
        0 <= i < j < r.len() ==> {
            let a = es[#[trigger] positions[i]].id;
            let b = es[#[trigger] positions[j]].id;
            a < b || (a == b && positions[i] < positions[j])
        }
}

proof fn lemma_sorted(es: Seq<ExpressionSpec>, r: Seq<ExpressionSpec>)
    requires
        es.len() <= usize::MAX,
        expressions_view(r) == by_id(es),
    ensures
        exists|positions: Seq<int>| is_sorted_from(es, r, positions),
{
    let unsorted = Seq::new(es.len(), |i: int| (es[i].id, i as usize));
    let d = numbered(es);
    assert(unsorted.to_set() =~= d) by {
        assert forall|p: (usize, usize)| unsorted.to_set().contains(p) <==> d.contains(p) by {
            if d.contains(p) {
                assert(unsorted[p.1 as int] == p);
            }
        }
    }
    assert(d.finite());
    assert(total_ordering(number_order()));
    lemma_an_order_exists(d, number_order());
    let sorted = ordered(d, number_order());
    assert(sorted.len() == es.len()) by {
        assert(unsorted.no_duplicates());
        unsorted.unique_seq_to_set();
        sorted.unique_seq_to_set();
    }
    let positions = sorted.map_values(|p: (usize, usize)| p.1 as int);
    assert(expressions_view(r).len() == r.len());
    assert forall|i: int| 0 <= i < sorted.len() implies (#[trigger] sorted[i]).1 < es.len()
        && sorted[i].0 == es[sorted[i].1 as int].id by {
        assert(sorted.to_set().contains(sorted[i]));
    }
    assert forall|i: int| 0 <= i < r.len() implies {
        &&& 0 <= #[trigger] positions[i] < es.len()
        &&& r[i].id == es[positions[i]].id
        &&& r[i].output_statement@ == es[positions[i]].output_statement@
    } by {
        assert(expressions_view(r)[i] == r[i]@);
        assert(by_id(es)[i] == es[sorted[i].1 as int]@);
    }
    assert forall|i: int, j: int| 0 <= i < j < r.len() implies {
        let a = es[#[trigger] positions[i]].id;
        let b = es[#[trigger] positions[j]].id;
        a < b || (a == b && positions[i] < positions[j])
    } by {
        let le = number_order();
        assert(le(sorted[i], sorted[j]));
        assert(sorted[i] != sorted[j]);
    }
    assert(is_sorted_from(es, r, positions));
}

/// The expressions are sorted by their ids, and none is lost or doubled.
pub proof fn expressions_are_sorted(es: &Vec<ExpressionSpec>, r: Vec<ExpressionSpec>)
    requires
        es@.len() <= usize::MAX,
        call_ensures(sorted_expressions, (es,), r),
    ensures
        exists|positions: Seq<int>| is_sorted_from(es@, r@, positions),
{
    lemma_sorted(es@, r@);
}

/// The text is what the press makes of the component.
pub open spec fn is_factory_of<
    C: Fn(TemplateArgsCodegenCartridgeComponentFactory) -> String,
>(press_factory: C, manifest: PaxManifest, cd: ComponentDefinition, s: Seq<char>) -> bool {
    exists|args: TemplateArgsCodegenCartridgeComponentFactory, q: String|
        {
            &&& #[trigger] presses(press_factory, args, q)
            &&& q@ == s
            &&& describes_component(args, manifest, cd)
        }
}

/// The texts are the factories of all components but the primitive ones and those
/// that are no more than a struct, in the order of the components.
pub open spec fn are_factories_of<
    C: Fn(TemplateArgsCodegenCartridgeComponentFactory) -> String,
>(
    press_factory: C,
    manifest: PaxManifest,
    list: Seq<String>,
    positions: Seq<int>,
) -> bool {
    let entries = manifest.components.entries@;
    &&& list.len() == positions.len()
    &&& forall|j: int|
        0 <= j < positions.len() ==> {
            &&& 0 <= #[trigger] positions[j] < entries.len()
            &&& !entries[positions[j]].1.is_primitive
            &&& !entries[positions[j]].1.is_struct_only_component
            &&& is_factory_of(press_factory, manifest, entries[positions[j]].1, list[j]@)
        }
    &&& forall|j: int, k: int|
        0 <= j < k < positions.len() ==> #[trigger] positions[j] < #[trigger] positions[k]
    &&& forall|i: int|
        0 <= i < entries.len() && !(#[trigger] entries[i]).1.is_primitive
            && !entries[i].1.is_struct_only_component ==> positions.contains(i)
}

/// Where the components with factories stand among the first `n`.
spec fn factory_positions(entries: Seq<(String, ComponentDefinition)>) -> Seq<int>
    decreases entries.len(),
{
    if entries.len() == 0 {
        Seq::empty()
    } else {
        let earlier = factory_positions(entries.drop_last());
        if has_factory(entries.last().1) {
            earlier.push(entries.len() - 1)
        } else {
            earlier
        }
    }
}

proof fn lemma_factory_positions(entries: Seq<(String, ComponentDefinition)>)
    ensures
        ({
            let p = factory_positions(entries);
            &&& p.len() == with_factories(entries).len()
            &&& forall|j: int|
                0 <= j < p.len() ==> {
                    &&& 0 <= #[trigger] p[j] < entries.len()
                    &&& !entries[p[j]].1.is_primitive
                    &&& !entries[p[j]].1.is_struct_only_component
                    &&& with_factories(entries)[j] == entries[p[j]].1
                }
            &&& forall|j: int, k: int| 0 <= j < k < p.len() ==> #[trigger] p[j] < #[trigger] p[k]
            &&& forall|i: int|
                0 <= i < entries.len() && !(#[trigger] entries[i]).1.is_primitive
                    && !entries[i].1.is_struct_only_component ==> p.contains(i)
        }),
    decreases entries.len(),
{
    if entries.len() > 0 {
        let shorter = entries.drop_last();
        let n = entries.len() - 1;
        lemma_factory_positions(shorter);
        let q = factory_positions(shorter);
        let p = factory_positions(entries);
        assert(entries[n] == entries.last());
        assert forall|j: int| 0 <= j < p.len() implies {
            &&& 0 <= #[trigger] p[j] < entries.len()
            &&& !entries[p[j]].1.is_primitive
            &&& !entries[p[j]].1.is_struct_only_component
            &&& with_factories(entries)[j] == entries[p[j]].1
        } by {
            if j < q.len() {
                assert(p[j] == q[j]);
                assert(shorter[q[j]] == entries[q[j]]);
                assert(with_factories(entries)[j] == with_factories(shorter)[j]);
            }
        }
        assert forall|j: int, k: int| 0 <= j < k < p.len() implies #[trigger] p[j]
            < #[trigger] p[k] by {
            assert(p[j] == q[j]);
            if k < q.len() {
                assert(p[k] == q[k]);
            }
        }
        assert forall|i: int|
            0 <= i < entries.len() && !(#[trigger] entries[i]).1.is_primitive
                && !entries[i].1.is_struct_only_component implies p.contains(i) by {
            if i < n {
                assert(shorter[i] == entries[i]);
                assert(q.contains(i));
                let j = choose|j: int| 0 <= j < q.len() && q[j] == i;
                assert(p[j] == i);
            } else {
                assert(p[q.len() as int] == n);
            }
        }
    }
}

proof fn lemma_factories<
    N: Fn(TemplateArgsCodegenCartridgeRenderNodeLiteral) -> String,
    C: Fn(TemplateArgsCodegenCartridgeComponentFactory) -> String,
>(
    press_node: N,
    press_factory: C,
    manifest: PaxManifest,
    import_prefix: Seq<char>,
    list: Seq<String>,
)
    requires
        renders_factories(
            press_node,
            press_factory,
            manifest,
            with_factories(manifest.components.entries@),
            import_prefix,
            texts(list),
        ),
    ensures
        exists|positions: Seq<int>| are_factories_of(press_factory, manifest, list, positions),
{
    let entries = manifest.components.entries@;
    let positions = factory_positions(entries);
    let components = with_factories(entries);
    lemma_factory_positions(entries);
    assert(texts(list).len() == list.len());
    assert forall|j: int| 0 <= j < positions.len() implies {
        &&& 0 <= #[trigger] positions[j] < entries.len()
        &&& !entries[positions[j]].1.is_primitive
        &&& !entries[positions[j]].1.is_struct_only_component
        &&& is_factory_of(press_factory, manifest, entries[positions[j]].1, list[j]@)
    } by {
        let cd = components[j];
        assert(renders_factory(
            press_node,
            press_factory,
            manifest,
            cd,
            import_prefix,
            texts(list)[j],
        ));
        assert(texts(list)[j] == list[j]@);
        lemma_rendered_factory(
            press_node,
            press_factory,
            manifest,
            cd,
            import_prefix,
            list[j]@,
        );
    }
    assert(are_factories_of(press_factory, manifest, list, positions));
}

/// Every component has its factory, but for the primitive ones and those that are
/// no more than a struct; the factories stand in the order of the components.
pub proof fn every_component_has_its_factory<
    N: Fn(TemplateArgsCodegenCartridgeRenderNodeLiteral) -> String,
    C: Fn(TemplateArgsCodegenCartridgeComponentFactory) -> String,
>(
    manifest: &PaxManifest,
    host: &HostCrateInfo,
    press_node: &N,
    press_factory: &C,
    r: Vec<String>,
)
    requires
        call_ensures(
            generate_component_factories::<N, C>,
            (manifest, host, press_node, press_factory),
            r,
        ),
    ensures
        exists|positions: Seq<int>| are_factories_of(*press_factory, *manifest, r@, positions),
{
    lemma_factories(*press_node, *press_factory, *manifest, host.import_prefix@, r@);
}

/// A cartridge is pressed from the imports, the expressions and the factories of
/// the application.
pub proof fn a_cartridge_is_pressed_from_its_application<
    N: Fn(TemplateArgsCodegenCartridgeRenderNodeLiteral) -> String,
    C: Fn(TemplateArgsCodegenCartridgeComponentFactory) -> String,
>(
    manifest: &PaxManifest,
    host: &HostCrateInfo,
    press_node: &N,
    press_factory: &C,
    r: TemplateArgsCodegenCartridgeLib,
)
    requires
        manifest.expression_specs matches Some(es) && es@.len() <= usize::MAX,
        call_ensures(
            generate_cartridge_args::<N, C>,
            (manifest, host, press_node, press_factory),
            r,
        ),
    ensures
        imports_all(manifest.import_paths@, host.identifier@, r.imports@),
        r.consts@.len() == 0,
        exists|positions: Seq<int>|
            is_sorted_from(manifest.expression_specs->0@, r.expression_specs@, positions),
        exists|positions: Seq<int>|
            are_factories_of(
                *press_factory,
                *manifest,
                r.component_factories_literal@,
                positions,
            ),
{
    lemma_imports(manifest.import_paths@, host.identifier@, r.imports@);
    lemma_sorted(manifest.expression_specs->0@, r.expression_specs@);
    lemma_factories(
        *press_node,
        *press_factory,
        *manifest,
        host.import_prefix@,
        r.component_factories_literal@,
    );
}

/// With given factories, the rest is as for the whole application.
pub proof fn a_cartridge_takes_given_factories(
    manifest: &PaxManifest,
    host: &HostCrateInfo,
    factories: Vec<String>,
    r: TemplateArgsCodegenCartridgeLib,
)
    requires
        manifest.expression_specs matches Some(es) && es@.len() <= usize::MAX,
        call_ensures(cartridge_lib_args, (manifest, host, factories), r),
    ensures
        imports_all(manifest.import_paths@, host.identifier@, r.imports@),
        r.consts@.len() == 0,
        exists|positions: Seq<int>|
            is_sorted_from(manifest.expression_specs->0@, r.expression_specs@, positions),
        r.component_factories_literal == factories,
{
    lemma_imports(manifest.import_paths@, host.identifier@, r.imports@);
    lemma_sorted(manifest.expression_specs->0@, r.expression_specs@);
}

/// Formatted code is taken where there is any.
pub proof fn formatted_code_is_preferred(
    generated: String,
    formatted: Option<String>,
    r: String,
)
    requires
        call_ensures(formatted_or_generated, (generated, formatted), r),
    ensures
        formatted matches Some(out) ==> r@ == out@,
        formatted is None ==> r@ == generated@,
{
}

} // verus!
