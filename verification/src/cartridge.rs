//! The cartridge: the imports, the expressions and the component factories of
//! an application.

use crate::factory::{
    generate_cartridge_component_factory_literal, renders_factory,
    TemplateArgsCodegenCartridgeComponentFactory,
};
use crate::manifest::{ComponentDefinition, ExpressionSpec, HostCrateInfo, PaxManifest};
use crate::order::{
    lemma_an_order_exists, lemma_ordered_is_unique, lemma_permutation, lemma_same_multiset,
    ordered,
};
use crate::render::TemplateArgsCodegenCartridgeRenderNodeLiteral;
use crate::text::{replace, replace_text, same_text, texts};
use itertools::Itertools;
use vstd::prelude::*;
use vstd::relations::{sorted_by, total_ordering};
use vstd::string::*;

verus! {

/// What the cartridge is pressed from.
#[derive(Debug)]
pub struct TemplateArgsCodegenCartridgeLib {
    pub imports: Vec<String>,
    pub consts: Vec<String>,
    pub expression_specs: Vec<ExpressionSpec>,
    pub component_factories_literal: Vec<String>,
}

/// A compiled expression as mathematical values.
#[verifier::ext_equal]
pub struct ExpressionView {
    pub id: int,
    pub output_statement: Seq<char>,
}

impl View for ExpressionSpec {
    type V = ExpressionView;

    open spec fn view(&self) -> ExpressionView {
        ExpressionView { id: self.id as int, output_statement: self.output_statement@ }
    }
}

/// Compiled expressions as mathematical values.
pub open spec fn expressions_view(s: Seq<ExpressionSpec>) -> Seq<ExpressionView> {
    s.map_values(|e: ExpressionSpec| e@)
}

/// What every cartridge imports.
pub open spec fn built_in_imports() -> Seq<Seq<char>> {
    seq![
        "std::cell::RefCell"@,
        "std::collections::HashMap"@,
        "std::collections::VecDeque"@,
        "std::ops::Deref"@,
        "std::rc::Rc"@,
        "pax_runtime_api::PropertyInstance"@,
        "pax_runtime_api::PropertyLiteral"@,
        "pax_runtime_api::Size2D"@,
        "pax_runtime_api::Transform2D"@,
        "pax_core::ComponentInstance"@,
        "pax_core::RenderNodePtr"@,
        "pax_core::PropertyExpression"@,
        "pax_core::RenderNodePtrList"@,
        "pax_core::RenderTreeContext"@,
        "pax_core::ExpressionContext"@,
        "pax_core::PaxEngine"@,
        "pax_core::RenderNode"@,
        "pax_core::InstanceRegistry"@,
        "pax_core::HandlerRegistry"@,
        "pax_core::InstantiationArgs"@,
        "pax_core::ConditionalInstance"@,
        "pax_core::SlotInstance"@,
        "pax_core::StackFrame"@,
        "pax_core::pax_properties_coproduct::PropertiesCoproduct"@,
        "pax_core::pax_properties_coproduct::TypesCoproduct"@,
        "pax_core::repeat::RepeatInstance"@,
        "piet_common::RenderContext"@,
    ]
}

/// What the cartridge imports for a path that the application imports: its
/// re-export by the host crate, or nothing where the cartridge imports the
/// path anyway.
pub open spec fn import_of(path: Seq<char>, identifier: Seq<char>) -> Seq<char> {
    if built_in_imports().contains(path) {
        Seq::empty()
    } else {
        identifier + "::pax_reexports::"@ + replace(path, "crate::"@, Seq::empty())
    }
}

/// What the cartridge imports.
pub open spec fn imports(paths: Seq<Seq<char>>, identifier: Seq<char>) -> Seq<Seq<char>> {
    paths.map_values(|path: Seq<char>| import_of(path, identifier)) + built_in_imports()
}

/// Numbers with positions are ordered by the numbers, then by the positions.
pub open spec fn number_order() -> spec_fn((usize, usize), (usize, usize)) -> bool {
    |a: (usize, usize), b: (usize, usize)| a.0 < b.0 || (a.0 == b.0 && a.1 <= b.1)
}

/// The ids of the expressions, each with its position.
pub open spec fn numbered(es: Seq<ExpressionSpec>) -> Set<(usize, usize)> {
    Set::new(|p: (usize, usize)| p.1 < es.len() && p.0 == es[p.1 as int].id)
}

/// The expressions in the order of their ids. Where two have the same id, the
/// first stays first.
pub open spec fn by_id(es: Seq<ExpressionSpec>) -> Seq<ExpressionView> {
    ordered(numbered(es), number_order()).map_values(|p: (usize, usize)| es[p.1 as int]@)
}

/// Whether a component has a factory.
pub open spec fn has_factory(cd: ComponentDefinition) -> bool {
    !cd.is_primitive && !cd.is_struct_only_component
}

/// The components that have factories.
pub open spec fn with_factories(entries: Seq<(String, ComponentDefinition)>) -> Seq<
    ComponentDefinition,
>
    decreases entries.len(),
{
    if entries.len() == 0 {
        Seq::empty()
    } else {
        let earlier = with_factories(entries.drop_last());
        if has_factory(entries.last().1) {
            earlier.push(entries.last().1)
        } else {
            earlier
        }
    }
}

/// `Itertools::sorted` on pairs of numbers: the same pairs in ascending order,
/// each as often as before. Pairs are ordered by their first, then by their
/// second numbers.
#[verifier::external_body]
fn sorted_pairs(items: Vec<(usize, usize)>) -> (r: Vec<(usize, usize)>)
    ensures
        sorted_by(r@, number_order()),
        r@.to_multiset() == items@.to_multiset(),
{
    items.into_iter().sorted().collect()
}

/// What every cartridge imports.
fn built_in_import_paths() -> (r: Vec<&'static str>)
    ensures
        r@.map_values(|s: &'static str| s@) == built_in_imports(),
{
    let r: Vec<&'static str> =
        vec![
        "std::cell::RefCell",
        "std::collections::HashMap",
        "std::collections::VecDeque",
        "std::ops::Deref",
        "std::rc::Rc",
        "pax_runtime_api::PropertyInstance",
        "pax_runtime_api::PropertyLiteral",
        "pax_runtime_api::Size2D",
        "pax_runtime_api::Transform2D",
        "pax_core::ComponentInstance",
        "pax_core::RenderNodePtr",
        "pax_core::PropertyExpression",
        "pax_core::RenderNodePtrList",
        "pax_core::RenderTreeContext",
        "pax_core::ExpressionContext",
        "pax_core::PaxEngine",
        "pax_core::RenderNode",
        "pax_core::InstanceRegistry",
        "pax_core::HandlerRegistry",
        "pax_core::InstantiationArgs",
        "pax_core::ConditionalInstance",
        "pax_core::SlotInstance",
        "pax_core::StackFrame",
        "pax_core::pax_properties_coproduct::PropertiesCoproduct",
        "pax_core::pax_properties_coproduct::TypesCoproduct",
        "pax_core::repeat::RepeatInstance",
        "piet_common::RenderContext",
    ];
    assert(r@.map_values(|s: &'static str| s@) =~= built_in_imports());
    r
}

fn is_among(path: &str, paths: &Vec<&'static str>) -> (r: bool)
    ensures
        r == paths@.map_values(|s: &'static str| s@).contains(path@),
{
    let ghost views = paths@.map_values(|s: &'static str| s@);
    let mut i: usize = 0;
    while i < paths.len()
        invariant
            views == paths@.map_values(|s: &'static str| s@),
            i <= paths@.len(),
            forall|j: int| 0 <= j < i ==> #[trigger] views[j] != path@,
        decreases paths@.len() - i,
    {
        if same_text(paths[i], path) {
            assert(views[i as int] == path@);
            return true;
        }
        i += 1;
    }
    false
}

/// What the cartridge of an application with these imports imports.
pub fn cartridge_imports(import_paths: &Vec<String>, identifier: &str) -> (r: Vec<String>)
    ensures
        texts(r@) == imports(texts(import_paths@), identifier@),
{
    proof {
        reveal_strlit("crate::");
        reveal_strlit("");
        assert(""@ =~= Seq::<char>::empty());
    }
    let built_ins: Vec<&'static str> = built_in_import_paths();
    let ghost fixed = built_ins@.map_values(|s: &'static str| s@);
    let mut r: Vec<String> = Vec::new();
    let mut i: usize = 0;
    while i < import_paths.len()
        invariant
            "crate::"@.len() > 0,
            ""@ == Seq::<char>::empty(),
            fixed == built_in_imports(),
            fixed == built_ins@.map_values(|s: &'static str| s@),
            i <= import_paths@.len(),
            r@.len() == i,
            forall|j: int|
                0 <= j < i ==> (#[trigger] r@[j])@ == import_of(import_paths@[j]@, identifier@),
        decreases import_paths@.len() - i,
    {
        let path: &str = import_paths[i].as_str();
        if is_among(path, &built_ins) {
            r.push(String::from_str(""));
        } else {
            let mut line: String = String::from_str(identifier);
            line.append("::pax_reexports::");
            let relative: String = replace_text(path, "crate::", "");
            line.append(relative.as_str());
            r.push(line);
        }
        i += 1;
    }
    let mut k: usize = 0;
    while k < built_ins.len()
        invariant
            fixed == built_in_imports(),
            fixed == built_ins@.map_values(|s: &'static str| s@),
            k <= built_ins@.len(),
            r@.len() == import_paths@.len() + k,
            forall|j: int|
                0 <= j < import_paths@.len() ==> (#[trigger] r@[j])@ == import_of(
                    import_paths@[j]@,
                    identifier@,
                ),
            forall|j: int|
                import_paths@.len() <= j < import_paths@.len() + k ==> (#[trigger] r@[j])@
                    == fixed[j - import_paths@.len()],
        decreases built_ins@.len() - k,
    {
        assert(fixed[k as int] == built_ins@[k as int]@);
        r.push(String::from_str(built_ins[k]));
        k += 1;
    }
    assert(texts(r@) =~= imports(texts(import_paths@), identifier@));
    r
}

impl ExpressionSpec {
    /// The same expression once more.
    pub fn duplicate(&self) -> (r: ExpressionSpec)
        ensures
            r@ == self@,
    {
        ExpressionSpec { id: self.id, output_statement: self.output_statement.clone() }
    }
}

proof fn lemma_number_order_is_total()
    ensures
        total_ordering(number_order()),
{
}

/// The expressions in the order of their ids.
pub fn sorted_expressions(es: &Vec<ExpressionSpec>) -> (r: Vec<ExpressionSpec>)
    ensures
        expressions_view(r@) == by_id(es@),
{
    let mut numbers: Vec<(usize, usize)> = Vec::new();
    let mut i: usize = 0;
    while i < es.len()
        invariant
            i <= es@.len(),
            numbers@.len() == i,
            forall|j: int|
                0 <= j < i ==> (#[trigger] numbers@[j]).0 == es@[j].id && numbers@[j].1 == j,
        decreases es@.len() - i,
    {
        numbers.push((es[i].id, i));
        i += 1;
    }
    let ghost unsorted = numbers@;
    let sorted: Vec<(usize, usize)> = sorted_pairs(numbers);
    proof {
        assert(unsorted.no_duplicates());
        assert(unsorted.to_set() =~= numbered(es@)) by {
            assert forall|p: (usize, usize)|
                unsorted.to_set().contains(p) <==> numbered(es@).contains(p) by {
                if numbered(es@).contains(p) {
                    assert(unsorted[p.1 as int] == p);
                }
            }
        }
        lemma_permutation(unsorted, sorted@);
        lemma_number_order_is_total();
        lemma_ordered_is_unique(sorted@, number_order(), numbered(es@));
    }
    let mut r: Vec<ExpressionSpec> = Vec::new();
    let mut k: usize = 0;
    while k < sorted.len()
        invariant
            sorted@ == ordered(numbered(es@), number_order()),
            sorted@.to_set() == numbered(es@),
            k <= sorted@.len(),
            r@.len() == k,
            forall|j: int| 0 <= j < k ==> (#[trigger] r@[j])@ == es@[sorted@[j].1 as int]@,
        decreases sorted@.len() - k,
    {
        proof {
            assert(sorted@.to_set().contains(sorted@[k as int]));
        }
        let position: usize = sorted[k].1;
        r.push(es[position].duplicate());
        k += 1;
    }
    assert(expressions_view(r@) =~= by_id(es@));
    r
}

impl PaxManifest {
    /// The templates of all components that have factories can be rendered.
    pub open spec fn factories_ready(self) -> bool {
        forall|i: int|
            #![trigger self.components.entries@[i]]
            0 <= i < self.components.entries@.len() && has_factory(self.components.entries@[i].1)
                ==> {
                &&& self.properties_known(self.components.entries@[i].1)
                &&& self.context(&self.components.entries@[i].1).template_ready()
            }
    }
}

/// The texts are what the presses make of the components that have factories.
pub open spec fn renders_factories<
    N: Fn(TemplateArgsCodegenCartridgeRenderNodeLiteral) -> String,
    C: Fn(TemplateArgsCodegenCartridgeComponentFactory) -> String,
>(
    press_node: N,
    press_factory: C,
    manifest: PaxManifest,
    components: Seq<ComponentDefinition>,
    import_prefix: Seq<char>,
    r: Seq<Seq<char>>,
) -> bool {
    &&& r.len() == components.len()
    &&& forall|i: int|
        0 <= i < components.len() ==> renders_factory(
            press_node,
            press_factory,
            manifest,
            #[trigger] components[i],
            import_prefix,
            r[i],
        )
}

/// The factories of the components: of all but the primitive ones and those
/// that are no more than a struct.
pub fn generate_component_factories<
    N: Fn(TemplateArgsCodegenCartridgeRenderNodeLiteral) -> String,
    C: Fn(TemplateArgsCodegenCartridgeComponentFactory) -> String,
>(
    manifest: &PaxManifest,
    host_crate_info: &HostCrateInfo,
    press_node: &N,
    press_factory: &C,
) -> (r: Vec<String>)
    requires
        manifest.wf(),
        manifest.factories_ready(),
        forall|args: TemplateArgsCodegenCartridgeRenderNodeLiteral|
            call_requires(*press_node, (args,)),
        forall|args: TemplateArgsCodegenCartridgeComponentFactory|
            call_requires(*press_factory, (args,)),
    ensures
        renders_factories(
            *press_node,
            *press_factory,
            *manifest,
            with_factories(manifest.components.entries@),
            host_crate_info.import_prefix@,
            texts(r@),
        ),
{
    let entries: &Vec<(String, ComponentDefinition)> = &manifest.components.entries;
    let mut r: Vec<String> = Vec::new();
    let mut i: usize = 0;
    while i < entries.len()
        invariant
            entries == &manifest.components.entries,
            manifest.wf(),
            manifest.factories_ready(),
            forall|args: TemplateArgsCodegenCartridgeRenderNodeLiteral|
                call_requires(*press_node, (args,)),
            forall|args: TemplateArgsCodegenCartridgeComponentFactory|
                call_requires(*press_factory, (args,)),
            i <= entries@.len(),
            renders_factories(
                *press_node,
                *press_factory,
                *manifest,
                with_factories(entries@.take(i as int)),
                host_crate_info.import_prefix@,
                texts(r@),
            ),
        decreases entries@.len() - i,
    {
        let cd: &ComponentDefinition = &entries[i].1;
        let ghost before = texts(r@);
        let ghost earlier = with_factories(entries@.take(i as int));
        proof {
            assert(entries@.take(i + 1).drop_last() =~= entries@.take(i as int));
            assert(entries@.take(i + 1).last() == entries@[i as int]);
            assert(manifest.components.entries@[i as int].1 == *cd);
        }
        if !cd.is_primitive && !cd.is_struct_only_component {
            let factory: String = generate_cartridge_component_factory_literal(
                manifest,
                cd,
                host_crate_info,
                press_node,
                press_factory,
            );
            let ghost f = factory@;
            r.push(factory);
            proof {
                let now = with_factories(entries@.take(i + 1));
                assert(now == earlier.push(*cd));
                assert(texts(r@) =~= before.push(f));
                assert forall|j: int| 0 <= j < now.len() implies renders_factory(
                    *press_node,
                    *press_factory,
                    *manifest,
                    #[trigger] now[j],
                    host_crate_info.import_prefix@,
                    texts(r@)[j],
                ) by {
                    if j < earlier.len() {
                        assert(now[j] == earlier[j]);
                        assert(texts(r@)[j] == before[j]);
                    }
                }
            }
        }
        i += 1;
    }
    assert(entries@.take(entries@.len() as int) =~= entries@);
    r
}

/// What the cartridge is pressed from, given the factories.
pub fn cartridge_lib_args(
    manifest: &PaxManifest,
    host_crate_info: &HostCrateInfo,
    component_factories_literal: Vec<String>,
) -> (r: TemplateArgsCodegenCartridgeLib)
    requires
        manifest.expression_specs is Some,
    ensures
        texts(r.imports@) == imports(texts(manifest.import_paths@), host_crate_info.identifier@),
        r.consts@ == Seq::<String>::empty(),
        expressions_view(r.expression_specs@) == by_id(manifest.expression_specs->0@),
        r.component_factories_literal == component_factories_literal,
{
    TemplateArgsCodegenCartridgeLib {
        imports: cartridge_imports(
            &manifest.import_paths,
            host_crate_info.identifier.as_str(),
        ),
        consts: Vec::new(),
        expression_specs: sorted_expressions(manifest.expression_specs.as_ref().unwrap()),
        component_factories_literal,
    }
}

/// What the cartridge is pressed from. `press_node` makes the expression of a
/// node, `press_factory` that of a component factory.
pub fn generate_cartridge_args<
    N: Fn(TemplateArgsCodegenCartridgeRenderNodeLiteral) -> String,
    C: Fn(TemplateArgsCodegenCartridgeComponentFactory) -> String,
>(
    manifest: &PaxManifest,
    host_crate_info: &HostCrateInfo,
    press_node: &N,
    press_factory: &C,
) -> (r: TemplateArgsCodegenCartridgeLib)
    requires
        manifest.wf(),
        manifest.factories_ready(),
        manifest.expression_specs is Some,
        forall|args: TemplateArgsCodegenCartridgeRenderNodeLiteral|
            call_requires(*press_node, (args,)),
        forall|args: TemplateArgsCodegenCartridgeComponentFactory|
            call_requires(*press_factory, (args,)),
    ensures
        texts(r.imports@) == imports(texts(manifest.import_paths@), host_crate_info.identifier@),
        r.consts@ == Seq::<String>::empty(),
        expressions_view(r.expression_specs@) == by_id(manifest.expression_specs->0@),
        renders_factories(
            *press_node,
            *press_factory,
            *manifest,
            with_factories(manifest.components.entries@),
            host_crate_info.import_prefix@,
            texts(r.component_factories_literal@),
        ),
{
    let factories: Vec<String> = generate_component_factories(
        manifest,
        host_crate_info,
        press_node,
        press_factory,
    );
    cartridge_lib_args(manifest, host_crate_info, factories)
}

/// The generated code as the formatter left it, or as it was generated where
/// it could not be formatted.
pub fn formatted_or_generated(generated: String, formatted: Option<String>) -> (r: String)
    ensures
        r == match formatted {
            Some(out) => out,
            None => generated,
        },
{
    match formatted {
        Some(out) => out,
        None => generated,
    }
}

/// Whatever the application imports the cartridge imports too: by itself, or
/// as the host crate re-exports it.
pub proof fn every_import_reaches_the_cartridge(
    paths: Seq<Seq<char>>,
    identifier: Seq<char>,
    path: Seq<char>,
)
    requires
        paths.contains(path) || built_in_imports().contains(path),
    ensures
        imports(paths, identifier).contains(path) || imports(paths, identifier).contains(
            identifier + "::pax_reexports::"@ + replace(path, "crate::"@, Seq::empty()),
        ),
        built_in_imports().contains(path) ==> imports(paths, identifier).contains(path),
{
    let all = imports(paths, identifier);
    if built_in_imports().contains(path) {
        let k = choose|k: int| 0 <= k < built_in_imports().len() && built_in_imports()[k] == path;
        assert(all[paths.len() + k] == path);
    } else {
        let k = choose|k: int| 0 <= k < paths.len() && paths[k] == path;
        assert(all[k] == import_of(path, identifier));
    }
}

/// The components that have factories are those that are neither primitive nor
/// no more than a struct, and no others.
pub proof fn every_other_component_has_a_factory(
    entries: Seq<(String, ComponentDefinition)>,
    cd: ComponentDefinition,
)
    ensures
        with_factories(entries).contains(cd) <==> has_factory(cd) && exists|i: int|
            0 <= i < entries.len() && (#[trigger] entries[i]).1 == cd,
    decreases entries.len(),
{
    if entries.len() > 0 {
        let shorter = entries.drop_last();
        let earlier = with_factories(shorter);
        every_other_component_has_a_factory(shorter, cd);
        assert forall|i: int| 0 <= i < shorter.len() implies #[trigger] entries[i]
            == shorter[i] by {}
        if earlier.contains(cd) {
            let k = choose|k: int| 0 <= k < earlier.len() && earlier[k] == cd;
            assert(with_factories(entries)[k] == cd);
            let i = choose|i: int| 0 <= i < shorter.len() && (#[trigger] shorter[i]).1 == cd;
            assert(entries[i].1 == cd);
        }
        assert(entries[entries.len() - 1] == entries.last());
        if has_factory(cd) && entries.last().1 == cd {
            assert(with_factories(entries)[earlier.len() as int] == cd);
        }
        if with_factories(entries).contains(cd) {
            let k = choose|k: int|
                0 <= k < with_factories(entries).len() && with_factories(entries)[k] == cd;
            if k < earlier.len() {
                assert(earlier[k] == cd);
            }
        }
        if exists|i: int| 0 <= i < entries.len() && (#[trigger] entries[i]).1 == cd {
            let i = choose|i: int| 0 <= i < entries.len() && (#[trigger] entries[i]).1 == cd;
            if i < shorter.len() {
                assert(shorter[i].1 == cd);
            }
        }
    }
}

/// The ordered expressions are the expressions, each once, by ascending ids.
pub proof fn every_expression_is_listed_in_order(es: Seq<ExpressionSpec>)
    requires
        es.len() <= usize::MAX,
    ensures
        by_id(es).len() == es.len(),
        forall|i: int, j: int|
            0 <= i < j < by_id(es).len() ==> (#[trigger] by_id(es)[i]).id <= (
            #[trigger] by_id(es)[j]).id,
        by_id(es).to_multiset() == expressions_view(es).to_multiset(),
{
    let unsorted = Seq::new(es.len(), |i: int| (es[i].id, i as usize));
    let d = numbered(es);
    assert(unsorted.to_set() =~= d) by {
        assert forall|p: (usize, usize)| unsorted.to_set().contains(p) <==> d.contains(p) by {
            if d.contains(p) {
                assert(unsorted[p.1 as int] == p);
            }
        }
    }
    assert(unsorted.no_duplicates());
    assert(d.finite());
    lemma_number_order_is_total();
    lemma_an_order_exists(d, number_order());
    let sorted = ordered(d, number_order());
    let name = |p: (usize, usize)| es[p.1 as int]@;
    lemma_same_multiset(unsorted, sorted);
    lemma_mapping_keeps_permutations(unsorted, sorted, name);
    assert(unsorted.map_values(name) =~= expressions_view(es));
    assert(by_id(es) =~= sorted.map_values(name));
    assert(by_id(es).len() == by_id(es).to_multiset().len()) by {
        broadcast use vstd::seq_lib::group_to_multiset_ensures;

    }
    assert(expressions_view(es).len() == expressions_view(es).to_multiset().len()) by {
        broadcast use vstd::seq_lib::group_to_multiset_ensures;

    }
    assert forall|i: int, j: int| 0 <= i < j < by_id(es).len() implies (#[trigger] by_id(
        es,
    )[i]).id <= (#[trigger] by_id(es)[j]).id by {
        let le = number_order();
        assert(le(sorted[i], sorted[j]));
        assert(sorted.to_set().contains(sorted[i]));
        assert(sorted.to_set().contains(sorted[j]));
    }
}

/// Applied to every element, a function keeps two lists rearrangements of one
/// another.
proof fn lemma_mapping_keeps_permutations<A, B>(x: Seq<A>, y: Seq<A>, f: spec_fn(A) -> B)
    requires
        x.to_multiset() == y.to_multiset(),
    ensures
        x.map_values(f).to_multiset() == y.map_values(f).to_multiset(),
    decreases x.len(),
{
    broadcast use vstd::seq_lib::group_to_multiset_ensures;

    assert(x.to_multiset().len() == x.len() && y.to_multiset().len() == y.len());
    if x.len() > 0 {
        let a = x.last();
        assert(x.to_multiset().contains(a));
        assert(y.contains(a));
        let k = choose|k: int| 0 <= k < y.len() && y[k] == a;
        let x1 = x.drop_last();
        let y1 = y.remove(k);
        assert(x =~= x1.push(a));
        assert(x1.to_multiset() =~= x.to_multiset().remove(a));
        assert(y1.to_multiset() =~= y.to_multiset().remove(a));
        lemma_mapping_keeps_permutations(x1, y1, f);
        assert(x.map_values(f) =~= x1.map_values(f).push(f(a)));
        assert(y.map_values(f).remove(k) =~= y1.map_values(f));
        assert(y.map_values(f)[k] == f(a));
        assert(x.map_values(f).to_multiset() =~= x1.map_values(f).to_multiset().insert(f(a)));
        assert(y.map_values(f).remove(k).to_multiset() =~= y.map_values(f).to_multiset().remove(
            f(a),
        ));
        assert(y.map_values(f).to_multiset().contains(f(a))) by {
            assert(y.map_values(f).contains(f(a)));
        }
        assert(x.map_values(f).to_multiset() =~= y.map_values(f).to_multiset());
    } else {
        assert(x.map_values(f) =~= y.map_values(f));
    }
}

} // verus!
