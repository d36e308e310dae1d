//! The types that an application's properties and expressions can have.

use crate::manifest::{
    ComponentDefinition, HostCrateInfo, PaxManifest, PropertyDefinition, TypeDefinition,
};
use crate::order::{lemma_an_order_exists, lemma_ordered_is_unique, lists_in_order, ordered};
use crate::text::{
    ends_with, is_text_le, optional_text, replace, replace_text, same_text, text_ends_with, text_le,
    text_order, text_order_is_total, text_pairs,
};
use itertools::Itertools;
use vstd::prelude::*;
use vstd::relations::{sorted_by, total_ordering};
use vstd::string::*;

verus! {

/// A variant and the type that it holds.
pub type Variant = (Seq<char>, Seq<char>);

/// Pairs are ordered by their first, then by their second text.
pub open spec fn pair_le(a: Variant, b: Variant) -> bool {
    if a.0 == b.0 {
        text_le(a.1, b.1)
    } else {
        text_le(a.0, b.0)
    }
}

/// `pair_le` as a relation.
pub open spec fn pair_order() -> spec_fn(Variant, Variant) -> bool {
    |a: Variant, b: Variant| pair_le(a, b)
}

/// The order of pairs of texts is total.
pub proof fn pair_order_is_total()
    ensures
        total_ordering(pair_order()),
{
    text_order_is_total();
    let le = text_order();
    let ple = pair_order();
    assert forall|a: Variant| #[trigger] ple(a, a) by {
        assert(le(a.1, a.1));
    }
    assert forall|a: Variant, b: Variant| #[trigger] ple(a, b) && #[trigger] ple(b, a) implies a
        == b by {
        if a.0 != b.0 {
            assert(le(a.0, b.0) && le(b.0, a.0));
        } else {
            assert(le(a.1, b.1) && le(b.1, a.1));
        }
    }
    assert forall|a: Variant, b: Variant, c: Variant| #[trigger]
        ple(a, b) && #[trigger] ple(b, c) implies ple(a, c) by {
        if a.0 == b.0 && b.0 == c.0 {
            assert(le(a.1, b.1) && le(b.1, c.1));
        } else if a.0 != b.0 && b.0 != c.0 {
            assert(le(a.0, b.0) && le(b.0, c.0));
            if a.0 == c.0 {
                assert(le(b.0, a.0));
            }
        }
    }
    assert forall|a: Variant, b: Variant| #[trigger] ple(a, b) || #[trigger] ple(b, a) by {
        assert(le(a.0, b.0) || le(b.0, a.0));
        assert(le(a.1, b.1) || le(b.1, a.1));
    }
}

/// Where the module of a component stands within the crate.
pub open spec fn module_prefix(module: Seq<char>) -> Seq<char> {
    if module == "crate"@ {
        Seq::empty()
    } else {
        replace(module, "crate::"@, Seq::empty()) + "::"@
    }
}

/// The variant of a component's properties.
pub open spec fn component_variant(cd: ComponentDefinition, import_prefix: Seq<char>) -> Variant {
    (cd.type_id_escaped@, import_prefix + module_prefix(cd.module@) + cd.pascal_identifier@)
}

/// The variant of a type.
pub open spec fn type_variant(t: TypeDefinition, import_prefix: Seq<char>) -> Variant {
    (t.type_id_escaped@, import_prefix + replace(t.type_id@, "crate::"@, Seq::empty()))
}

/// The variants of the properties of the first `n` components.
pub open spec fn component_variants(
    manifest: PaxManifest,
    import_prefix: Seq<char>,
    n: int,
) -> Set<Variant> {
    Set::new(
        |v: Variant|
            exists|i: int|
                0 <= i < n && v == component_variant(
                    (#[trigger] manifest.components.entries@[i]).1,
                    import_prefix,
                ),
    )
}

/// The element type of a `Vec`, read off the id of the latter.
pub open spec fn element_type(type_id: Seq<char>) -> Option<Seq<char>> {
    let opening = "std::vec::Vec<"@;
    if opening.is_prefix_of(type_id) && ends_with(type_id, ">"@) {
        Some(type_id.subrange(opening.len() as int, type_id.len() - 1))
    } else {
        None
    }
}

/// A property brings in the variant of its type and, where it is a `Vec`, of
/// the element type. An element type that the table does not hold has no
/// variant.
pub open spec fn brings_in(
    manifest: PaxManifest,
    p: PropertyDefinition,
    import_prefix: Seq<char>,
    v: Variant,
) -> bool {
    ||| v == type_variant(manifest.type_table@[p.type_id@], import_prefix)
    ||| element_type(p.type_id@) matches Some(t) && manifest.type_table@.contains_key(t) && v
        == type_variant(manifest.type_table@[t], import_prefix)
}

/// What the first `m` properties of a component bring in.
pub open spec fn property_variants(
    manifest: PaxManifest,
    cd: ComponentDefinition,
    import_prefix: Seq<char>,
    m: int,
) -> Set<Variant> {
    Set::new(
        |v: Variant|
            exists|j: int|
                0 <= j < m && brings_in(
                    manifest,
                    #[trigger] manifest.properties_of(cd)[j],
                    import_prefix,
                    v,
                ),
    )
}

/// What the properties of the first `n` components bring in.
pub open spec fn all_property_variants(
    manifest: PaxManifest,
    import_prefix: Seq<char>,
    n: int,
) -> Set<Variant> {
    Set::new(
        |v: Variant|
            exists|i: int|
                0 <= i < n && property_variants(
                    manifest,
                    (#[trigger] manifest.components.entries@[i]).1,
                    import_prefix,
                    manifest.properties_of(manifest.components.entries@[i].1).len() as int,
                ).contains(v),
    )
}

/// The types that are always there.
pub open spec fn built_in_variants() -> Seq<Variant> {
    seq![
        ("f64"@, "f64"@),
        ("bool"@, "bool"@),
        ("isize"@, "isize"@),
        ("usize"@, "usize"@),
        ("String"@, "String"@),
        (
            "stdCOCOvecCOCOVecLABRstdCOCOrcCOCORcLABRPropertiesCoproductRABRRABR"@,
            "std::vec::Vec<std::rc::Rc<PropertiesCoproduct>>"@,
        ),
        ("Transform2D"@, "pax_runtime_api::Transform2D"@),
        ("stdCOCOopsCOCORangeLABRisizeRABR"@, "std::ops::Range<isize>"@),
        ("Size2D"@, "pax_runtime_api::Size2D"@),
        ("Size"@, "pax_runtime_api::Size"@),
        ("SizePixels"@, "pax_runtime_api::SizePixels"@),
        ("Numeric"@, "pax_runtime_api::Numeric"@),
    ]
}

/// The list without the pairs whose first text an earlier pair has too.
pub open spec fn first_of_each(s: Seq<Variant>) -> Seq<Variant>
    decreases s.len(),
{
    if s.len() == 0 {
        Seq::empty()
    } else {
        let earlier = first_of_each(s.drop_last());
        if exists|i: int| 0 <= i < s.len() - 1 && (#[trigger] s[i]).0 == s.last().0 {
            earlier
        } else {
            earlier.push(s.last())
        }
    }
}

/// What the coproduct of the properties is pressed from.
#[derive(Debug)]
pub struct TemplateArgsCodegenPropertiesCoproductLib {
    pub properties_coproduct_tuples: Vec<(String, String)>,
    pub types_coproduct_tuples: Vec<(String, String)>,
}

/// Whether the first pair comes before the second or equals it.
fn is_pair_le(a: &(String, String), b: &(String, String)) -> (r: bool)
    ensures
        r == pair_le((a.0@, a.1@), (b.0@, b.1@)),
{
    if same_text(a.0.as_str(), b.0.as_str()) {
        is_text_le(a.1.as_str(), b.1.as_str())
    } else {
        is_text_le(a.0.as_str(), b.0.as_str())
    }
}

/// Adds a pair to a sorted list, unless it is there.
fn add_in_order(list: &mut Vec<(String, String)>, item: (String, String))
    requires
        lists_in_order(
            text_pairs(old(list)@),
            pair_order(),
            text_pairs(old(list)@).to_set(),
        ),
    ensures
        lists_in_order(
            text_pairs(final(list)@),
            pair_order(),
            text_pairs(old(list)@).to_set().insert((item.0@, item.1@)),
        ),
{
    let ghost before = text_pairs(list@);
    let ghost x = (item.0@, item.1@);
    let ghost ple = pair_order();
    proof {
        pair_order_is_total();
    }
    let mut i: usize = 0;
    while i < list.len() && !is_pair_le(&item, &list[i])
        invariant
            x == (item.0@, item.1@),
            before == text_pairs(list@),
            i <= list.len(),
            forall|j: int| 0 <= j < i ==> !pair_le(x, #[trigger] before[j]),
        decreases list.len() - i,
    {
        assert(before[i as int] == (list@[i as int].0@, list@[i as int].1@));
        i += 1;
    }
    if i < list.len() && same_text(item.0.as_str(), list[i].0.as_str()) && same_text(
        item.1.as_str(),
        list[i].1.as_str(),
    ) {
        proof {
            assert(before[i as int] == x);
            assert(before.to_set().contains(x));
            assert(before.to_set().insert(x) =~= before.to_set());
        }
        return;
    }
    proof {
        if i < before.len() {
            assert(before[i as int] == (list@[i as int].0@, list@[i as int].1@));
            assert(ple(x, before[i as int]));
        }
        assert forall|j: int| i <= j < before.len() implies ple(x, #[trigger] before[j])
            && before[j] != x by {
            assert(ple(before[i as int], before[j]));
            assert(ple(x, before[i as int]));
            if before[j] == x {
                assert(before[i as int] == x);
            }
        }
        assert forall|j: int| 0 <= j < i implies ple(#[trigger] before[j], x) && before[j]
            != x by {
            assert(!pair_le(x, before[j]));
            assert(ple(before[j], x) || ple(x, before[j]));
            if before[j] == x {
                assert(ple(x, x));
            }
        }
    }
    list.insert(i, item);
    proof {
        let after = text_pairs(list@);
        assert(after =~= before.insert(i as int, x));
        assert forall|a: int, b: int| 0 <= a < after.len() && 0 <= b < after.len() && a != b implies
            after[a] != after[b] by {
            let p = if a < i {
                a
            } else {
                a - 1
            };
            let q = if b < i {
                b
            } else {
                b - 1
            };
            if a != i {
                assert(after[a] == before[p]);
            }
            if b != i {
                assert(after[b] == before[q]);
            }
        }
        assert(sorted_by(after, ple)) by {
            assert forall|a: int, b: int| 0 <= a < b < after.len() implies #[trigger] ple(
                after[a],
                after[b],
            ) by {
                let p = if a < i {
                    a
                } else {
                    a - 1
                };
                let q = if b < i {
                    b
                } else {
                    b - 1
                };
                if a != i {
                    assert(after[a] == before[p]);
                }
                if b != i {
                    assert(after[b] == before[q]);
                }
                if a != i && b != i {
                    assert(ple(before[p], before[q]));
                }
            }
        }
        assert(after.to_set() =~= before.to_set().insert(x)) by {
            assert forall|y: Variant| after.to_set().contains(y) <==> before.to_set().insert(
                x,
            ).contains(y) by {
                if before.contains(y) {
                    let j = choose|j: int| 0 <= j < before.len() && before[j] == y;
                    if j < i {
                        assert(after[j] == y);
                    } else {
                        assert(after[j + 1] == y);
                    }
                }
                if y == x {
                    assert(after[i as int] == y);
                }
                if after.contains(y) {
                    let j = choose|j: int| 0 <= j < after.len() && after[j] == y;
                    if j < i {
                        assert(before[j] == y);
                    } else if j > i {
                        assert(before[j - 1] == y);
                    }
                }
            }
        }
    }
}

/// `Itertools::unique_by` on pairs of strings, by their first strings: the
/// pairs in the order they came in, without those whose first string an
/// earlier pair has too.
#[verifier::external_body]
fn unique_by_first(items: Vec<(String, String)>) -> (r: Vec<(String, String)>)
    ensures
        text_pairs(r@) == first_of_each(text_pairs(items@)),
{
    items.into_iter().unique_by(|pair| pair.0.clone()).collect()
}

impl PaxManifest {
    /// The table has the types of all components and of their properties.
    pub open spec fn all_properties_known(self) -> bool {
        forall|i: int|
            0 <= i < self.components.entries@.len() ==> self.properties_known(
                (#[trigger] self.components.entries@[i]).1,
            )
    }

    /// The variants of the components' properties, in order.
    pub open spec fn properties_coproduct(self, import_prefix: Seq<char>) -> Seq<Variant> {
        ordered(
            component_variants(self, import_prefix, self.components.entries@.len() as int),
            pair_order(),
        )
    }

    /// What the components' properties bring in and the types that are always
    /// there.
    pub open spec fn candidate_types(self, import_prefix: Seq<char>) -> Set<Variant> {
        all_property_variants(
            self,
            import_prefix,
            self.components.entries@.len() as int,
        ).union(built_in_variants().to_set())
    }

    /// The types that a property or an expression can have: one for each
    /// variant, in order.
    pub open spec fn types_coproduct(self, import_prefix: Seq<char>) -> Seq<Variant> {
        first_of_each(ordered(self.candidate_types(import_prefix), pair_order()))
    }
}

fn pair(a: &str, b: &str) -> (r: (String, String))
    ensures
        (r.0@, r.1@) == (a@, b@),
{
    (String::from_str(a), String::from_str(b))
}

/// The types that are always there.
fn built_in_types() -> (r: Vec<(String, String)>)
    ensures
        text_pairs(r@) == built_in_variants(),
{
    let r: Vec<(String, String)> =
        vec![
        pair("f64", "f64"),
        pair("bool", "bool"),
        pair("isize", "isize"),
        pair("usize", "usize"),
        pair("String", "String"),
        pair(
            "stdCOCOvecCOCOVecLABRstdCOCOrcCOCORcLABRPropertiesCoproductRABRRABR",
            "std::vec::Vec<std::rc::Rc<PropertiesCoproduct>>",
        ),
        pair("Transform2D", "pax_runtime_api::Transform2D"),
        pair("stdCOCOopsCOCORangeLABRisizeRABR", "std::ops::Range<isize>"),
        pair("Size2D", "pax_runtime_api::Size2D"),
        pair("Size", "pax_runtime_api::Size"),
        pair("SizePixels", "pax_runtime_api::SizePixels"),
        pair("Numeric", "pax_runtime_api::Numeric"),
    ];
    assert(text_pairs(r@) =~= built_in_variants());
    r
}

/// The path of the type that a component's properties have.
fn component_pair(cd: &ComponentDefinition, import_prefix: &str) -> (r: (String, String))
    ensures
        (r.0@, r.1@) == component_variant(*cd, import_prefix@),
{
    proof {
        reveal_strlit("crate::");
    }
    let mut path: String = String::from_str(import_prefix);
    if !same_text(cd.module.as_str(), "crate") {
        let module: String = replace_text(cd.module.as_str(), "crate::", "");
        path.append(module.as_str());
        path.append("::");
    }
    proof {
        reveal_strlit("");
        assert(""@ =~= Seq::<char>::empty());
    }
    path.append(cd.pascal_identifier.as_str());
    assert(path@ =~= import_prefix@ + module_prefix(cd.module@) + cd.pascal_identifier@);
    (cd.type_id_escaped.clone(), path)
}

/// The path of a type, and the variant that stands for it.
fn type_pair(t: &TypeDefinition, import_prefix: &str) -> (r: (String, String))
    ensures
        (r.0@, r.1@) == type_variant(*t, import_prefix@),
{
    proof {
        reveal_strlit("crate::");
        reveal_strlit("");
        assert(""@ =~= Seq::<char>::empty());
    }
    let name: String = replace_text(t.type_id.as_str(), "crate::", "");
    let mut path: String = String::from_str(import_prefix);
    path.append(name.as_str());
    (t.type_id_escaped.clone(), path)
}

/// The variants of the components' properties.
fn properties_coproduct_tuples(manifest: &PaxManifest, import_prefix: &str) -> (r: Vec<
    (String, String),
>)
    ensures
        text_pairs(r@) == manifest.properties_coproduct(import_prefix@),
{
    let mut list: Vec<(String, String)> = Vec::new();
    let mut i: usize = 0;
    proof {
        assert(text_pairs(list@).to_set() =~= component_variants(*manifest, import_prefix@, 0));
    }
    while i < manifest.components.entries.len()
        invariant
            i <= manifest.components.entries@.len(),
            lists_in_order(
                text_pairs(list@),
                pair_order(),
                component_variants(*manifest, import_prefix@, i as int),
            ),
        decreases manifest.components.entries@.len() - i,
    {
        let item: (String, String) = component_pair(
            &manifest.components.entries[i].1,
            import_prefix,
        );
        proof {
            let v = (item.0@, item.1@);
            let less = component_variants(*manifest, import_prefix@, i as int);
            let more = component_variants(*manifest, import_prefix@, i + 1);
            assert(v == component_variant(
                manifest.components.entries@[i as int].1,
                import_prefix@,
            ));
            assert(more =~= less.insert(v));
        }
        add_in_order(&mut list, item);
        i += 1;
    }
    proof {
        pair_order_is_total();
        lemma_ordered_is_unique(
            text_pairs(list@),
            pair_order(),
            component_variants(
                *manifest,
                import_prefix@,
                manifest.components.entries@.len() as int,
            ),
        );
    }
    list
}

/// The element type of a `Vec`.
fn element_type_text(type_id: &str) -> (r: Option<String>)
    ensures
        optional_text(r) == element_type(type_id@),
{
    let opening: &str = "std::vec::Vec<";
    proof {
        reveal_strlit("std::vec::Vec<");
        reveal_strlit(">");
    }
    let n: usize = type_id.unicode_len();
    if n < 14 || !text_ends_with(type_id, ">") || !same_text(
        type_id.substring_char(0, 14),
        opening,
    ) {
        proof {
            if opening@.is_prefix_of(type_id@) && ends_with(type_id@, ">"@) {
                assert(type_id@.subrange(0, 14) =~= opening@);
            }
        }
        return None;
    }
    proof {
        assert(opening@.is_prefix_of(type_id@));
        if n == 14 {
            assert(type_id@.subrange(0, 14)[13] == '<');
            assert(type_id@.subrange(13, 14) == ">"@);
            assert(type_id@.subrange(13, 14)[0] == '>');
        }
    }
    Some(String::from_str(type_id.substring_char(14, n - 1)))
}

/// Adds what a component's properties bring in to a sorted list.
fn add_property_types(
    list: &mut Vec<(String, String)>,
    manifest: &PaxManifest,
    cd: &ComponentDefinition,
    import_prefix: &str,
)
    requires
        manifest.wf(),
        manifest.properties_known(*cd),
        lists_in_order(
            text_pairs(old(list)@),
            pair_order(),
            text_pairs(old(list)@).to_set(),
        ),
    ensures
        lists_in_order(
            text_pairs(final(list)@),
            pair_order(),
            text_pairs(old(list)@).to_set().union(
                property_variants(
                    *manifest,
                    *cd,
                    import_prefix@,
                    manifest.properties_of(*cd).len() as int,
                ),
            ),
        ),
{
    let ghost before = text_pairs(list@).to_set();
    let definitions: &Vec<PropertyDefinition> = cd.get_property_definitions(&manifest.type_table);
    let mut j: usize = 0;
    proof {
        assert(before =~= before.union(property_variants(*manifest, *cd, import_prefix@, 0)));
    }
    while j < definitions.len()
        invariant
            manifest.wf(),
            manifest.properties_known(*cd),
            definitions@ == manifest.properties_of(*cd),
            j <= definitions@.len(),
            lists_in_order(
                text_pairs(list@),
                pair_order(),
                before.union(property_variants(*manifest, *cd, import_prefix@, j as int)),
            ),
        decreases definitions@.len() - j,
    {
        assert(manifest.type_table@.contains_key(
            manifest.properties_of(*cd)[j as int].type_id@,
        ));
        let t: &TypeDefinition = definitions[j].get_type_definition(&manifest.type_table);
        let item: (String, String) = type_pair(t, import_prefix);
        let ghost less = property_variants(*manifest, *cd, import_prefix@, j as int);
        let ghost more = property_variants(*manifest, *cd, import_prefix@, j + 1);
        let ghost p = manifest.properties_of(*cd)[j as int];
        let ghost v = (item.0@, item.1@);
        assert(v == type_variant(manifest.type_table@[p.type_id@], import_prefix@));
        add_in_order(list, item);
        let element: Option<&TypeDefinition> = match element_type_text(
            definitions[j].type_id.as_str(),
        ) {
            Some(id) => manifest.type_table.get(id.as_str()),
            None => None,
        };
        match element {
            Some(t) => {
                let item: (String, String) = type_pair(t, import_prefix);
                let ghost w = (item.0@, item.1@);
                proof {
                    assert(element_type(p.type_id@) is Some);
                    assert(w == type_variant(
                        manifest.type_table@[element_type(p.type_id@)->0],
                        import_prefix@,
                    ));
                    assert(more =~= less.insert(v).insert(w)) by {
                        lemma_one_more_property(*manifest, *cd, import_prefix@, j as int);
                    }
                    assert(before.union(more) =~= before.union(less).insert(v).insert(w));
                }
                add_in_order(list, item);
            },
            None => {
                proof {
                    assert(more =~= less.insert(v)) by {
                        lemma_one_more_property(*manifest, *cd, import_prefix@, j as int);
                    }
                    assert(before.union(more) =~= before.union(less).insert(v));
                }
            },
        }
        j += 1;
    }
}

/// The types that a property or an expression can have.
fn types_coproduct_tuples(manifest: &PaxManifest, import_prefix: &str) -> (r: Vec<
    (String, String),
>)
    requires
        manifest.wf(),
        manifest.all_properties_known(),
    ensures
        text_pairs(r@) == manifest.types_coproduct(import_prefix@),
{
    let mut list: Vec<(String, String)> = Vec::new();
    let mut i: usize = 0;
    proof {
        assert(text_pairs(list@).to_set() =~= all_property_variants(*manifest, import_prefix@, 0));
    }
    while i < manifest.components.entries.len()
        invariant
            manifest.wf(),
            manifest.all_properties_known(),
            i <= manifest.components.entries@.len(),
            lists_in_order(
                text_pairs(list@),
                pair_order(),
                all_property_variants(*manifest, import_prefix@, i as int),
            ),
        decreases manifest.components.entries@.len() - i,
    {
        let cd: &ComponentDefinition = &manifest.components.entries[i].1;
        assert(manifest.properties_known(manifest.components.entries@[i as int].1));
        add_property_types(&mut list, manifest, cd, import_prefix);
        proof {
            let less = all_property_variants(*manifest, import_prefix@, i as int);
            let more = all_property_variants(*manifest, import_prefix@, i + 1);
            let new = property_variants(
                *manifest,
                *cd,
                import_prefix@,
                manifest.properties_of(*cd).len() as int,
            );
            assert(*cd == manifest.components.entries@[i as int].1);
            assert(more =~= less.union(new));
        }
        i += 1;
    }
    let built_ins: Vec<(String, String)> = built_in_types();
    let ghost found = all_property_variants(
        *manifest,
        import_prefix@,
        manifest.components.entries@.len() as int,
    );
    let ghost fixed = built_in_variants();
    let mut k: usize = 0;
    proof {
        assert(fixed.take(0).to_set() =~= Set::empty());
        assert(found =~= found.union(fixed.take(0).to_set()));
    }
    while k < built_ins.len()
        invariant
            text_pairs(built_ins@) == fixed,
            k <= built_ins@.len(),
            lists_in_order(
                text_pairs(list@),
                pair_order(),
                found.union(fixed.take(k as int).to_set()),
            ),
        decreases built_ins@.len() - k,
    {
        let item: (String, String) = pair(built_ins[k].0.as_str(), built_ins[k].1.as_str());
        proof {
            let v = (item.0@, item.1@);
            assert(fixed[k as int] == v);
            assert(fixed.take(k + 1) =~= fixed.take(k as int).push(v));
            fixed.take(k as int).lemma_push_to_set_commute(v);
            assert(found.union(fixed.take(k + 1).to_set()) =~= found.union(
                fixed.take(k as int).to_set(),
            ).insert(v));
        }
        add_in_order(&mut list, item);
        k += 1;
    }
    proof {
        assert(fixed.take(fixed.len() as int) =~= fixed);
        pair_order_is_total();
        lemma_ordered_is_unique(
            text_pairs(list@),
            pair_order(),
            manifest.candidate_types(import_prefix@),
        );
    }
    unique_by_first(list)
}

/// What the coproduct of the properties is pressed from.
pub fn properties_coproduct_args(
    manifest: &PaxManifest,
    host_crate_info: &HostCrateInfo,
) -> (r: TemplateArgsCodegenPropertiesCoproductLib)
    requires
        manifest.wf(),
        manifest.all_properties_known(),
    ensures
        text_pairs(r.properties_coproduct_tuples@) == manifest.properties_coproduct(
            host_crate_info.import_prefix@,
        ),
        text_pairs(r.types_coproduct_tuples@) == manifest.types_coproduct(
            host_crate_info.import_prefix@,
        ),
{
    let import_prefix: &str = host_crate_info.import_prefix.as_str();
    TemplateArgsCodegenPropertiesCoproductLib {
        properties_coproduct_tuples: properties_coproduct_tuples(manifest, import_prefix),
        types_coproduct_tuples: types_coproduct_tuples(manifest, import_prefix),
    }
}

proof fn lemma_one_more_property(
    manifest: PaxManifest,
    cd: ComponentDefinition,
    import_prefix: Seq<char>,
    m: int,
)
    requires
        0 <= m < manifest.properties_of(cd).len(),
    ensures
        forall|v: Variant|
            property_variants(manifest, cd, import_prefix, m + 1).contains(v) <==> (
            property_variants(manifest, cd, import_prefix, m).contains(v) || brings_in(
                manifest,
                manifest.properties_of(cd)[m],
                import_prefix,
                v,
            )),
{
    assert forall|v: Variant|
        property_variants(manifest, cd, import_prefix, m).contains(v) || brings_in(
            manifest,
            manifest.properties_of(cd)[m],
            import_prefix,
            v,
        ) implies property_variants(manifest, cd, import_prefix, m + 1).contains(v) by {
        if !property_variants(manifest, cd, import_prefix, m).contains(v) {
            assert(brings_in(manifest, manifest.properties_of(cd)[m], import_prefix, v));
        }
    }
}

proof fn lemma_component_variants_are_finite(
    manifest: PaxManifest,
    import_prefix: Seq<char>,
    n: int,
)
    requires
        0 <= n <= manifest.components.entries@.len(),
    ensures
        component_variants(manifest, import_prefix, n).finite(),
    decreases n,
{
    if n == 0 {
        assert(component_variants(manifest, import_prefix, n) =~= Set::empty());
    } else {
        lemma_component_variants_are_finite(manifest, import_prefix, n - 1);
        let v = component_variant(manifest.components.entries@[n - 1].1, import_prefix);
        assert(component_variants(manifest, import_prefix, n) =~= component_variants(
            manifest,
            import_prefix,
            n - 1,
        ).insert(v));
    }
}

proof fn lemma_property_variants_are_finite(
    manifest: PaxManifest,
    cd: ComponentDefinition,
    import_prefix: Seq<char>,
    m: int,
)
    requires
        0 <= m <= manifest.properties_of(cd).len(),
    ensures
        property_variants(manifest, cd, import_prefix, m).finite(),
    decreases m,
{
    if m == 0 {
        assert(property_variants(manifest, cd, import_prefix, m) =~= Set::empty());
    } else {
        lemma_property_variants_are_finite(manifest, cd, import_prefix, m - 1);
        lemma_one_more_property(manifest, cd, import_prefix, m - 1);
        let less = property_variants(manifest, cd, import_prefix, m - 1);
        let more = property_variants(manifest, cd, import_prefix, m);
        let p = manifest.properties_of(cd)[m - 1];
        let v = type_variant(manifest.type_table@[p.type_id@], import_prefix);
        match element_type(p.type_id@) {
            Some(t) => {
                let w = type_variant(manifest.type_table@[t], import_prefix);
                assert(more.subset_of(less.insert(v).insert(w)));
                vstd::set_lib::lemma_set_subset_finite(less.insert(v).insert(w), more);
            },
            None => {
                assert(more =~= less.insert(v));
            },
        }
    }
}

proof fn lemma_all_property_variants_are_finite(
    manifest: PaxManifest,
    import_prefix: Seq<char>,
    n: int,
)
    requires
        0 <= n <= manifest.components.entries@.len(),
    ensures
        all_property_variants(manifest, import_prefix, n).finite(),
    decreases n,
{
    if n == 0 {
        assert(all_property_variants(manifest, import_prefix, n) =~= Set::empty());
    } else {
        lemma_all_property_variants_are_finite(manifest, import_prefix, n - 1);
        let cd = manifest.components.entries@[n - 1].1;
        let m = manifest.properties_of(cd).len() as int;
        lemma_property_variants_are_finite(manifest, cd, import_prefix, m);
        assert(all_property_variants(manifest, import_prefix, n) =~= all_property_variants(
            manifest,
            import_prefix,
            n - 1,
        ).union(property_variants(manifest, cd, import_prefix, m)));
    }
}

/// No two pairs have the same first text.
pub open spec fn first_texts_differ(r: Seq<Variant>) -> bool {
    forall|i: int, j: int|
        0 <= i < j < r.len() ==> (#[trigger] r[i]).0 != (#[trigger] r[j]).0
}

/// Some pair of `r` has the first text of `v` and comes no later than `v`.
pub open spec fn stands_for(r: Seq<Variant>, v: Variant) -> bool {
    exists|i: int| 0 <= i < r.len() && (#[trigger] r[i]).0 == v.0 && pair_le(r[i], v)
}

proof fn lemma_first_of_each_is_kept(s: Seq<Variant>)
    requires
        sorted_by(s, pair_order()),
    ensures
        sorted_by(first_of_each(s), pair_order()),
        first_texts_differ(first_of_each(s)),
        forall|i: int|
            0 <= i < first_of_each(s).len() ==> s.contains(#[trigger] first_of_each(s)[i]),
        forall|k: int| 0 <= k < s.len() ==> stands_for(first_of_each(s), #[trigger] s[k]),
    decreases s.len(),
{
    if s.len() > 0 {
        let ple = pair_order();
        let t = s.drop_last();
        let x = s.last();
        let e = first_of_each(t);
        let r = first_of_each(s);
        assert(sorted_by(t, ple)) by {
            assert forall|a: int, b: int| 0 <= a < b < t.len() implies #[trigger] ple(
                t[a],
                t[b],
            ) by {
                assert(ple(s[a], s[b]));
            }
        }
        lemma_first_of_each_is_kept(t);
        assert forall|i: int| 0 <= i < e.len() implies s.contains(#[trigger] e[i]) && ple(
            e[i],
            x,
        ) by {
            assert(t.contains(e[i]));
            let k = choose|k: int| 0 <= k < t.len() && t[k] == e[i];
            assert(s[k] == e[i]);
            assert(ple(s[k], s[s.len() - 1]));
        }
        if exists|i: int| 0 <= i < s.len() - 1 && (#[trigger] s[i]).0 == x.0 {
            let k = choose|i: int| 0 <= i < s.len() - 1 && (#[trigger] s[i]).0 == x.0;
            assert(stands_for(e, t[k]));
            let i = choose|i: int|
                0 <= i < e.len() && (#[trigger] e[i]).0 == t[k].0 && pair_le(e[i], t[k]);
            assert(ple(e[i], x));
            assert(stands_for(e, x));
            assert forall|k: int| 0 <= k < s.len() implies stands_for(r, #[trigger] s[k]) by {
                if k < t.len() {
                    assert(stands_for(e, t[k]));
                }
            }
        } else {
            lemma_first_of_each_is_pushed(s);
        }
    }
}

proof fn lemma_first_of_each_is_pushed(s: Seq<Variant>)
    requires
        s.len() > 0,
        !exists|i: int| 0 <= i < s.len() - 1 && (#[trigger] s[i]).0 == s.last().0,
        sorted_by(first_of_each(s.drop_last()), pair_order()),
        first_texts_differ(first_of_each(s.drop_last())),
        forall|i: int|
            0 <= i < first_of_each(s.drop_last()).len() ==> s.drop_last().contains(
                #[trigger] first_of_each(s.drop_last())[i],
            ),
        forall|i: int|
            0 <= i < first_of_each(s.drop_last()).len() ==> pair_le(
                #[trigger] first_of_each(s.drop_last())[i],
                s.last(),
            ),
        forall|k: int|
            0 <= k < s.drop_last().len() ==> stands_for(
                first_of_each(s.drop_last()),
                #[trigger] s.drop_last()[k],
            ),
    ensures
        sorted_by(first_of_each(s), pair_order()),
        first_texts_differ(first_of_each(s)),
        forall|i: int|
            0 <= i < first_of_each(s).len() ==> s.contains(#[trigger] first_of_each(s)[i]),
        forall|k: int| 0 <= k < s.len() ==> stands_for(first_of_each(s), #[trigger] s[k]),
{
    let ple = pair_order();
    let t = s.drop_last();
    let x = s.last();
    let e = first_of_each(t);
    let r = e.push(x);
    assert(first_of_each(s) == r);
    assert(s[s.len() - 1] == x);
    assert(sorted_by(r, ple)) by {
        assert forall|i: int, j: int| 0 <= i < j < r.len() implies #[trigger] ple(
            r[i],
            r[j],
        ) by {
            if j < e.len() {
                assert(ple(e[i], e[j]));
            } else {
                assert(pair_le(e[i], x));
            }
        }
    }
    assert forall|i: int| 0 <= i < e.len() implies (#[trigger] e[i]).0 != x.0 && s.contains(
        e[i],
    ) by {
        assert(t.contains(e[i]));
        let k = choose|k: int| 0 <= k < t.len() && t[k] == e[i];
        assert(s[k] == e[i]);
    }
    assert(first_texts_differ(r)) by {
        assert forall|i: int, j: int| 0 <= i < j < r.len() implies (#[trigger] r[i]).0 != (
        #[trigger] r[j]).0 by {
            assert(r[i] == e[i]);
            if j < e.len() {
                assert(e[i].0 != e[j].0);
            }
        }
    }
    assert forall|k: int| 0 <= k < s.len() implies stands_for(r, #[trigger] s[k]) by {
        if k < t.len() {
            assert(stands_for(e, t[k]));
            let i = choose|i: int|
                0 <= i < e.len() && (#[trigger] e[i]).0 == t[k].0 && pair_le(e[i], t[k]);
            assert(r[i] == e[i]);
        } else {
            pair_order_is_total();
            assert(ple(x, x));
            assert(r[e.len() as int] == x);
        }
    }
}

/// The variants of the components' properties are listed in order, each once,
/// and nothing else is listed.
pub proof fn components_are_listed_in_order(manifest: PaxManifest, import_prefix: Seq<char>)
    ensures
        sorted_by(manifest.properties_coproduct(import_prefix), pair_order()),
        manifest.properties_coproduct(import_prefix).no_duplicates(),
        forall|v: Variant|
            manifest.properties_coproduct(import_prefix).contains(v) <==> exists|i: int|
                0 <= i < manifest.components.entries@.len() && v == component_variant(
                    (#[trigger] manifest.components.entries@[i]).1,
                    import_prefix,
                ),
{
    let n = manifest.components.entries@.len() as int;
    lemma_component_variants_are_finite(manifest, import_prefix, n);
    pair_order_is_total();
    let d = component_variants(manifest, import_prefix, n);
    lemma_an_order_exists(d, pair_order());
    let s = manifest.properties_coproduct(import_prefix);
    assert forall|v: Variant| s.contains(v) <==> d.contains(v) by {
        assert(s.to_set().contains(v) <==> d.contains(v));
    }
}

/// The types are listed in order and no two of them share a variant. Each is
/// a type of some property or always there, and of those that would have its
/// variant it is the least.
pub proof fn each_variant_has_one_type(manifest: PaxManifest, import_prefix: Seq<char>)
    ensures
        sorted_by(manifest.types_coproduct(import_prefix), pair_order()),
        first_texts_differ(manifest.types_coproduct(import_prefix)),
        forall|i: int|
            0 <= i < manifest.types_coproduct(import_prefix).len()
                ==> manifest.candidate_types(import_prefix).contains(
                #[trigger] manifest.types_coproduct(import_prefix)[i],
            ),
        forall|v: Variant| #[trigger]
            manifest.candidate_types(import_prefix).contains(v) ==> stands_for(
                manifest.types_coproduct(import_prefix),
                v,
            ),
{
    let n = manifest.components.entries@.len() as int;
    lemma_all_property_variants_are_finite(manifest, import_prefix, n);
    pair_order_is_total();
    let d = manifest.candidate_types(import_prefix);
    assert(d.finite());
    lemma_an_order_exists(d, pair_order());
    let s = ordered(d, pair_order());
    let r = manifest.types_coproduct(import_prefix);
    lemma_first_of_each_is_kept(s);
    assert forall|v: Variant| s.contains(v) <==> #[trigger] d.contains(v) by {
        assert(s.to_set().contains(v) <==> d.contains(v));
    }
    assert forall|v: Variant| #[trigger] d.contains(v) implies stands_for(r, v) by {
        assert(s.contains(v));
        let k = choose|k: int| 0 <= k < s.len() && s[k] == v;
        assert(stands_for(r, s[k]));
    }
}

/// Each property of each component finds the variant of its type and, where it
/// is a `Vec`, of the element type; and so does each type that is always there.
pub proof fn every_property_has_a_variant(
    manifest: PaxManifest,
    import_prefix: Seq<char>,
    v: Variant,
)
    requires
        built_in_variants().contains(v) || exists|i: int, j: int|
            0 <= i < manifest.components.entries@.len() && 0 <= j < manifest.properties_of(
                manifest.components.entries@[i].1,
            ).len() && brings_in(
                manifest,
                #[trigger] manifest.properties_of(manifest.components.entries@[i].1)[j],
                import_prefix,
                v,
            ),
    ensures
        exists|i: int|
            0 <= i < manifest.types_coproduct(import_prefix).len() && (
            #[trigger] manifest.types_coproduct(import_prefix)[i]).0 == v.0,
{
    each_variant_has_one_type(manifest, import_prefix);
    if !built_in_variants().contains(v) {
        let (i, j) = choose|i: int, j: int|
            0 <= i < manifest.components.entries@.len() && 0 <= j < manifest.properties_of(
                manifest.components.entries@[i].1,
            ).len() && brings_in(
                manifest,
                #[trigger] manifest.properties_of(manifest.components.entries@[i].1)[j],
                import_prefix,
                v,
            );
        let cd = manifest.components.entries@[i].1;
        assert(property_variants(
            manifest,
            cd,
            import_prefix,
            manifest.properties_of(cd).len() as int,
        ).contains(v));
        assert(all_property_variants(
            manifest,
            import_prefix,
            manifest.components.entries@.len() as int,
        ).contains(v));
    } else {
        assert(built_in_variants().to_set().contains(v));
    }
    assert(manifest.candidate_types(import_prefix).contains(v));
    assert(stands_for(manifest.types_coproduct(import_prefix), v));
}

/// The element type of `std::vec::Vec<T>` is `T`, and no other type has an
/// element type.
pub proof fn only_a_vec_has_an_element_type(type_id: Seq<char>, t: Seq<char>)
    ensures
        element_type(type_id) == Some(t) <==> type_id == "std::vec::Vec<"@ + t + ">"@,
{
    reveal_strlit("std::vec::Vec<");
    reveal_strlit(">");
    let opening = "std::vec::Vec<"@;
    if type_id == opening + t + ">"@ {
        assert(type_id.subrange(0, 14) =~= opening);
        assert(type_id.subrange(type_id.len() - 1, type_id.len() as int) =~= ">"@);
        assert(type_id.subrange(14, type_id.len() - 1) =~= t);
    }
    if element_type(type_id) == Some(t) {
        assert(type_id.subrange(0, 14) =~= opening);
        assert(type_id.subrange(type_id.len() - 1, type_id.len() as int) == ">"@);
        assert(type_id.subrange(type_id.len() - 1, type_id.len() as int)[0] == '>');
        assert(type_id[13] == opening[13]);
        assert(type_id =~= opening + t + ">"@);
    }
}

} // verus!
