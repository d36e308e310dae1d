//! Which variants the coproduct has, and where their types are found.

use crate::coproduct::{
    all_property_variants, brings_in, built_in_variants, component_variant,
    components_are_listed_in_order, each_variant_has_one_type, element_type, first_texts_differ,
    only_a_vec_has_an_element_type, pair_le, pair_order, properties_coproduct_args,
    property_variants, stands_for, type_variant,
    TemplateArgsCodegenPropertiesCoproductLib, Variant,
};
use crate::layout_laws::lemma_split_concat;
use crate::manifest::{
    ComponentDefinition, HostCrateInfo, PaxManifest, PropertyDefinition, TypeDefinition,
};
use crate::namespace::separator;
use crate::nesting::{modules_around, without_crate};
use crate::text::{
    contains_text, join, join_undoes_split, lemma_join_concat, lemma_join_first, lemma_split_front,
    occurs_at, replace, replace_without_match, split, split_is_not_empty, text_le, text_pairs,
};
use crate::text_laws::an_occurrence_is_replaced;
use vstd::prelude::*;
use vstd::string::*;

verus! {

/// `path` leads to the component: behind the prefix come the segments of its
/// module, every `crate::` left out, and its own identifier. In the module
/// `crate` there are no segments.
pub open spec fn leads_to_component(
    cd: ComponentDefinition,
    import_prefix: Seq<char>,
    path: Seq<char>,
) -> bool {
    if cd.module@ == "crate"@ {
        path == import_prefix + cd.pascal_identifier@
    } else {
        path == import_prefix + replace(cd.module@, "crate::"@, Seq::empty()) + "::"@
            + cd.pascal_identifier@
    }
}

/// The pair is the variant of the component and the path to it.
pub open spec fn is_variant_of(
    cd: ComponentDefinition,
    import_prefix: Seq<char>,
    pair: (String, String),
) -> bool {
    &&& pair.0@ == cd.type_id_escaped@
    &&& leads_to_component(cd, import_prefix, pair.1@)
}

proof fn lemma_component_variant(
    cd: ComponentDefinition,
    import_prefix: Seq<char>,
    pair: (String, String),
)
    ensures
        is_variant_of(cd, import_prefix, pair) <==> component_variant(cd, import_prefix) == (
            pair.0@,
            pair.1@,
        ),
{
    let path = component_variant(cd, import_prefix).1;
    if cd.module@ == "crate"@ {
        assert(path =~= import_prefix + cd.pascal_identifier@);
    } else {
        assert(path =~= import_prefix + replace(cd.module@, "crate::"@, Seq::empty()) + "::"@
            + cd.pascal_identifier@);
    }
}

/// The component has a variant among the pairs.
pub open spec fn has_variant(
    pairs: Seq<(String, String)>,
    cd: ComponentDefinition,
    import_prefix: Seq<char>,
) -> bool {
    exists|j: int| 0 <= j < pairs.len() && is_variant_of(cd, import_prefix, #[trigger] pairs[j])
}

/// The pair is the variant of a component.
pub open spec fn has_component(
    entries: Seq<(String, ComponentDefinition)>,
    pair: (String, String),
    import_prefix: Seq<char>,
) -> bool {
    exists|i: int|
        0 <= i < entries.len() && is_variant_of((#[trigger] entries[i]).1, import_prefix, pair)
}

/// Every component has its variant with the path to it, and nothing else has
/// one. The pairs stand in order, none twice.
pub proof fn every_component_has_its_variant(
    manifest: &PaxManifest,
    host: &HostCrateInfo,
    r: TemplateArgsCodegenPropertiesCoproductLib,
)
    requires
        call_ensures(properties_coproduct_args, (manifest, host), r),
    ensures
        forall|i: int|
            0 <= i < manifest.components.entries@.len() ==> has_variant(
                r.properties_coproduct_tuples@,
                (#[trigger] manifest.components.entries@[i]).1,
                host.import_prefix@,
            ),
        forall|j: int|
            0 <= j < r.properties_coproduct_tuples@.len() ==> has_component(
                manifest.components.entries@,
                #[trigger] r.properties_coproduct_tuples@[j],
                host.import_prefix@,
            ),
        forall|j: int, k: int|
            0 <= j < k < r.properties_coproduct_tuples@.len() ==> comes_before(
                #[trigger] r.properties_coproduct_tuples@[j],
                #[trigger] r.properties_coproduct_tuples@[k],
            ),
{
    let prefix = host.import_prefix@;
    let t = r.properties_coproduct_tuples@;
    let s = text_pairs(t);
    let entries = manifest.components.entries@;
    components_are_listed_in_order(*manifest, prefix);
    assert(s == manifest.properties_coproduct(prefix));
    assert forall|i: int| 0 <= i < entries.len() implies has_variant(
        t,
        (#[trigger] entries[i]).1,
        prefix,
    ) by {
        let v = component_variant(entries[i].1, prefix);
        assert(s.contains(v));
        let j = choose|j: int| 0 <= j < s.len() && s[j] == v;
        assert(s[j] == (t[j].0@, t[j].1@));
        lemma_component_variant(entries[i].1, prefix, t[j]);
        assert(is_variant_of(entries[i].1, prefix, t[j]));
    }
    assert forall|j: int| 0 <= j < t.len() implies has_component(
        entries,
        #[trigger] t[j],
        prefix,
    ) by {
        assert(s[j] == (t[j].0@, t[j].1@));
        assert(s.contains(s[j]));
        let i = choose|i: int|
            0 <= i < entries.len() && s[j] == component_variant((#[trigger] entries[i]).1, prefix);
        lemma_component_variant(entries[i].1, prefix, t[j]);
        assert(is_variant_of(entries[i].1, prefix, t[j]));
    }
    assert forall|j: int, k: int| 0 <= j < k < t.len() implies comes_before(
        #[trigger] t[j],
        #[trigger] t[k],
    ) by {
        let ple = pair_order();
        assert(ple(s[j], s[k]));
        assert(s[j] != s[k]);
    }
}

/// The first pair comes strictly before the second.
pub open spec fn comes_before(a: (String, String), b: (String, String)) -> bool {
    if a.0@ == b.0@ {
        a.1@ != b.1@ && text_le(a.1@, b.1@)
    } else {
        text_le(a.0@, b.0@)
    }
}

/// `crate::` stands at the front of the module or nowhere, and the module does
/// not end with a colon.
pub open spec fn is_plain_module(module: Seq<char>) -> bool {
    &&& module.len() > 0 && module.last() != ':'
    &&& {
        ||| !contains_text(module, "crate::"@)
        ||| exists|rest: Seq<char>|
            module == #[trigger] ("crate::"@ + rest) && !contains_text(rest, "crate::"@)
    }
}

/// The path to a component is where the module of re-exports re-exports the
/// component: the modules around it and its identifier, behind the prefix.
pub proof fn a_component_is_found_where_it_is_reexported(
    cd: ComponentDefinition,
    import_prefix: Seq<char>,
    path: Seq<char>,
)
    requires
        leads_to_component(cd, import_prefix, path),
        is_plain_module(cd.module@),
        !cd.pascal_identifier@.contains(':'),
    ensures
        path == import_prefix + join(
            modules_around(cd.module@ + "::"@ + cd.pascal_identifier@).push(cd.pascal_identifier@),
            "::"@,
        ),
{
    lemma_where_reexported(cd.module@, cd.pascal_identifier@);
    let last = cd.pascal_identifier@;
    if cd.module@ == "crate"@ {
        assert(path =~= import_prefix + last);
    } else {
        assert(path =~= import_prefix + (replace(cd.module@, "crate::"@, Seq::empty()) + "::"@
            + last));
    }
}

/// Where `module::last` is re-exported, below the module of re-exports.
pub proof fn lemma_where_reexported(module: Seq<char>, last: Seq<char>)
    requires
        is_plain_module(module),
        !last.contains(':'),
    ensures
        join(modules_around(module + "::"@ + last).push(last), "::"@) == (if module == "crate"@ {
            last
        } else {
            replace(module, "crate::"@, Seq::empty()) + "::"@ + last
        }),
{
    reveal_strlit("::");
    reveal_strlit("crate");
    reveal_strlit("crate::");
    let sep = separator();
    let namespace = module + sep + last;
    let parts = split(module, sep);
    assert(split(last, sep) =~= seq![last]) by {
        assert forall|j: int| !occurs_at(last, sep, j) by {
            if occurs_at(last, sep, j) {
                assert(last.subrange(j, j + 2)[0] == ':');
                assert(last[j] == ':');
            }
        }
    }
    lemma_split_concat(module, last);
    assert(split(namespace, sep).drop_last() =~= parts);
    assert(modules_around(namespace) == without_crate(parts));
    split_is_not_empty(module, sep);
    join_undoes_split(module, sep);
    if module == "crate"@ {
        assert(!contains_text(module, sep)) by {
            assert forall|j: int| !occurs_at(module, sep, j) by {
                if occurs_at(module, sep, j) {
                    assert(module.subrange(j, j + 2)[0] == ':');
                    assert(j == 0 || j == 1 || j == 2 || j == 3);
                }
            }
        }
        assert(parts =~= seq![module]);
        assert(without_crate(parts) =~= Seq::<Seq<char>>::empty());
        assert(Seq::<Seq<char>>::empty().push(last) =~= seq![last]);
        assert(join(seq![last], sep) == last);
    } else if contains_text(module, "crate::"@) {
        let rest = choose|rest: Seq<char>|
            module == #[trigger] ("crate::"@ + rest) && !contains_text(rest, "crate::"@);
        assert("crate::"@ =~= "crate"@ + sep);
        assert(module =~= "crate"@ + sep + rest);
        assert forall|j: int| 0 <= j < "crate"@.len() implies !occurs_at(
            "crate"@ + sep + rest,
            sep,
            j,
        ) by {
            if occurs_at("crate"@ + sep + rest, sep, j) {
                assert(("crate"@ + sep + rest).subrange(j, j + 2)[0] == ':');
                assert(j == 0 || j == 1 || j == 2 || j == 3 || j == 4);
            }
        }
        lemma_split_front("crate"@, sep, rest);
        assert(parts[0] == "crate"@);
        assert(without_crate(parts) =~= split(rest, sep));
        let none = Seq::<char>::empty();
        assert(none + "crate::"@ + rest =~= module);
        an_occurrence_is_replaced(none, "crate::"@, rest, none);
        replace_without_match(rest, "crate::"@, none);
        assert(none + none + rest =~= rest);
        assert(replace(module, "crate::"@, none) == rest);
        split_is_not_empty(rest, sep);
        lemma_joined_behind(rest, last);
    } else {
        replace_without_match(module, "crate::"@, Seq::empty());
        if parts[0] == "crate"@ {
            if parts.len() == 1 {
                assert(join(parts, sep) == parts[0]);
            } else {
                lemma_join_first(parts, sep);
                assert(module.subrange(0, 7) =~= "crate::"@);
                assert(occurs_at(module, "crate::"@, 0));
            }
        }
        assert(without_crate(parts) == parts);
        lemma_joined_behind(module, last);
    }
}

proof fn lemma_joined_behind(module: Seq<char>, last: Seq<char>)
    ensures
        join(split(module, separator()).push(last), separator()) == module + separator() + last,
{
    let sep = separator();
    let parts = split(module, sep);
    split_is_not_empty(module, sep);
    join_undoes_split(module, sep);
    assert(parts.push(last) =~= parts + seq![last]);
    lemma_join_concat(parts, seq![last], sep);
    assert(join(seq![last], sep) == last);
}

/// The pair is the variant of the type and the path to it, every `crate::` left
/// out.
pub open spec fn names_type(
    t: TypeDefinition,
    import_prefix: Seq<char>,
    key: Seq<char>,
    path: Seq<char>,
) -> bool {
    &&& key == t.type_id_escaped@
    &&& path == import_prefix + replace(t.type_id@, "crate::"@, Seq::empty())
}

/// The pair is one of those that are there for every application.
pub open spec fn is_always_there(key: Seq<char>, path: Seq<char>) -> bool {
    ||| key == "f64"@ && path == "f64"@
    ||| key == "bool"@ && path == "bool"@
    ||| key == "isize"@ && path == "isize"@
    ||| key == "usize"@ && path == "usize"@
    ||| key == "String"@ && path == "String"@
    ||| key == "stdCOCOvecCOCOVecLABRstdCOCOrcCOCORcLABRPropertiesCoproductRABRRABR"@ && path
        == "std::vec::Vec<std::rc::Rc<PropertiesCoproduct>>"@
    ||| key == "Transform2D"@ && path == "pax_runtime_api::Transform2D"@
    ||| key == "stdCOCOopsCOCORangeLABRisizeRABR"@ && path == "std::ops::Range<isize>"@
    ||| key == "Size2D"@ && path == "pax_runtime_api::Size2D"@
    ||| key == "Size"@ && path == "pax_runtime_api::Size"@
    ||| key == "SizePixels"@ && path == "pax_runtime_api::SizePixels"@
    ||| key == "Numeric"@ && path == "pax_runtime_api::Numeric"@
}

/// The property has the type, or is a `Vec` of it.
pub open spec fn concerns(p: PropertyDefinition, type_id: Seq<char>) -> bool {
    p.type_id@ == type_id || p.type_id@ == "std::vec::Vec<"@ + type_id + ">"@
}

/// The pair is always there, or names the type of a property of a component or,
/// where the property is a `Vec`, the type of its elements.
pub open spec fn is_wanted(
    manifest: PaxManifest,
    import_prefix: Seq<char>,
    key: Seq<char>,
    path: Seq<char>,
) -> bool {
    ||| is_always_there(key, path)
    ||| exists|i: int, j: int, id: Seq<char>| #[trigger]
        is_wanted_by(manifest, import_prefix, key, path, i, j, id)
}

/// The pair names the type `id`, which concerns the `j`-th property of the `i`-th
/// component.
pub open spec fn is_wanted_by(
    manifest: PaxManifest,
    import_prefix: Seq<char>,
    key: Seq<char>,
    path: Seq<char>,
    i: int,
    j: int,
    id: Seq<char>,
) -> bool {
    let cd = manifest.components.entries@[i].1;
    let properties = manifest.type_table@[cd.type_id@].property_definitions@;
    &&& 0 <= i < manifest.components.entries@.len()
    &&& 0 <= j < properties.len()
    &&& concerns(properties[j], id)
    &&& manifest.type_table@.contains_key(id)
    &&& names_type(manifest.type_table@[id], import_prefix, key, path)
}

proof fn lemma_built_ins(v: Variant)
    ensures
        built_in_variants().contains(v) <==> is_always_there(v.0, v.1),
{
    let b = built_in_variants();
    assert(b.len() == 12);
    if is_always_there(v.0, v.1) {
        assert(v == (v.0, v.1));
        assert(b[0] == v || b[1] == v || b[2] == v || b[3] == v || b[4] == v || b[5] == v || b[6]
            == v || b[7] == v || b[8] == v || b[9] == v || b[10] == v || b[11] == v);
    }
    if b.contains(v) {
        let i = choose|i: int| 0 <= i < b.len() && b[i] == v;
        assert(i == 0 || i == 1 || i == 2 || i == 3 || i == 4 || i == 5 || i == 6 || i == 7 || i
            == 8 || i == 9 || i == 10 || i == 11);
    }
}

proof fn lemma_wanted(manifest: PaxManifest, import_prefix: Seq<char>, v: Variant)
    requires
        manifest.all_properties_known(),
    ensures
        manifest.candidate_types(import_prefix).contains(v) <==> is_wanted(
            manifest,
            import_prefix,
            v.0,
            v.1,
        ),
{
    let n = manifest.components.entries@.len() as int;
    lemma_built_ins(v);
    let all = all_property_variants(manifest, import_prefix, n);
    if all.contains(v) {
        let i = choose|i: int|
            0 <= i < n && property_variants(
                manifest,
                (#[trigger] manifest.components.entries@[i]).1,
                import_prefix,
                manifest.properties_of(manifest.components.entries@[i].1).len() as int,
            ).contains(v);
        let cd = manifest.components.entries@[i].1;
        let m = manifest.properties_of(cd).len() as int;
        let j = choose|j: int|
            0 <= j < m && brings_in(
                manifest,
                #[trigger] manifest.properties_of(cd)[j],
                import_prefix,
                v,
            );
        let p = manifest.properties_of(cd)[j];
        assert(manifest.properties_known(cd));
        assert(manifest.type_table@.contains_key(p.type_id@));
        if v == type_variant(manifest.type_table@[p.type_id@], import_prefix) {
            assert(is_wanted_by(manifest, import_prefix, v.0, v.1, i, j, p.type_id@));
        } else {
            let id = element_type(p.type_id@)->0;
            only_a_vec_has_an_element_type(p.type_id@, id);
            assert(is_wanted_by(manifest, import_prefix, v.0, v.1, i, j, id));
        }
    }
    if exists|i: int, j: int, id: Seq<char>| #[trigger]
        is_wanted_by(manifest, import_prefix, v.0, v.1, i, j, id) {
        let (i, j, id) = choose|i: int, j: int, id: Seq<char>| #[trigger]
            is_wanted_by(manifest, import_prefix, v.0, v.1, i, j, id);
        let cd = manifest.components.entries@[i].1;
        let p = manifest.properties_of(cd)[j];
        only_a_vec_has_an_element_type(p.type_id@, id);
        assert(v == type_variant(manifest.type_table@[id], import_prefix));
        assert(brings_in(manifest, p, import_prefix, v));
        assert(property_variants(
            manifest,
            cd,
            import_prefix,
            manifest.properties_of(cd).len() as int,
        ).contains(v));
        assert(all.contains(v));
    }
    assert(built_in_variants().to_set().contains(v) <==> built_in_variants().contains(v));
}

/// Every type that is wanted has a variant, and nothing else has one: the types
/// of all properties, of the elements of those that are a `Vec`, and those that
/// are always there. Where several types have one variant, it is that of the one
/// whose path comes first. The variants stand in order, none twice.
pub proof fn every_wanted_type_has_its_variant(
    manifest: &PaxManifest,
    host: &HostCrateInfo,
    r: TemplateArgsCodegenPropertiesCoproductLib,
)
    requires
        manifest.all_properties_known(),
        call_ensures(properties_coproduct_args, (manifest, host), r),
    ensures
        forall|key: Seq<char>, path: Seq<char>| #[trigger]
            is_wanted(*manifest, host.import_prefix@, key, path) ==> exists|k: int|
                0 <= k < r.types_coproduct_tuples@.len() && (
                #[trigger] r.types_coproduct_tuples@[k]).0@ == key && text_le(
                    r.types_coproduct_tuples@[k].1@,
                    path,
                ),
        forall|k: int|
            0 <= k < r.types_coproduct_tuples@.len() ==> is_wanted(
                *manifest,
                host.import_prefix@,
                (#[trigger] r.types_coproduct_tuples@[k]).0@,
                r.types_coproduct_tuples@[k].1@,
            ),
        forall|j: int, k: int|
            0 <= j < k < r.types_coproduct_tuples@.len() ==> (
            #[trigger] r.types_coproduct_tuples@[j]).0@ != (
            #[trigger] r.types_coproduct_tuples@[k]).0@ && text_le(
                r.types_coproduct_tuples@[j].0@,
                r.types_coproduct_tuples@[k].0@,
            ),
{
    let prefix = host.import_prefix@;
    let t = r.types_coproduct_tuples@;
    let s = text_pairs(t);
    each_variant_has_one_type(*manifest, prefix);
    assert(s == manifest.types_coproduct(prefix));
    assert forall|key: Seq<char>, path: Seq<char>| #[trigger]
        is_wanted(*manifest, prefix, key, path) implies exists|k: int|
        0 <= k < t.len() && (#[trigger] t[k]).0@ == key && text_le(t[k].1@, path) by {
        let v = (key, path);
        lemma_wanted(*manifest, prefix, v);
        assert(stands_for(s, v));
        let k = choose|k: int| 0 <= k < s.len() && (#[trigger] s[k]).0 == v.0 && pair_le(s[k], v);
        assert(s[k] == (t[k].0@, t[k].1@));
        assert(t[k].0@ == key && text_le(t[k].1@, path));
    }
    assert forall|k: int| 0 <= k < t.len() implies is_wanted(
        *manifest,
        prefix,
        (#[trigger] t[k]).0@,
        t[k].1@,
    ) by {
        assert(s[k] == (t[k].0@, t[k].1@));
        lemma_wanted(*manifest, prefix, s[k]);
    }
    assert forall|j: int, k: int| 0 <= j < k < t.len() implies (#[trigger] t[j]).0@ != (
    #[trigger] t[k]).0@ && text_le(t[j].0@, t[k].0@) by {
        let ple = pair_order();
        assert(s[j] == (t[j].0@, t[j].1@));
        assert(s[k] == (t[k].0@, t[k].1@));
        assert(first_texts_differ(s));
        assert(s[j].0 != s[k].0);
        assert(ple(s[j], s[k]));
    }
}

} // verus!
