//! Type ids that name the application's own types are completed with what
//! leads to its crate.

use crate::manifest::{
    HostCrateInfo, PaxManifest, PropertyDefinition, PropertyView, TypeDefinition, TypeTable,
    TypeView,
};
use crate::table::{keys_of, StringTable};
use crate::text::{
    contains_text, first_at, lemma_first_exists, lemma_join_without_char, occurs_at, replace,
    replace_text, replace_without_match, replacing_is_complete, split,
};
use vstd::prelude::*;

verus! {

/// The place in a type id for what leads to the application's crate.
pub open spec fn placeholder() -> Seq<char> {
    "{PREFIX}"@
}

/// A property with the placeholder of its type id filled in.
pub open spec fn prefixed_property(p: PropertyView, prefix: Seq<char>) -> PropertyView {
    PropertyView { type_id: replace(p.type_id, placeholder(), prefix), ..p }
}

/// A type with the placeholders of its type ids filled in; the escaped id just
/// loses it.
pub open spec fn prefixed_type(t: TypeView, prefix: Seq<char>) -> TypeView {
    TypeView {
        type_id: replace(t.type_id, placeholder(), prefix),
        type_id_escaped: replace(t.type_id_escaped, placeholder(), Seq::empty()),
        import_path: t.import_path,
        property_definitions: t.property_definitions.map_values(
            |p: PropertyView| prefixed_property(p, prefix),
        ),
    }
}

/// The types of a list of entries, each under its key with the placeholder
/// filled in. Where two keys come out the same, the later entry stands.
pub open spec fn prefixed_types(entries: Seq<(String, TypeDefinition)>, prefix: Seq<char>) -> Map<
    Seq<char>,
    TypeView,
>
    decreases entries.len(),
{
    if entries.len() == 0 {
        Map::empty()
    } else {
        prefixed_types(entries.drop_last(), prefix).insert(
            replace(entries.last().0@, placeholder(), prefix),
            prefixed_type(entries.last().1@, prefix),
        )
    }
}

fn prefixed_type_definition(t: &TypeDefinition, prefix: &str) -> (r: TypeDefinition)
    ensures
        r@ == prefixed_type(t@, prefix@),
{
    proof {
        reveal_strlit("{PREFIX}");
        reveal_strlit("");
        assert(""@ =~= Seq::<char>::empty());
    }
    let mut property_definitions: Vec<PropertyDefinition> = Vec::new();
    let mut i: usize = 0;
    while i < t.property_definitions.len()
        invariant
            placeholder().len() > 0,
            i <= t.property_definitions.len(),
            property_definitions.len() == i,
            forall|j: int|
                0 <= j < i ==> (#[trigger] property_definitions@[j])@ == prefixed_property(
                    t.property_definitions@[j]@,
                    prefix@,
                ),
        decreases t.property_definitions.len() - i,
    {
        let p: &PropertyDefinition = &t.property_definitions[i];
        property_definitions.push(
            PropertyDefinition {
                name: p.name.clone(),
                type_id: replace_text(p.type_id.as_str(), "{PREFIX}", prefix),
            },
        );
        i += 1;
    }
    let r: TypeDefinition = TypeDefinition {
        type_id: replace_text(t.type_id.as_str(), "{PREFIX}", prefix),
        type_id_escaped: replace_text(t.type_id_escaped.as_str(), "{PREFIX}", ""),
        import_path: t.import_path.clone(),
        property_definitions,
    };
    assert(r@.property_definitions =~= prefixed_type(t@, prefix@).property_definitions);
    r
}

/// Fills in the placeholder in the keys and type ids of the manifest's types.
pub fn update_property_prefixes_in_place(
    manifest: &mut PaxManifest,
    host_crate_info: &HostCrateInfo,
)
    requires
        old(manifest).type_table.wf(),
    ensures
        final(manifest).type_table.wf(),
        final(manifest).type_table@.map_values(|t: TypeDefinition| t@) == prefixed_types(
            old(manifest).type_table.entries@,
            host_crate_info.import_prefix@,
        ),
        final(manifest).import_paths == old(manifest).import_paths,
        final(manifest).components == old(manifest).components,
        final(manifest).expression_specs == old(manifest).expression_specs,
{
    let prefix: &str = host_crate_info.import_prefix.as_str();
    let ghost entries = manifest.type_table.entries@;
    proof {
        reveal_strlit("{PREFIX}");
    }
    let mut updated: StringTable<TypeDefinition> = StringTable::new();
    let mut i: usize = 0;
    assert(updated@.map_values(|t: TypeDefinition| t@) =~= prefixed_types(
        entries.take(0),
        prefix@,
    ));
    while i < manifest.type_table.entries.len()
        invariant
            placeholder().len() > 0,
            entries == manifest.type_table.entries@,
            prefix@ == host_crate_info.import_prefix@,
            i <= entries.len(),
            updated.wf(),
            updated@.map_values(|t: TypeDefinition| t@) == prefixed_types(
                entries.take(i as int),
                prefix@,
            ),
        decreases entries.len() - i,
    {
        let ghost before = updated@;
        let key: String = replace_text(
            manifest.type_table.entries[i].0.as_str(),
            "{PREFIX}",
            prefix,
        );
        let definition: TypeDefinition = prefixed_type_definition(
            &manifest.type_table.entries[i].1,
            prefix,
        );
        updated.insert(key, definition);
        proof {
            assert(entries.take(i + 1).drop_last() =~= entries.take(i as int));
            assert(before.insert(key@, definition).map_values(|t: TypeDefinition| t@)
                =~= before.map_values(|t: TypeDefinition| t@).insert(key@, definition@));
        }
        i += 1;
    }
    assert(entries.take(entries.len() as int) =~= entries);
    manifest.type_table = updated;
}

/// A type without a placeholder is left as it is.
pub proof fn a_type_without_placeholder_stays(t: TypeView, prefix: Seq<char>)
    requires
        !contains_text(t.type_id, placeholder()),
        !contains_text(t.type_id_escaped, placeholder()),
        forall|i: int|
            0 <= i < t.property_definitions.len() ==> !contains_text(
                (#[trigger] t.property_definitions[i]).type_id,
                placeholder(),
            ),
    ensures
        prefixed_type(t, prefix) == t,
{
    replace_without_match(t.type_id, placeholder(), prefix);
    replace_without_match(t.type_id_escaped, placeholder(), Seq::empty());
    assert forall|i: int| 0 <= i < t.property_definitions.len() implies prefixed_property(
        #[trigger] t.property_definitions[i],
        prefix,
    ) == t.property_definitions[i] by {
        replace_without_match(t.property_definitions[i].type_id, placeholder(), prefix);
    }
    assert(prefixed_type(t, prefix).property_definitions =~= t.property_definitions);
}

/// Each type is found under its own key with the placeholder filled in, if no
/// later key comes out the same.
pub proof fn each_type_is_found_under_its_prefixed_key(
    entries: Seq<(String, TypeDefinition)>,
    prefix: Seq<char>,
    i: int,
)
    requires
        0 <= i < entries.len(),
        forall|j: int|
            i < j < entries.len() ==> replace((#[trigger] entries[j]).0@, placeholder(), prefix)
                != replace(entries[i].0@, placeholder(), prefix),
    ensures
        ({
            let key = replace(entries[i].0@, placeholder(), prefix);
            &&& prefixed_types(entries, prefix).contains_key(key)
            &&& prefixed_types(entries, prefix)[key] == prefixed_type(entries[i].1@, prefix)
        }),
    decreases entries.len(),
{
    let shorter = entries.drop_last();
    if i < shorter.len() {
        assert(shorter[i] == entries[i]);
        assert(entries[entries.len() - 1] == entries.last());
        assert forall|j: int| i < j < shorter.len() implies replace(
            (#[trigger] shorter[j]).0@,
            placeholder(),
            prefix,
        ) != replace(shorter[i].0@, placeholder(), prefix) by {
            assert(shorter[j] == entries[j]);
        }
        each_type_is_found_under_its_prefixed_key(shorter, prefix, i);
    }
}

/// Every key of the new table is a key of the old one with the placeholder
/// filled in.
pub proof fn every_prefixed_key_comes_from_a_key(
    entries: Seq<(String, TypeDefinition)>,
    prefix: Seq<char>,
    key: Seq<char>,
)
    requires
        prefixed_types(entries, prefix).contains_key(key),
    ensures
        exists|i: int|
            0 <= i < entries.len() && key == replace(
                (#[trigger] entries[i]).0@,
                placeholder(),
                prefix,
            ),
    decreases entries.len(),
{
    if entries.len() > 0 {
        assert(entries[entries.len() - 1] == entries.last());
        if key != replace(entries.last().0@, placeholder(), prefix) {
            let shorter = entries.drop_last();
            every_prefixed_key_comes_from_a_key(shorter, prefix, key);
            let i = choose|i: int|
                0 <= i < shorter.len() && key == replace(
                    (#[trigger] shorter[i]).0@,
                    placeholder(),
                    prefix,
                );
            assert(entries[i] == shorter[i]);
        }
    }
}

/// With a prefix that holds a colon and no brace, no placeholder is left in a
/// type id, and filling in once more changes nothing.
pub proof fn filling_in_is_complete(s: Seq<char>, prefix: Seq<char>, other: Seq<char>)
    requires
        prefix.contains(':'),
        !prefix.contains('{'),
        !prefix.contains('}'),
    ensures
        !contains_text(replace(s, placeholder(), prefix), placeholder()),
        replace(replace(s, placeholder(), prefix), placeholder(), other) == replace(
            s,
            placeholder(),
            prefix,
        ),
{
    reveal_strlit("{PREFIX}");
    let w = choose|w: int| 0 <= w < prefix.len() && prefix[w] == ':';
    let pat = placeholder();
    assert(!pat.contains(':')) by {
        if pat.contains(':') {
            let i = choose|i: int| 0 <= i < pat.len() && pat[i] == ':';
            assert(pat[i] != ':');
        }
    }
    replacing_is_complete(s, pat, prefix, w);
    replace_without_match(replace(s, pat, prefix), pat, other);
}

/// Braces open placeholders and nothing else.
pub open spec fn opens_placeholders_only(s: Seq<char>) -> bool {
    forall|i: int| 0 <= i < s.len() && #[trigger] s[i] == '{' ==> occurs_at(s, placeholder(), i)
}

/// The same of the key and of all ids of a type.
pub open spec fn entry_opens_placeholders_only(key: Seq<char>, t: TypeView) -> bool {
    &&& opens_placeholders_only(key)
    &&& opens_placeholders_only(t.type_id)
    &&& opens_placeholders_only(t.type_id_escaped)
    &&& forall|i: int|
        0 <= i < t.property_definitions.len() ==> opens_placeholders_only(
            (#[trigger] t.property_definitions[i]).type_id,
        )
}

/// No placeholder is left in the key and the ids of a type.
pub open spec fn is_filled_in(key: Seq<char>, t: TypeView) -> bool {
    &&& !contains_text(key, placeholder())
    &&& !contains_text(t.type_id, placeholder())
    &&& !contains_text(t.type_id_escaped, placeholder())
    &&& forall|i: int|
        0 <= i < t.property_definitions.len() ==> !contains_text(
            (#[trigger] t.property_definitions[i]).type_id,
            placeholder(),
        )
}

proof fn lemma_parts_have_no_brace(s: Seq<char>, i: int)
    requires
        opens_placeholders_only(s),
        0 <= i < split(s, placeholder()).len(),
    ensures
        !split(s, placeholder())[i].contains('{'),
    decreases s.len(),
{
    reveal_strlit("{PREFIX}");
    let pat = placeholder();
    if contains_text(s, pat) {
        lemma_first_exists(s, pat, choose|j: int| occurs_at(s, pat, j));
        let k = choose|k: int| first_at(s, pat, k);
        if i == 0 {
            let part = s.take(k);
            if part.contains('{') {
                let j = choose|j: int| 0 <= j < part.len() && part[j] == '{';
                assert(s[j] == '{');
                assert(occurs_at(s, pat, j));
            }
        } else {
            let rest = s.skip(k + pat.len());
            assert forall|j: int|
                0 <= j < rest.len() && #[trigger] rest[j] == '{' implies occurs_at(
                rest,
                pat,
                j,
            ) by {
                let at = j + k + pat.len();
                assert(s[at] == '{');
                assert(occurs_at(s, pat, at));
                assert(rest.subrange(j, j + pat.len()) =~= s.subrange(at, at + pat.len()));
            }
            lemma_parts_have_no_brace(rest, i - 1);
        }
    } else {
        if s.contains('{') {
            let j = choose|j: int| 0 <= j < s.len() && s[j] == '{';
            assert(occurs_at(s, pat, j));
        }
    }
}

proof fn lemma_filled_in(s: Seq<char>, prefix: Seq<char>)
    requires
        opens_placeholders_only(s),
        !prefix.contains('{'),
    ensures
        !contains_text(replace(s, placeholder(), prefix), placeholder()),
{
    reveal_strlit("{PREFIX}");
    let pat = placeholder();
    let parts = split(s, pat);
    assert forall|i: int| 0 <= i < parts.len() implies !(#[trigger] parts[i]).contains('{') by {
        lemma_parts_have_no_brace(s, i);
    }
    lemma_join_without_char(parts, prefix, '{');
    let r = replace(s, pat, prefix);
    if contains_text(r, pat) {
        let j = choose|j: int| occurs_at(r, pat, j);
        assert(r.subrange(j, j + pat.len())[0] == pat[0]);
        assert(r[j] == '{');
    }
}

proof fn lemma_type_is_filled_in(key: Seq<char>, t: TypeView, prefix: Seq<char>)
    requires
        entry_opens_placeholders_only(key, t),
        !prefix.contains('{'),
    ensures
        is_filled_in(replace(key, placeholder(), prefix), prefixed_type(t, prefix)),
{
    lemma_filled_in(key, prefix);
    lemma_filled_in(t.type_id, prefix);
    lemma_filled_in(t.type_id_escaped, Seq::empty());
    assert forall|i: int| 0 <= i < t.property_definitions.len() implies !contains_text(
        (#[trigger] prefixed_type(t, prefix).property_definitions[i]).type_id,
        placeholder(),
    ) by {
        lemma_filled_in(t.property_definitions[i].type_id, prefix);
    }
}

/// Where braces open placeholders and nothing else, and the prefix has none, no
/// key and no id of the new table holds a placeholder.
pub proof fn no_placeholder_is_left(
    entries: Seq<(String, TypeDefinition)>,
    prefix: Seq<char>,
    key: Seq<char>,
)
    requires
        forall|i: int|
            0 <= i < entries.len() ==> entry_opens_placeholders_only(
                (#[trigger] entries[i]).0@,
                entries[i].1@,
            ),
        !prefix.contains('{'),
        prefixed_types(entries, prefix).contains_key(key),
    ensures
        is_filled_in(key, prefixed_types(entries, prefix)[key]),
    decreases entries.len(),
{
    if entries.len() > 0 {
        let last = entries.last();
        assert(entries[entries.len() - 1] == last);
        if key == replace(last.0@, placeholder(), prefix) {
            lemma_type_is_filled_in(last.0@, last.1@, prefix);
        } else {
            let shorter = entries.drop_last();
            assert forall|i: int| 0 <= i < shorter.len() implies entry_opens_placeholders_only(
                (#[trigger] shorter[i]).0@,
                shorter[i].1@,
            ) by {
                assert(shorter[i] == entries[i]);
            }
            no_placeholder_is_left(shorter, prefix, key);
        }
    }
}

proof fn lemma_filled_in_types_stay(
    entries: Seq<(String, TypeDefinition)>,
    prefix: Seq<char>,
    key: Seq<char>,
)
    requires
        keys_of(entries).no_duplicates(),
        forall|i: int|
            0 <= i < entries.len() ==> is_filled_in((#[trigger] entries[i]).0@, entries[i].1@),
    ensures
        prefixed_types(entries, prefix).contains_key(key) <==> keys_of(entries).contains(key),
        prefixed_types(entries, prefix).contains_key(key) ==> prefixed_types(entries, prefix)[key]
            == entries[keys_of(entries).index_of(key)].1@,
    decreases entries.len(),
{
    if entries.len() > 0 {
        let shorter = entries.drop_last();
        let last = entries.last();
        let n = entries.len() - 1;
        assert(entries[n] == last);
        assert(keys_of(shorter) =~= keys_of(entries).drop_last());
        assert forall|i: int| 0 <= i < shorter.len() implies is_filled_in(
            (#[trigger] shorter[i]).0@,
            shorter[i].1@,
        ) by {
            assert(shorter[i] == entries[i]);
        }
        lemma_filled_in_types_stay(shorter, prefix, key);
        replace_without_match(last.0@, placeholder(), prefix);
        a_type_without_placeholder_stays(last.1@, prefix);
        let keys = keys_of(entries);
        assert(keys[n] == last.0@);
        if keys.contains(key) {
            let j = keys.index_of(key);
            assert(keys[j] == key);
            if j < n {
                assert(keys_of(shorter)[j] == key);
                let i = keys_of(shorter).index_of(key);
                assert(keys_of(shorter)[i] == key);
                assert(keys[i] == key);
            }
        }
        if keys_of(shorter).contains(key) {
            let i = keys_of(shorter).index_of(key);
            assert(keys[i] == key);
        }
    }
}

/// Where braces open placeholders and nothing else, and the prefix has none,
/// filling in the placeholders of a table a second time changes nothing.
pub proof fn filling_in_twice_is_filling_in_once(
    before: TypeTable,
    after: TypeTable,
    prefix: Seq<char>,
)
    requires
        forall|i: int|
            0 <= i < before.entries@.len() ==> entry_opens_placeholders_only(
                (#[trigger] before.entries@[i]).0@,
                before.entries@[i].1@,
            ),
        !prefix.contains('{'),
        after.wf(),
        after@.map_values(|t: TypeDefinition| t@) == prefixed_types(before.entries@, prefix),
    ensures
        prefixed_types(after.entries@, prefix) == prefixed_types(before.entries@, prefix),
{
    let once = prefixed_types(before.entries@, prefix);
    let twice = prefixed_types(after.entries@, prefix);
    assert forall|i: int| 0 <= i < after.entries@.len() implies is_filled_in(
        (#[trigger] after.entries@[i]).0@,
        after.entries@[i].1@,
    ) by {
        let key = after.entries@[i].0@;
        after.lemma_value_at(i);
        assert(after@.map_values(|t: TypeDefinition| t@).contains_key(key));
        assert(once[key] == after.entries@[i].1@);
        no_placeholder_is_left(before.entries@, prefix, key);
    }
    assert forall|key: Seq<char>| #[trigger] twice.contains_key(key) <==> once.contains_key(
        key,
    ) by {
        lemma_filled_in_types_stay(after.entries@, prefix, key);
        assert(once.contains_key(key) <==> after@.contains_key(key));
    }
    assert forall|key: Seq<char>| #[trigger] twice.contains_key(key) implies twice[key]
        == once[key] by {
        lemma_filled_in_types_stay(after.entries@, prefix, key);
        assert(once[key] == after@[key]@);
    }
    assert(twice =~= once);
}

} // verus!
