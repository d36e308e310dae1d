//! What filling in the placeholders does to the types of an application.

use crate::manifest::{HostCrateInfo, PaxManifest, TypeDefinition};
use crate::prefixes::{
    each_type_is_found_under_its_prefixed_key, prefixed_type, prefixed_types,
    update_property_prefixes_in_place,
};
use crate::text::{contains_text, occurs_at, replace, replace_without_match};
use crate::text_laws::an_occurrence_is_replaced;
use vstd::prelude::*;
use vstd::string::*;

verus! {

/// `after` is `before` with the placeholders of its ids filled in: in its own id
/// and in those of its properties by the prefix, in its escaped id by nothing.
/// All else is as it was.
pub open spec fn is_filled_in_type(
    before: TypeDefinition,
    prefix: Seq<char>,
    after: TypeDefinition,
) -> bool {
    &&& after.type_id@ == replace(before.type_id@, "{PREFIX}"@, prefix)
    &&& after.type_id_escaped@ == replace(before.type_id_escaped@, "{PREFIX}"@, Seq::empty())
    &&& after.import_path@ == before.import_path@
    &&& after.property_definitions@.len() == before.property_definitions@.len()
    &&& forall|j: int|
        0 <= j < before.property_definitions@.len() ==> {
            &&& (#[trigger] after.property_definitions@[j]).name@
                == before.property_definitions@[j].name@
            &&& after.property_definitions@[j].type_id@ == replace(
                before.property_definitions@[j].type_id@,
                "{PREFIX}"@,
                prefix,
            )
        }
}

/// No later key is the same once it is filled in.
pub open spec fn is_last_of_its_key(
    entries: Seq<(String, TypeDefinition)>,
    prefix: Seq<char>,
    i: int,
) -> bool {
    &&& 0 <= i < entries.len()
    &&& forall|j: int|
        i < j < entries.len() ==> replace((#[trigger] entries[j]).0@, "{PREFIX}"@, prefix)
            != replace(entries[i].0@, "{PREFIX}"@, prefix)
}

proof fn lemma_filled_in_view(before: TypeDefinition, prefix: Seq<char>, after: TypeDefinition)
    requires
        after@ == prefixed_type(before@, prefix),
    ensures
        is_filled_in_type(before, prefix, after),
{
    let x = before.property_definitions@;
    let y = after.property_definitions@;
    assert(after@.property_definitions.len() == y.len());
    assert forall|j: int| 0 <= j < x.len() implies {
        &&& (#[trigger] y[j]).name@ == x[j].name@
        &&& y[j].type_id@ == replace(x[j].type_id@, "{PREFIX}"@, prefix)
    } by {
        assert(after@.property_definitions[j] == y[j]@);
        assert(before@.property_definitions[j] == x[j]@);
    }
}

proof fn lemma_last_of_key_exists(
    entries: Seq<(String, TypeDefinition)>,
    prefix: Seq<char>,
    key: Seq<char>,
)
    requires
        prefixed_types(entries, prefix).contains_key(key),
    ensures
        exists|i: int| #[trigger]
            is_last_of_its_key(entries, prefix, i) && replace(
                entries[i].0@,
                "{PREFIX}"@,
                prefix,
            ) == key,
    decreases entries.len(),
{
    if entries.len() > 0 {
        let n = entries.len() - 1;
        assert(entries[n] == entries.last());
        if replace(entries.last().0@, "{PREFIX}"@, prefix) == key {
            assert(is_last_of_its_key(entries, prefix, n));
        } else {
            let shorter = entries.drop_last();
            lemma_last_of_key_exists(shorter, prefix, key);
            let i = choose|i: int| #[trigger]
                is_last_of_its_key(shorter, prefix, i) && replace(
                    shorter[i].0@,
                    "{PREFIX}"@,
                    prefix,
                ) == key;
            assert(shorter[i] == entries[i]);
            assert forall|j: int| i < j < entries.len() implies replace(
                (#[trigger] entries[j]).0@,
                "{PREFIX}"@,
                prefix,
            ) != replace(entries[i].0@, "{PREFIX}"@, prefix) by {
                if j < n {
                    assert(shorter[j] == entries[j]);
                }
            }
            assert(is_last_of_its_key(entries, prefix, i));
        }
    }
}

/// Every type is found under its key with the placeholders filled in, and so are
/// its own id and those of its properties; where keys come out the same the last
/// stands, and there are no other keys. Nothing but the types changes.
pub proof fn every_type_is_filled_in(manifest: &mut PaxManifest, host: &HostCrateInfo)
    requires
        call_ensures(update_property_prefixes_in_place, (manifest, host), ()),
    ensures
        forall|i: int| #[trigger]
            is_last_of_its_key(old(manifest).type_table.entries@, host.import_prefix@, i) ==> {
                let entry = old(manifest).type_table.entries@[i];
                let key = replace(entry.0@, "{PREFIX}"@, host.import_prefix@);
                &&& final(manifest).type_table@.contains_key(key)
                &&& is_filled_in_type(
                    entry.1,
                    host.import_prefix@,
                    final(manifest).type_table@[key],
                )
            },
        forall|key: Seq<char>| #[trigger]
            final(manifest).type_table@.contains_key(key) ==> exists|i: int| #[trigger]
                is_last_of_its_key(old(manifest).type_table.entries@, host.import_prefix@, i)
                    && replace(
                    old(manifest).type_table.entries@[i].0@,
                    "{PREFIX}"@,
                    host.import_prefix@,
                ) == key,
        final(manifest).type_table.wf(),
        final(manifest).import_paths == old(manifest).import_paths,
        final(manifest).components == old(manifest).components,
        final(manifest).expression_specs == old(manifest).expression_specs,
{
    let entries = old(manifest).type_table.entries@;
    let prefix = host.import_prefix@;
    let table = final(manifest).type_table@;
    let views = table.map_values(|t: TypeDefinition| t@);
    assert(views == prefixed_types(entries, prefix));
    assert forall|i: int| #[trigger] is_last_of_its_key(entries, prefix, i) implies {
        let key = replace(entries[i].0@, "{PREFIX}"@, prefix);
        &&& table.contains_key(key)
        &&& is_filled_in_type(entries[i].1, prefix, table[key])
    } by {
        let key = replace(entries[i].0@, "{PREFIX}"@, prefix);
        each_type_is_found_under_its_prefixed_key(entries, prefix, i);
        assert(views.contains_key(key));
        assert(views[key] == table[key]@);
        lemma_filled_in_view(entries[i].1, prefix, table[key]);
    }
    assert forall|key: Seq<char>| #[trigger]
        table.contains_key(key) implies exists|i: int| #[trigger]
        is_last_of_its_key(entries, prefix, i) && replace(entries[i].0@, "{PREFIX}"@, prefix)
            == key by {
        assert(views.contains_key(key));
        lemma_last_of_key_exists(entries, prefix, key);
    }
}

/// The placeholder gives way to the prefix, and what is around it stays.
pub proof fn a_placeholder_gives_way_to_the_prefix(a: Seq<char>, b: Seq<char>, prefix: Seq<char>)
    requires
        !contains_text(a, "{PREFIX}"@),
        !contains_text(b, "{PREFIX}"@),
    ensures
        replace(a + "{PREFIX}"@ + b, "{PREFIX}"@, prefix) == a + prefix + b,
        replace(a, "{PREFIX}"@, prefix) == a,
{
    reveal_strlit("{PREFIX}");
    let pat = "{PREFIX}"@;
    let s = a + pat + b;
    assert forall|j: int| 0 <= j < a.len() implies !occurs_at(s, pat, j) by {
        if occurs_at(s, pat, j) {
            let found = s.subrange(j, j + 8);
            if j + 8 <= a.len() {
                assert(a.subrange(j, j + 8) =~= found);
                assert(occurs_at(a, pat, j));
            } else {
                let m = a.len() - j;
                assert(found[m] == pat[0]);
                assert(m == 1 || m == 2 || m == 3 || m == 4 || m == 5 || m == 6 || m == 7);
            }
        }
    }
    an_occurrence_is_replaced(a, pat, b, prefix);
    replace_without_match(b, pat, prefix);
    replace_without_match(a, pat, prefix);
}

/// A property whose type had a key has a type that has a key.
pub proof fn a_property_keeps_its_type(
    manifest: &mut PaxManifest,
    host: &HostCrateInfo,
    i: int,
    j: int,
    k: int,
)
    requires
        call_ensures(update_property_prefixes_in_place, (manifest, host), ()),
        is_last_of_its_key(old(manifest).type_table.entries@, host.import_prefix@, i),
        0 <= j < old(manifest).type_table.entries@[i].1.property_definitions@.len(),
        0 <= k < old(manifest).type_table.entries@.len(),
        old(manifest).type_table.entries@[i].1.property_definitions@[j].type_id@
            == old(manifest).type_table.entries@[k].0@,
    ensures
        ({
            let key = replace(
                old(manifest).type_table.entries@[i].0@,
                "{PREFIX}"@,
                host.import_prefix@,
            );
            final(manifest).type_table@.contains_key(
                final(manifest).type_table@[key].property_definitions@[j].type_id@,
            )
        }),
{
    every_type_is_filled_in(manifest, host);
    let entries = old(manifest).type_table.entries@;
    let prefix = host.import_prefix@;
    let id = replace(entries[k].0@, "{PREFIX}"@, prefix);
    lemma_key_is_there(entries, prefix, k);
    let views = final(manifest).type_table@.map_values(|t: TypeDefinition| t@);
    assert(views == prefixed_types(entries, prefix));
    assert(views.contains_key(id));
    let key = replace(entries[i].0@, "{PREFIX}"@, prefix);
    assert(is_filled_in_type(entries[i].1, prefix, final(manifest).type_table@[key]));
    assert(final(manifest).type_table@[key].property_definitions@[j].type_id@ == id);
}

proof fn lemma_key_is_there(entries: Seq<(String, TypeDefinition)>, prefix: Seq<char>, k: int)
    requires
        0 <= k < entries.len(),
    ensures
        prefixed_types(entries, prefix).contains_key(
            replace(entries[k].0@, "{PREFIX}"@, prefix),
        ),
    decreases entries.len(),
{
    if k < entries.len() - 1 {
        assert(entries.drop_last()[k] == entries[k]);
        lemma_key_is_there(entries.drop_last(), prefix, k);
    }
}

} // verus!
