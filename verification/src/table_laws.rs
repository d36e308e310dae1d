//! What a table gives back of what it was given.

use crate::table::{keys_of, position_of, StringTable};
use vstd::prelude::*;
use vstd::string::*;

verus! {

/// The table has an entry of that key and value.
pub open spec fn has_entry<V>(table: StringTable<V>, key: Seq<char>, value: V) -> bool {
    exists|i: int|
        0 <= i < table.entries@.len() && (#[trigger] table.entries@[i]).0@ == key
            && table.entries@[i].1 == value
}

pub(crate) proof fn lemma_entry<V>(table: StringTable<V>, key: Seq<char>, value: V)
    requires
        table.wf(),
    ensures
        has_entry(table, key, value) <==> table@.contains_key(key) && table@[key] == value,
{
    if has_entry(table, key, value) {
        let i = choose|i: int|
            0 <= i < table.entries@.len() && (#[trigger] table.entries@[i]).0@ == key
                && table.entries@[i].1 == value;
        table.lemma_value_at(i);
    }
    if table@.contains_key(key) && table@[key] == value {
        let i = table.keys().index_of(key);
        assert(table.keys()[i] == key);
        table.lemma_value_at(i);
        assert(table.entries@[i].0@ == key);
    }
}

/// A new table has no entries.
pub proof fn a_new_table_is_empty<V>(r: StringTable<V>)
    requires
        call_ensures(StringTable::<V>::new, (), r),
    ensures
        r.wf(),
        r.entries@.len() == 0,
{
    assert(r.keys().len() == r.entries@.len());
}

/// A key is found where its entry is.
pub proof fn a_key_is_found_at_its_entry<V>(
    entries: &Vec<(String, V)>,
    key: &str,
    r: Option<usize>,
)
    requires
        call_ensures(position_of::<V>, (entries, key), r),
    ensures
        r matches Some(i) ==> i < entries@.len() && entries@[i as int].0@ == key@,
        r is None ==> forall|i: int|
            0 <= i < entries@.len() ==> (#[trigger] entries@[i]).0@ != key@,
{
    let keys = keys_of(entries@);
    if r is None {
        assert forall|i: int| 0 <= i < entries@.len() implies (#[trigger] entries@[i]).0@
            != key@ by {
            assert(keys[i] == entries@[i].0@);
        }
    }
}

/// What is looked up is the value of the entry with that key.
pub proof fn a_value_is_looked_up_by_its_key<V>(
    table: &StringTable<V>,
    key: &str,
    r: Option<&V>,
    at: Option<usize>,
)
    requires
        table.wf(),
        call_ensures(StringTable::<V>::get, (table, key), r),
        call_ensures(StringTable::<V>::position, (table, key), at),
    ensures
        forall|value: V| #[trigger] has_entry(*table, key@, value) ==> r == Some(&value),
        r matches Some(value) ==> has_entry(*table, key@, *value),
        r is Some <==> at is Some,
        at matches Some(i) ==> {
            &&& i < table.entries@.len()
            &&& table.entries@[i as int].0@ == key@
            &&& r == Some(&table.entries@[i as int].1)
        },
{
    assert forall|value: V| #[trigger] has_entry(*table, key@, value) implies r == Some(
        &value,
    ) by {
        lemma_entry(*table, key@, value);
    }
    if let Some(value) = r {
        lemma_entry(*table, key@, *value);
    }
}

/// An inserted value is the only one of its key, and the entries of all other
/// keys stay. The keys keep their places; a new one comes last.
pub proof fn an_inserted_value_takes_its_place<V>(
    table: &mut StringTable<V>,
    key: String,
    value: V,
)
    requires
        old(table).wf(),
        call_ensures(StringTable::<V>::insert, (table, key, value), ()),
    ensures
        final(table).wf(),
        forall|v: V| #[trigger] has_entry(*final(table), key@, v) <==> v == value,
        forall|k: Seq<char>, v: V|
            k != key@ ==> (#[trigger] has_entry(*final(table), k, v) <==> has_entry(
                *old(table),
                k,
                v,
            )),
        forall|i: int|
            0 <= i < old(table).entries@.len() ==> i < final(table).entries@.len() && (
            #[trigger] final(table).entries@[i]).0@ == old(table).entries@[i].0@,
        final(table).entries@.len() == old(table).entries@.len() || {
            &&& final(table).entries@.len() == old(table).entries@.len() + 1
            &&& final(table).entries@.last().0@ == key@
        },
{
    let before = *old(table);
    let after = *final(table);
    assert forall|v: V| #[trigger] has_entry(after, key@, v) <==> v == value by {
        lemma_entry(after, key@, v);
    }
    assert forall|k: Seq<char>, v: V|
        k != key@ implies (#[trigger] has_entry(after, k, v) <==> has_entry(before, k, v)) by {
        lemma_entry(after, k, v);
        lemma_entry(before, k, v);
    }
    assert(after.keys().len() == after.entries@.len());
    assert(before.keys().len() == before.entries@.len());
    assert forall|i: int| 0 <= i < before.entries@.len() implies i < after.entries@.len() && (
    #[trigger] after.entries@[i]).0@ == before.entries@[i].0@ by {
        assert(before.keys()[i] == before.entries@[i].0@);
        assert(after.keys()[i] == after.entries@[i].0@);
    }
    if after.entries@.len() != before.entries@.len() {
        assert(after.keys().last() == after.entries@.last().0@);
    }
}

} // verus!
