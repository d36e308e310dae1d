//! Which handlers an event has.

use crate::events::{
    bound_events, generate_bound_events, generate_events_map, handlers, string_list_map,
    string_map, the_last_binding_of_an_event_stands,
};
use crate::manifest::{EventDefinition, ValueDefinition};
use crate::table::StringTable;
use crate::text::texts;
use vstd::prelude::*;

verus! {

/// No later definition is of the same event.
pub open spec fn is_last_definition(events: Seq<EventDefinition>, i: int) -> bool {
    &&& 0 <= i < events.len()
    &&& forall|j: int| i < j < events.len() ==> (#[trigger] events[j]).key@ != events[i].key@
}

/// No later setting binds the event.
pub open spec fn is_last_binding(settings: Seq<(String, ValueDefinition)>, i: int) -> bool {
    &&& 0 <= i < settings.len()
    &&& settings[i].1 is EventBindingTarget
    &&& forall|j: int|
        i < j < settings.len() && (#[trigger] settings[j]).1 is EventBindingTarget
            ==> settings[j].0@ != settings[i].0@
}

/// The table has, for every event, exactly the handlers of its last definition,
/// and no other events.
pub open spec fn holds_the_last_definitions(
    events: Seq<EventDefinition>,
    table: StringTable<Vec<String>>,
) -> bool {
    &&& forall|i: int| #[trigger]
        is_last_definition(events, i) ==> {
            &&& table@.contains_key(events[i].key@)
            &&& table@[events[i].key@]@.len() == events[i].value@.len()
            &&& forall|j: int|
                0 <= j < events[i].value@.len() ==> (#[trigger] table@[events[i].key@]@[j])@
                    == events[i].value@[j]@
        }
    &&& forall|k: Seq<char>| #[trigger]
        table@.contains_key(k) ==> exists|i: int| #[trigger]
            is_last_definition(events, i) && events[i].key@ == k
}

/// The table has, for every event that is bound, the target of its last binding,
/// and no other events.
pub open spec fn holds_the_last_bindings(
    settings: Seq<(String, ValueDefinition)>,
    table: StringTable<String>,
) -> bool {
    &&& forall|i: int| #[trigger]
        is_last_binding(settings, i) ==> {
            &&& table@.contains_key(settings[i].0@)
            &&& table@[settings[i].0@]@ == settings[i].1->EventBindingTarget_0@
        }
    &&& forall|k: Seq<char>| #[trigger]
        table@.contains_key(k) ==> exists|i: int| #[trigger]
            is_last_binding(settings, i) && settings[i].0@ == k
}

proof fn lemma_handlers_of_last(events: Seq<EventDefinition>, i: int)
    requires
        is_last_definition(events, i),
    ensures
        handlers(events).contains_key(events[i].key@),
        handlers(events)[events[i].key@] == texts(events[i].value@),
    decreases events.len(),
{
    if i < events.len() - 1 {
        let shorter = events.drop_last();
        assert(shorter[i] == events[i]);
        assert(events[events.len() - 1] == events.last());
        assert forall|j: int| i < j < shorter.len() implies (#[trigger] shorter[j]).key@
            != shorter[i].key@ by {
            assert(shorter[j] == events[j]);
        }
        lemma_handlers_of_last(shorter, i);
    }
}

proof fn lemma_last_definition_exists(events: Seq<EventDefinition>, k: Seq<char>)
    requires
        handlers(events).contains_key(k),
    ensures
        exists|i: int| #[trigger] is_last_definition(events, i) && events[i].key@ == k,
    decreases events.len(),
{
    if events.len() > 0 {
        let n = events.len() - 1;
        assert(events[n] == events.last());
        if events.last().key@ == k {
            assert(is_last_definition(events, n));
        } else {
            let shorter = events.drop_last();
            lemma_last_definition_exists(shorter, k);
            let i = choose|i: int| #[trigger]
                is_last_definition(shorter, i) && shorter[i].key@ == k;
            assert(shorter[i] == events[i]);
            assert forall|j: int| i < j < events.len() implies (#[trigger] events[j]).key@
                != events[i].key@ by {
                if j < n {
                    assert(shorter[j] == events[j]);
                }
            }
            assert(is_last_definition(events, i));
        }
    }
}

proof fn lemma_last_binding_exists(settings: Seq<(String, ValueDefinition)>, k: Seq<char>)
    requires
        bound_events(settings).contains_key(k),
    ensures
        exists|i: int| #[trigger] is_last_binding(settings, i) && settings[i].0@ == k,
    decreases settings.len(),
{
    if settings.len() > 0 {
        let n = settings.len() - 1;
        assert(settings[n] == settings.last());
        if settings.last().1 is EventBindingTarget && settings.last().0@ == k {
            assert(is_last_binding(settings, n));
        } else {
            let shorter = settings.drop_last();
            lemma_last_binding_exists(shorter, k);
            let i = choose|i: int| #[trigger] is_last_binding(shorter, i) && shorter[i].0@ == k;
            assert(shorter[i] == settings[i]);
            assert forall|j: int|
                i < j < settings.len() && (
                #[trigger] settings[j]).1 is EventBindingTarget implies settings[j].0@
                != settings[i].0@ by {
                if j < n {
                    assert(shorter[j] == settings[j]);
                }
            }
            assert(is_last_binding(settings, i));
        }
    }
}

/// A component's events have the handlers of their last definitions, and a
/// component without definitions has none.
pub proof fn every_event_has_its_handlers(
    events: &Option<Vec<EventDefinition>>,
    r: StringTable<Vec<String>>,
)
    requires
        call_ensures(generate_events_map, (events,), r),
    ensures
        r.wf(),
        *events matches Some(list) ==> holds_the_last_definitions(list@, r),
        *events is None ==> forall|k: Seq<char>| !#[trigger] r@.contains_key(k),
{
    let map = string_list_map(r);
    assert forall|k: Seq<char>| #[trigger] r@.contains_key(k) <==> map.contains_key(k) by {}
    match *events {
        Some(list) => {
            let s = list@;
            lemma_handlers_table(s, r);
        },
        None => {},
    }
}

/// A table with these handlers has those of the last definitions.
pub proof fn lemma_handlers_table(s: Seq<EventDefinition>, r: StringTable<Vec<String>>)
    requires
        string_list_map(r) == handlers(s),
    ensures
        holds_the_last_definitions(s, r),
{
    let map = string_list_map(r);
    assert forall|i: int| #[trigger] is_last_definition(s, i) implies {
        &&& r@.contains_key(s[i].key@)
        &&& r@[s[i].key@]@.len() == s[i].value@.len()
        &&& forall|j: int|
            0 <= j < s[i].value@.len() ==> (#[trigger] r@[s[i].key@]@[j])@ == s[i].value@[j]@
    } by {
        lemma_handlers_of_last(s, i);
        let key = s[i].key@;
        assert(map.contains_key(key));
        assert(map[key] == texts(r@[key]@));
        assert(texts(r@[key]@).len() == texts(s[i].value@).len());
        assert forall|j: int| 0 <= j < s[i].value@.len() implies (#[trigger] r@[key]@[j])@
            == s[i].value@[j]@ by {
            assert(texts(r@[key]@)[j] == texts(s[i].value@)[j]);
        }
    }
    assert forall|k: Seq<char>| #[trigger] r@.contains_key(k) implies exists|i: int| #[trigger]
        is_last_definition(s, i) && s[i].key@ == k by {
        assert(map.contains_key(k));
        lemma_last_definition_exists(s, k);
    }
}

/// A node's events have the targets of their last bindings, and a node without
/// settings has none.
pub proof fn every_bound_event_has_its_target(
    settings: &Option<Vec<(String, ValueDefinition)>>,
    r: StringTable<String>,
)
    requires
        call_ensures(generate_bound_events, (settings,), r),
    ensures
        r.wf(),
        *settings matches Some(list) ==> holds_the_last_bindings(list@, r),
        *settings is None ==> forall|k: Seq<char>| !#[trigger] r@.contains_key(k),
{
    let map = string_map(r);
    assert forall|k: Seq<char>| #[trigger] r@.contains_key(k) <==> map.contains_key(k) by {}
    match *settings {
        Some(list) => {
            lemma_bindings_table(list@, r);
        },
        None => {},
    }
}

/// A table with these bindings has those of the last settings.
pub proof fn lemma_bindings_table(s: Seq<(String, ValueDefinition)>, r: StringTable<String>)
    requires
        string_map(r) == bound_events(s),
    ensures
        holds_the_last_bindings(s, r),
{
    let map = string_map(r);
    assert forall|i: int| #[trigger] is_last_binding(s, i) implies {
        &&& r@.contains_key(s[i].0@)
        &&& r@[s[i].0@]@ == s[i].1->EventBindingTarget_0@
    } by {
        the_last_binding_of_an_event_stands(s, i, s[i].1->EventBindingTarget_0@);
        assert(map.contains_key(s[i].0@));
        assert(map[s[i].0@] == r@[s[i].0@]@);
    }
    assert forall|k: Seq<char>| #[trigger] r@.contains_key(k) implies exists|i: int| #[trigger]
        is_last_binding(s, i) && s[i].0@ == k by {
        assert(map.contains_key(k));
        lemma_last_binding_exists(s, k);
    }
}

} // verus!
