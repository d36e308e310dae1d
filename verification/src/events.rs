//! Events and the handlers that they are bound to.

use crate::manifest::{EventDefinition, ValueDefinition};
use crate::table::StringTable;
use crate::text::texts;
use vstd::prelude::*;

verus! {

/// The events that settings bind, with their targets. Of two bindings of one
/// event the later stands.
pub open spec fn bound_events(settings: Seq<(String, ValueDefinition)>) -> Map<
    Seq<char>,
    Seq<char>,
>
    decreases settings.len(),
{
    if settings.len() == 0 {
        Map::empty()
    } else {
        let earlier = bound_events(settings.drop_last());
        match settings.last().1 {
            ValueDefinition::EventBindingTarget(target) => earlier.insert(
                settings.last().0@,
                target@,
            ),
            _ => earlier,
        }
    }
}

/// The events that a node binds; none where it has no settings.
pub open spec fn node_events(settings: Option<Vec<(String, ValueDefinition)>>) -> Map<
    Seq<char>,
    Seq<char>,
> {
    match settings {
        Some(settings) => bound_events(settings@),
        None => Map::empty(),
    }
}

/// The handlers of each event. Of two definitions of one event the later
/// stands.
pub open spec fn handlers(events: Seq<EventDefinition>) -> Map<Seq<char>, Seq<Seq<char>>>
    decreases events.len(),
{
    if events.len() == 0 {
        Map::empty()
    } else {
        handlers(events.drop_last()).insert(events.last().key@, texts(events.last().value@))
    }
}

/// The handlers that a component defines; none where it defines no events.
pub open spec fn component_handlers(events: Option<Vec<EventDefinition>>) -> Map<
    Seq<char>,
    Seq<Seq<char>>,
> {
    match events {
        Some(events) => handlers(events@),
        None => Map::empty(),
    }
}

/// The contents of a table of strings.
pub open spec fn string_map(table: StringTable<String>) -> Map<Seq<char>, Seq<char>> {
    table@.map_values(|s: String| s@)
}

/// The contents of a table of lists of strings.
pub open spec fn string_list_map(table: StringTable<Vec<String>>) -> Map<
    Seq<char>,
    Seq<Seq<char>>,
> {
    table@.map_values(|v: Vec<String>| texts(v@))
}

/// The events that inline settings bind, with their targets.
pub fn generate_bound_events(
    inline_settings: &Option<Vec<(String, ValueDefinition)>>,
) -> (r: StringTable<String>)
    ensures
        r.wf(),
        string_map(r) == node_events(*inline_settings),
{
    let mut r: StringTable<String> = StringTable::new();
    assert(string_map(r) =~= Map::empty());
    if let Some(inline) = inline_settings {
        let mut i: usize = 0;
        assert(string_map(r) =~= bound_events(inline@.take(0)));
        while i < inline.len()
            invariant
                i <= inline.len(),
                r.wf(),
                string_map(r) == bound_events(inline@.take(i as int)),
            decreases inline.len() - i,
        {
            let ghost before = r;
            proof {
                assert(inline@.take(i + 1).drop_last() =~= inline@.take(i as int));
            }
            if let ValueDefinition::EventBindingTarget(s) = &inline[i].1 {
                let target: String = s.clone();
                r.insert(inline[i].0.clone(), target);
                assert(string_map(r) =~= string_map(before).insert(inline@[i as int].0@, s@));
            }
            i += 1;
        }
        assert(inline@.take(inline.len() as int) =~= inline@);
    }
    r
}

/// The handlers of each event that a component defines.
pub fn generate_events_map(events: &Option<Vec<EventDefinition>>) -> (r: StringTable<Vec<String>>)
    ensures
        r.wf(),
        string_list_map(r) == component_handlers(*events),
{
    let mut r: StringTable<Vec<String>> = StringTable::new();
    assert(string_list_map(r) =~= Map::empty());
    if let Some(event_list) = events {
        let mut i: usize = 0;
        assert(string_list_map(r) =~= handlers(event_list@.take(0)));
        while i < event_list.len()
            invariant
                i <= event_list.len(),
                r.wf(),
                string_list_map(r) == handlers(event_list@.take(i as int)),
            decreases event_list.len() - i,
        {
            let ghost before = r;
            let value: Vec<String> = event_list[i].value.clone();
            proof {
                assert(event_list@.take(i + 1).drop_last() =~= event_list@.take(i as int));
                assert(value@ =~= event_list@[i as int].value@);
            }
            r.insert(event_list[i].key.clone(), value);
            assert(string_list_map(r) =~= string_list_map(before).insert(
                event_list@[i as int].key@,
                texts(value@),
            ));
            i += 1;
        }
        assert(event_list@.take(event_list.len() as int) =~= event_list@);
    }
    r
}

/// The target of an event is that of its last binding.
pub proof fn the_last_binding_of_an_event_stands(
    settings: Seq<(String, ValueDefinition)>,
    i: int,
    target: Seq<char>,
)
    requires
        0 <= i < settings.len(),
        settings[i].1 matches ValueDefinition::EventBindingTarget(t) && t@ == target,
        forall|j: int|
            i < j < settings.len() && (#[trigger] settings[j]).1 is EventBindingTarget
                ==> settings[j].0@ != settings[i].0@,
    ensures
        bound_events(settings).contains_key(settings[i].0@),
        bound_events(settings)[settings[i].0@] == target,
    decreases settings.len(),
{
    if i < settings.len() - 1 {
        let shorter = settings.drop_last();
        assert(shorter[i] == settings[i]);
        assert forall|j: int|
            i < j < shorter.len() && (
            #[trigger] shorter[j]).1 is EventBindingTarget implies shorter[j].0@
            != shorter[i].0@ by {
            assert(shorter[j] == settings[j]);
        }
        the_last_binding_of_an_event_stands(shorter, i, target);
        assert(settings[settings.len() - 1] == settings.last());
    }
}

} // verus!
