//! What an instance of a component keeps, and what its frame holds.

use crate::component::{
    ComponentInstance, InstantiationArgs, Layer, RenderNodePtrList, StackFrame,
};
use vstd::prelude::*;

verus! {

/// How many nodes stand in the first `i` lists.
pub open spec fn nodes_before<N>(lists: Seq<Vec<N>>, i: int) -> nat
    decreases i,
{
    if i <= 0 {
        0
    } else {
        nodes_before(lists, i - 1) + lists[i - 1]@.len()
    }
}

/// The nodes of the `k`-th list stand together behind those of the lists before.
pub open spec fn holds_list<N>(nodes: Seq<N>, lists: Seq<Vec<N>>, k: int) -> bool {
    &&& nodes_before(lists, k) + lists[k]@.len() <= nodes.len()
    &&& forall|j: int|
        0 <= j < lists[k]@.len() ==> nodes[nodes_before(lists, k) + j] == #[trigger] lists[k]@[j]
}

proof fn lemma_flattened<N>(lists: Seq<Vec<N>>, i: int)
    requires
        0 <= i <= lists.len(),
    ensures
        ({
            let flat = lists.map_values(|v: Vec<N>| v@).take(i).flatten();
            &&& flat.len() == nodes_before(lists, i)
            &&& forall|k: int| 0 <= k < i ==> #[trigger] holds_list(flat, lists, k)
        }),
    decreases i,
{
    let views = lists.map_values(|v: Vec<N>| v@);
    if i == 0 {
        assert(views.take(0) =~= Seq::<Seq<N>>::empty());
        assert(views.take(0).flatten() =~= Seq::<N>::empty());
    } else {
        lemma_flattened(lists, i - 1);
        let shorter = views.take(i - 1).flatten();
        views.take(i - 1).lemma_flatten_push(views[i - 1]);
        assert(views.take(i) =~= views.take(i - 1).push(views[i - 1]));
        let flat = views.take(i).flatten();
        assert(flat =~= shorter + lists[i - 1]@);
        assert forall|k: int| 0 <= k < i implies #[trigger] holds_list(flat, lists, k) by {
            if k < i - 1 {
                assert(holds_list(shorter, lists, k));
            }
            assert forall|j: int| 0 <= j < lists[k]@.len() implies flat[nodes_before(lists, k)
                + j] == #[trigger] lists[k]@[j] by {
                if k < i - 1 {
                    assert(shorter[nodes_before(lists, k) + j] == lists[k]@[j]);
                }
            }
        }
    }
}

/// A frame holds the nodes of all slot children, each list behind the one before
/// and each node in its place, and the properties and the timeline of the
/// component.
pub proof fn a_frame_holds_all_nodes<N, H, P, T, F, C>(
    instance: &ComponentInstance<N, H, P, T, F, C>,
    flattened: Vec<Vec<N>>,
    r: StackFrame<N, P, T>,
)
    requires
        call_ensures(ComponentInstance::<N, H, P, T, F, C>::frame, (instance, flattened), r),
    ensures
        r.slot_children@.len() == nodes_before(flattened@, flattened@.len() as int),
        forall|k: int|
            0 <= k < flattened@.len() ==> #[trigger] holds_list(
                r.slot_children@,
                flattened@,
                k,
            ),
        r.properties == instance.properties,
        r.timeline == instance.timeline,
{
    let views = flattened@.map_values(|v: Vec<N>| v@);
    lemma_flattened(flattened@, flattened@.len() as int);
    assert(views.take(views.len() as int) =~= views);
}

/// What a component was made from can be asked of it.
pub proof fn an_instance_keeps_what_it_is_made_from<N, H, P, T, F, C>(
    args: InstantiationArgs<N, H, P, F, C>,
    id: u32,
    instance: ComponentInstance<N, H, P, T, F, C>,
    kept_id: u32,
    common: &C,
    rendered: RenderNodePtrList<N>,
    registry: Option<std::rc::Rc<H>>,
    slots: Option<RenderNodePtrList<N>>,
)
    requires
        args.compute_properties_fn is Some,
        call_ensures(ComponentInstance::<N, H, P, T, F, C>::instantiate, (args, id), instance),
        call_ensures(
            ComponentInstance::<N, H, P, T, F, C>::get_instance_id,
            (&instance,),
            kept_id,
        ),
        call_ensures(
            ComponentInstance::<N, H, P, T, F, C>::get_common_properties,
            (&instance,),
            common,
        ),
        call_ensures(
            ComponentInstance::<N, H, P, T, F, C>::get_rendering_children,
            (&instance,),
            rendered,
        ),
        call_ensures(
            ComponentInstance::<N, H, P, T, F, C>::get_handler_registry,
            (&instance,),
            registry,
        ),
        call_ensures(
            ComponentInstance::<N, H, P, T, F, C>::get_slot_children,
            (&instance,),
            slots,
        ),
    ensures
        kept_id == id,
        *common == args.common_properties,
        args.component_template is Some ==> rendered == args.component_template->0,
        args.component_template is None ==> rendered@.len() == 0,
        registry == args.handler_registry,
        slots is Some,
        args.children is Some ==> slots == args.children,
        args.children is None ==> slots->0@.len() == 0,
        *instance.properties == args.properties,
        instance.timeline is None,
        instance.compute_properties_fn == args.compute_properties_fn->0,
{
}

/// A component is a component, has no size of its own, fills the bounds that it
/// is given, and can stand on any layer; to ask for the layer changes nothing.
pub proof fn a_component_fills_its_bounds<N, H, P, T, F, C, S, B>(
    instance: &mut ComponentInstance<N, H, P, T, F, C>,
    shared: &ComponentInstance<N, H, P, T, F, C>,
    bounds: (B, B),
    is_component: bool,
    size: Option<(S, S)>,
    within: (B, B),
    layer: Layer,
)
    requires
        call_ensures(
            ComponentInstance::<N, H, P, T, F, C>::is_component_node,
            (shared,),
            is_component,
        ),
        call_ensures(ComponentInstance::<N, H, P, T, F, C>::get_size::<S>, (shared,), size),
        call_ensures(
            ComponentInstance::<N, H, P, T, F, C>::compute_size_within_bounds::<B>,
            (shared, bounds),
            within,
        ),
        call_ensures(ComponentInstance::<N, H, P, T, F, C>::get_layer_type, (instance,), layer),
    ensures
        is_component,
        size is None,
        within == bounds,
        layer is DontCare,
        *final(instance) == *old(instance),
{
}

} // verus!
