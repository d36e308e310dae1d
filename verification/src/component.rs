//! Instances of components.

use std::rc::Rc;
use vstd::prelude::*;

verus! {

/// A list of nodes that several owners share.
pub type RenderNodePtrList<N> = Rc<Vec<N>>;

/// What a layer of the screen is made of.
#[derive(Debug)]
pub enum Layer {
    Native,
    Canvas,
    DontCare,
}

/// What a component is instantiated from: its nodes are of type `N`, its
/// handlers of type `H`, its properties of type `P`, computed by an `F`, and
/// the properties that all nodes have of type `C`.
#[derive(Debug)]
pub struct InstantiationArgs<N, H, P, F, C> {
    pub component_template: Option<RenderNodePtrList<N>>,
    pub children: Option<RenderNodePtrList<N>>,
    pub handler_registry: Option<Rc<H>>,
    pub properties: P,
    pub compute_properties_fn: Option<F>,
    pub common_properties: C,
}

/// A render node with its own runtime context. It pushes a frame to the
/// runtime's stack with its slot children and its properties. It stands at the
/// root of applications and of reusable components, and houses the properties
/// of each of the nodes that a repetition makes.
#[derive(Debug)]
pub struct ComponentInstance<N, H, P, T, F, C> {
    pub instance_id: u32,
    pub template: RenderNodePtrList<N>,
    pub slot_children: RenderNodePtrList<N>,
    pub handler_registry: Option<Rc<H>>,
    pub properties: Rc<P>,
    pub timeline: Option<Rc<T>>,
    pub compute_properties_fn: F,
    pub common_properties: C,
}

/// A frame of the runtime's stack.
#[derive(Debug)]
pub struct StackFrame<N, P, T> {
    pub slot_children: RenderNodePtrList<N>,
    pub properties: Rc<P>,
    pub timeline: Option<Rc<T>>,
}

/// The nodes of a list that may be missing.
pub open spec fn nodes<N>(list: Option<RenderNodePtrList<N>>) -> Seq<N> {
    match list {
        Some(list) => list@,
        None => Seq::empty(),
    }
}

fn list_or_empty<N>(list: Option<RenderNodePtrList<N>>) -> (r: RenderNodePtrList<N>)
    ensures
        r@ == nodes(list),
        list matches Some(l) ==> r == l,
{
    match list {
        Some(list) => list,
        None => Rc::new(Vec::new()),
    }
}

impl<N, H, P, T, F, C> ComponentInstance<N, H, P, T, F, C> {
    /// The component that `args` describe, under the id that the registry of
    /// instances gave out. A template and children are kept as the lists they
    /// are; missing ones are empty lists. There is no timeline.
    pub fn instantiate(args: InstantiationArgs<N, H, P, F, C>, instance_id: u32) -> (r: Self)
        requires
            args.compute_properties_fn is Some,
        ensures
            r.instance_id == instance_id,
            r.template@ == nodes(args.component_template),
            args.component_template matches Some(list) ==> r.template == list,
            r.slot_children@ == nodes(args.children),
            args.children matches Some(list) ==> r.slot_children == list,
            r.handler_registry == args.handler_registry,
            *r.properties == args.properties,
            r.timeline is None,
            Some(r.compute_properties_fn) == args.compute_properties_fn,
            r.common_properties == args.common_properties,
    {
        ComponentInstance {
            instance_id,
            template: list_or_empty(args.component_template),
            slot_children: list_or_empty(args.children),
            handler_registry: args.handler_registry,
            properties: Rc::new(args.properties),
            timeline: None,
            compute_properties_fn: args.compute_properties_fn.unwrap(),
            common_properties: args.common_properties,
        }
    }

    /// The frame that the component pushes while its properties are computed.
    /// `flattened` holds, for each slot child in turn, the nodes that stand for
    /// it once repetitions and conditions are expanded.
    pub fn frame(&self, flattened: Vec<Vec<N>>) -> (r: StackFrame<N, P, T>)
        ensures
            r.slot_children@ == flattened@.map_values(|v: Vec<N>| v@).flatten(),
            r.properties == self.properties,
            r.timeline == self.timeline,
    {
        let ghost lists = flattened@.map_values(|v: Vec<N>| v@);
        let mut rest: Vec<Vec<N>> = flattened;
        let mut nodes: Vec<N> = Vec::new();
        let mut i: usize = 0;
        assert(lists.take(0).flatten() =~= Seq::empty());
        while i < rest.len()
            invariant
                i <= rest@.len(),
                rest@.len() == lists.len(),
                forall|j: int| i <= j < rest@.len() ==> (#[trigger] rest@[j])@ == lists[j],
                nodes@ == lists.take(i as int).flatten(),
            decreases rest@.len() - i,
        {
            let list: &mut Vec<N> = &mut rest[i];
            nodes.append(list);
            proof {
                lists.take(i as int).lemma_flatten_push(lists[i as int]);
                assert(lists.take(i + 1) =~= lists.take(i as int).push(lists[i as int]));
            }
            i += 1;
        }
        assert(lists.take(lists.len() as int) =~= lists);
        StackFrame {
            slot_children: Rc::new(nodes),
            properties: Rc::clone(&self.properties),
            timeline: match &self.timeline {
                Some(timeline) => Some(Rc::clone(timeline)),
                None => None,
            },
        }
    }

    pub fn get_common_properties(&self) -> (r: &C)
        ensures
            *r == self.common_properties,
    {
        &self.common_properties
    }

    pub fn get_instance_id(&self) -> (r: u32)
        ensures
            r == self.instance_id,
    {
        self.instance_id
    }

    /// A component renders its template.
    pub fn get_rendering_children(&self) -> (r: RenderNodePtrList<N>)
        ensures
            r == self.template,
    {
        Rc::clone(&self.template)
    }

    pub fn is_component_node(&self) -> (r: bool)
        ensures
            r,
    {
        true
    }

    pub fn get_handler_registry(&self) -> (r: Option<Rc<H>>)
        ensures
            r == self.handler_registry,
    {
        match &self.handler_registry {
            Some(registry) => Some(Rc::clone(registry)),
            None => None,
        }
    }

    pub fn get_slot_children(&self) -> (r: Option<RenderNodePtrList<N>>)
        ensures
            r == Some(self.slot_children),
    {
        Some(Rc::clone(&self.slot_children))
    }

    /// A component has no size of its own.
    pub fn get_size<S>(&self) -> (r: Option<(S, S)>)
        ensures
            r is None,
    {
        None
    }

    /// A component fills its bounds.
    pub fn compute_size_within_bounds<B>(&self, bounds: (B, B)) -> (r: (B, B))
        ensures
            r == bounds,
    {
        bounds
    }

    /// A component can stand on any layer.
    pub fn get_layer_type(&mut self) -> (r: Layer)
        ensures
            r is DontCare,
            *final(self) == *old(self),
    {
        Layer::DontCare
    }
}

} // verus!
