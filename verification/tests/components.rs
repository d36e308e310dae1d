use pax_compiler::component::{ComponentInstance, InstantiationArgs, Layer};
use pax_compiler::visits::ManifestContext;
use std::rc::Rc;

type Instance = ComponentInstance<u8, &'static str, i64, (), fn(i64) -> i64, bool>;

fn twice(n: i64) -> i64 {
    n * 2
}

fn instance(
    template: Option<Rc<Vec<u8>>>,
    children: Option<Rc<Vec<u8>>>,
    handlers: Option<Rc<&'static str>>,
) -> Instance {
    let compute: fn(i64) -> i64 = twice;
    ComponentInstance::instantiate(
        InstantiationArgs {
            component_template: template,
            children,
            handler_registry: handlers,
            properties: 21,
            compute_properties_fn: Some(compute),
            common_properties: true,
        },
        7,
    )
}

#[test]
fn instances_hold_what_they_are_made_from() {
    let template = Rc::new(vec![1, 2]);
    let children = Rc::new(vec![3]);
    let mut c =
        instance(Some(Rc::clone(&template)), Some(Rc::clone(&children)), Some(Rc::new("handlers")));
    assert_eq!(c.get_instance_id(), 7);
    assert!(Rc::ptr_eq(&c.get_rendering_children(), &template));
    assert!(Rc::ptr_eq(&c.get_slot_children().unwrap(), &children));
    assert_eq!(*c.get_handler_registry().unwrap(), "handlers");
    assert_eq!(*c.properties, 21);
    assert_eq!((c.compute_properties_fn)(*c.properties), 42);
    assert!(*c.get_common_properties());
    assert!(c.timeline.is_none());
    assert!(c.is_component_node());
    assert!(c.get_size::<u8>().is_none());
    assert_eq!(c.compute_size_within_bounds((1.5, 2.5)), (1.5, 2.5));
    assert!(matches!(c.get_layer_type(), Layer::DontCare));
}

#[test]
fn a_frame_holds_the_flattened_slot_children_and_the_properties() {
    let c = instance(None, Some(Rc::new(vec![3, 4])), None);
    let frame = c.frame(vec![vec![31, 32], Vec::new(), vec![4]]);
    assert_eq!(*frame.slot_children, vec![31, 32, 4]);
    assert!(Rc::ptr_eq(&frame.properties, &c.properties));
    assert!(frame.timeline.is_none());
    assert!(c.frame(Vec::new()).slot_children.is_empty());
}

#[test]
fn what_is_missing_is_empty() {
    let c = instance(None, None, None);
    assert!(c.get_rendering_children().is_empty());
    assert!(c.get_slot_children().unwrap().is_empty());
    assert!(c.get_handler_registry().is_none());
}

#[test]
fn a_source_is_parsed_on_its_first_visit() {
    let ctx: ManifestContext<&str> = ManifestContext::new();
    assert!(!ctx.is_visited("a"));
    let ctx = ctx.parse_to_manifest("a", || "first");
    let ctx = ctx.parse_to_manifest("b", || "second");
    let ctx = ctx.parse_to_manifest("a", || panic!("parsed twice"));
    assert!(ctx.is_visited("a") && ctx.is_visited("b"));
    assert_eq!(ctx.visited_source_ids, vec!["a".to_string(), "b".to_string()]);
    assert_eq!(ctx.component_definitions, vec!["first", "second"]);
}
