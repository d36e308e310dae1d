use pax_compiler::namespace::NamespaceTrieNode;

fn root() -> NamespaceTrieNode {
    NamespaceTrieNode {
        node_string: None,
        children: Vec::new(),
    }
}

#[test]
fn test_serialize_to_reexports() {
    let input_vec = vec![
        "crate::Example",
        "crate::fireworks::Fireworks",
        "crate::grids::Grids",
        "crate::grids::RectDef",
        "crate::hello_rgb::HelloRGB",
        "f64",
        "pax_std::primitives::Ellipse",
        "pax_std::primitives::Group",
        "pax_std::primitives::Rectangle",
        "pax_std::types::Color",
        "pax_std::types::Stroke",
        "std::vec::Vec",
        "usize",
    ];

    let mut root_node = NamespaceTrieNode {
        node_string: None,
        children: Vec::new(),
    };

    for namespace_string in input_vec {
        root_node.insert(&namespace_string);
    }

    let output = root_node.serialize_to_reexports();

    let expected_output = r#"pub mod pax_reexports {
    pub use crate::Example;
    pub mod fireworks {
        pub use crate::fireworks::Fireworks;
    }
    pub mod grids {
        pub use crate::grids::Grids;
        pub use crate::grids::RectDef;
    }
    pub mod hello_rgb {
        pub use crate::hello_rgb::HelloRGB;
    }
    pub use f64;
    pub mod pax_std{
        pub mod primitives{
            pub use pax_std::primitives::Ellipse;
            pub use pax_std::primitives::Group;
            pub use pax_std::primitives::Rectangle;
        }
        pub mod types{
            pub use pax_std::types::Color;
            pub use pax_std::types::Stroke;
        }
    }
    pub mod std{
        pub mod vec{
            pub use std::vec::Vec;
        }
    }
    pub use usize;

}"#;

    assert_eq!(output, expected_output);
}

#[test]
fn children_are_created_once() {
    let mut node = root();
    node.get_or_create_child("a").get_or_create_child("b");
    assert_eq!(node.children.len(), 1);
    assert_eq!(node.children[0].0, "a");
    assert_eq!(node.children[0].1.node_string.as_deref(), Some("a"));
    let b = node.get_or_create_child("a").get_or_create_child("b");
    assert_eq!(b.node_string.as_deref(), Some("a::b"));
    assert_eq!(node.children.len(), 1);
}

#[test]
fn a_path_is_added_once() {
    let mut once = root();
    once.insert("a::b");
    let mut twice = root();
    twice.insert("a::b");
    twice.insert("a::b");
    assert_eq!(once.serialize_to_reexports(), twice.serialize_to_reexports());
}

#[test]
fn paths_are_added_in_either_order() {
    let mut x = root();
    x.insert("a::b");
    x.insert("a::c");
    x.insert("d");
    let mut y = root();
    y.insert("d");
    y.insert("a::c");
    y.insert("a::b");
    assert_eq!(x.serialize_to_reexports(), y.serialize_to_reexports());
}

#[test]
fn an_empty_trie_exports_nothing() {
    assert_eq!(root().serialize_to_reexports(), "pub mod pax_reexports {\n\n}");
}

#[test]
fn nodes_are_ordered_by_their_names() {
    let mut node = root();
    node.insert("a::b");
    node.insert("c");
    let a = &node.children[0].1;
    let c = &node.children[1].1;
    assert!(a < c);
    assert!(node < *a);
    assert!(a == a);
    assert!(a != c);
    assert_eq!(NamespaceTrieNode::cmp(c, a), std::cmp::Ordering::Greater);
    assert_eq!(NamespaceTrieNode::cmp(a, a), std::cmp::Ordering::Equal);
    assert_eq!(NamespaceTrieNode::cmp(&node, a), std::cmp::Ordering::Less);
}

#[test]
fn deeper_reexports_are_indented_by_four_spaces_for_each_level() {
    let mut node = root();
    node.insert("a::b::C");
    node.insert("crate::d::E");
    node.insert("f");
    let shallow = node.recurse_serialize_to_reexports(0);
    let deep = node.recurse_serialize_to_reexports(2);
    assert_eq!(
        shallow,
        "pub mod a{\n    pub mod b{\n        pub use a::b::C;\n    }\n}\n\
         pub mod d {\n    pub use crate::d::E;\n}\npub use f;\n"
    );
    let expected: String = shallow.lines().map(|l| format!("        {}\n", l)).collect();
    assert_eq!(deep, expected);
    assert_eq!(root().recurse_serialize_to_reexports(3), "");
}
