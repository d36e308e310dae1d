//! Nodes of the trie are compared by the namespaces that lead to them.

use crate::namespace::NamespaceTrieNode;
use crate::text::{is_text_le, same_text, text_le, text_order, text_order_is_total};
use std::cmp::Ordering;
use vstd::prelude::*;

verus! {

/// How two namespaces compare. A node without one comes before all others.
pub open spec fn compared(a: Option<Seq<char>>, b: Option<Seq<char>>) -> Ordering {
    match (a, b) {
        (Some(x), Some(y)) => if x == y {
            Ordering::Equal
        } else if text_le(x, y) {
            Ordering::Less
        } else {
            Ordering::Greater
        },
        (Some(_), None) => Ordering::Greater,
        (None, Some(_)) => Ordering::Less,
        (None, None) => Ordering::Equal,
    }
}

impl PartialEq for NamespaceTrieNode {
    fn eq(&self, other: &Self) -> (r: bool) {
        match (&self.node_string, &other.node_string) {
            (Some(a), Some(b)) => same_text(a.as_str(), b.as_str()),
            (None, None) => true,
            _ => false,
        }
    }
}

impl vstd::std_specs::cmp::PartialEqSpecImpl for NamespaceTrieNode {
    open spec fn obeys_eq_spec() -> bool {
        true
    }

    open spec fn eq_spec(&self, other: &Self) -> bool {
        self@.name == other@.name
    }
}

impl Eq for NamespaceTrieNode {

}

impl PartialOrd for NamespaceTrieNode {
    fn partial_cmp(&self, other: &Self) -> (r: Option<Ordering>) {
        Some(self.cmp(other))
    }
}

impl vstd::std_specs::cmp::PartialOrdSpecImpl for NamespaceTrieNode {
    open spec fn obeys_partial_cmp_spec() -> bool {
        true
    }

    open spec fn partial_cmp_spec(&self, other: &Self) -> Option<Ordering> {
        Some(compared(self@.name, other@.name))
    }
}

impl NamespaceTrieNode {
    /// Compares two nodes by their namespaces.
    pub fn cmp(&self, other: &Self) -> (r: Ordering)
        ensures
            r == compared(self@.name, other@.name),
    {
        match (&self.node_string, &other.node_string) {
            (Some(a), Some(b)) => if same_text(a.as_str(), b.as_str()) {
                Ordering::Equal
            } else if is_text_le(a.as_str(), b.as_str()) {
                Ordering::Less
            } else {
                Ordering::Greater
            },
            (Some(_), None) => Ordering::Greater,
            (None, Some(_)) => Ordering::Less,
            (None, None) => Ordering::Equal,
        }
    }
}

/// Nodes are compared by the namespaces that lead to them, as texts are; a node
/// without one comes before all others. Both comparisons agree, and nodes are
/// equal if and only if their namespaces are.
pub proof fn nodes_are_compared_by_their_namespaces(
    a: &NamespaceTrieNode,
    b: &NamespaceTrieNode,
    r: Ordering,
)
    requires
        call_ensures(NamespaceTrieNode::cmp, (a, b), r),
    ensures
        a.node_string is None && b.node_string is None ==> r == Ordering::Equal,
        a.node_string is None && b.node_string is Some ==> r == Ordering::Less,
        a.node_string is Some && b.node_string is None ==> r == Ordering::Greater,
        a.node_string is Some && b.node_string is Some ==> {
            let x = a.node_string->0@;
            let y = b.node_string->0@;
            &&& r == Ordering::Equal <==> x == y
            &&& r == Ordering::Less <==> x != y && text_le(x, y)
        },
        vstd::std_specs::cmp::PartialOrdSpec::partial_cmp_spec(a, b) == Some(r),
        vstd::std_specs::cmp::PartialEqSpec::eq_spec(a, b) <==> r == Ordering::Equal,
{
}

/// The comparison of nodes is a total order that agrees with their equality:
/// it gives `Equal` for equal namespaces and no others, turns round when its
/// arguments do, and is transitive.
pub proof fn nodes_are_totally_ordered(
    a: Option<Seq<char>>,
    b: Option<Seq<char>>,
    c: Option<Seq<char>>,
)
    ensures
        compared(a, b) == Ordering::Equal <==> a == b,
        compared(a, b) == Ordering::Less <==> compared(b, a) == Ordering::Greater,
        compared(a, b) == Ordering::Less && compared(b, c) == Ordering::Less ==> compared(a, c)
            == Ordering::Less,
{
    text_order_is_total();
    let le = text_order();
    if a is Some && b is Some {
        assert(le(a.unwrap(), b.unwrap()) || le(b.unwrap(), a.unwrap()));
        assert(le(a.unwrap(), b.unwrap()) && le(b.unwrap(), a.unwrap()) ==> a == b);
        if c is Some {
            assert(le(a.unwrap(), b.unwrap()) && le(b.unwrap(), c.unwrap()) ==> le(
                a.unwrap(),
                c.unwrap(),
            ));
            if a == c {
                assert(compared(a, b) == Ordering::Less && compared(b, c) == Ordering::Less ==> le(
                    b.unwrap(),
                    a.unwrap(),
                ));
            }
        }
    }
}

} // verus!
