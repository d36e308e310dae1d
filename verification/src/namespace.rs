//! A trie of namespaces, and the Rust module tree that re-exports what it
//! holds.

use crate::order::{lemma_ordered_is_unique, lemma_permutation, ordered, sorted_strings};
use crate::table::{keys_of, position_of};
use crate::text::{
    repeat_text, repeated, same_text, split, split_is_not_empty, split_text, text_order,
    text_order_is_total, texts,
};
use vstd::prelude::*;
use vstd::string::*;

verus! {

broadcast use vstd::std_specs::vec::axiom_vec_index_decreases;

/// A node of the trie. A child's key is a segment of a namespace; its
/// `node_string` is the namespace that leads to it, from the root.
#[derive(Debug)]
pub struct NamespaceTrieNode {
    pub node_string: Option<String>,
    pub children: Vec<(String, NamespaceTrieNode)>,
}

/// What a node of the trie is: the namespace that leads to it and the nodes
/// below, by segment.
#[verifier::ext_equal]
pub struct Namespace {
    pub name: Option<Seq<char>>,
    pub children: Map<Seq<char>, Namespace>,
}

/// The separator of the segments of a namespace.
pub open spec fn separator() -> Seq<char> {
    "::"@
}

impl Namespace {
    /// The namespace of the child that `segment` leads to.
    pub open spec fn child_name(self, segment: Seq<char>) -> Seq<char> {
        match self.name {
            Some(name) => name + separator() + segment,
            None => segment,
        }
    }

    /// The child that `segment` leads to, or a new one without children.
    pub open spec fn child(self, segment: Seq<char>) -> Namespace {
        if self.children.contains_key(segment) {
            self.children[segment]
        } else {
            Namespace { name: Some(self.child_name(segment)), children: Map::empty() }
        }
    }

    /// The trie with the nodes along `path` added where they were missing.
    pub open spec fn with_path(self, path: Seq<Seq<char>>) -> Namespace
        decreases path.len(),
    {
        if path.len() == 0 {
            self
        } else {
            Namespace {
                name: self.name,
                children: self.children.insert(
                    path[0],
                    self.child(path[0]).with_path(path.drop_first()),
                ),
            }
        }
    }
}

/// One level of indentation.
pub open spec fn indentation() -> Seq<char> {
    "    "@
}

impl Namespace {
    /// Every node below has a namespace.
    pub open spec fn named(self) -> bool
        decreases self,
    {
        forall|k: Seq<char>| #[trigger]
            self.children.contains_key(k) ==> self.children[k].name is Some
                && self.children[k].named()
    }

    /// No path from this node down has more than `n` segments.
    pub open spec fn depth_at_most(self, n: nat) -> bool
        decreases n,
    {
        forall|k: Seq<char>| #[trigger]
            self.children.contains_key(k) ==> n > 0 && self.children[k].depth_at_most(
                (n - 1) as nat,
            )
    }

    /// No node is below this one.
    pub open spec fn is_leaf(self) -> bool {
        forall|k: Seq<char>| !#[trigger] self.children.contains_key(k)
    }

    /// The segments that lead to the children, in ascending order.
    pub open spec fn segments(self) -> Seq<Seq<char>> {
        ordered(self.children.dom(), text_order())
    }

    /// The entries of the children that `segments` lead to, one after the
    /// other.
    pub open spec fn listing(
        self,
        segments: Seq<Seq<char>>,
        indent: nat,
        in_crate: bool,
    ) -> Seq<char>
        decreases self, segments.len(),
    {
        if segments.len() == 0 {
            Seq::empty()
        } else if self.children.contains_key(segments.last()) {
            self.listing(segments.drop_last(), indent, in_crate)
                + self.children[segments.last()].entry(indent, in_crate)
        } else {
            self.listing(segments.drop_last(), indent, in_crate)
        }
    }

    /// What stands for one child. A leaf is re-exported under its namespace.
    /// Any other child is a module, named by the last segment of its
    /// namespace, around what stands for its own children. The child `crate`
    /// is no module: its children stand in its place.
    pub open spec fn entry(self, indent: nat, in_crate: bool) -> Seq<char>
        decreases self, self.segments().len() + 1,
    {
        let margin = repeated(indentation(), indent);
        let name = self.name.unwrap();
        if !in_crate && name == "crate"@ {
            self.listing(self.segments(), indent, true)
        } else if self.is_leaf() {
            margin + "pub use "@ + name + ";\n"@
        } else {
            margin + "pub mod "@ + split(name, separator()).last() + (if in_crate {
                " {\n"@
            } else {
                "{\n"@
            }) + self.listing(self.segments(), indent + 1, false) + margin + "}\n"@
        }
    }

    /// The items that re-export all that is below this node.
    pub open spec fn reexports(self, indent: nat) -> Seq<char> {
        self.listing(self.segments(), indent, false)
    }

    /// The module that re-exports all that is below this node.
    pub open spec fn reexports_module(self) -> Seq<char> {
        "pub mod pax_reexports {\n"@ + self.reexports(1) + "\n}"@
    }

    proof fn lemma_depth_grows(self, n: nat)
        requires
            self.depth_at_most(n),
        ensures
            self.depth_at_most(n + 1),
        decreases n,
    {
        assert forall|k: Seq<char>| #[trigger]
            self.children.contains_key(k) implies self.children[k].depth_at_most(n) by {
            self.children[k].lemma_depth_grows((n - 1) as nat);
        }
    }
}

impl NamespaceTrieNode {
    /// The node and all below as mathematical values.
    pub open spec fn model(self) -> Namespace
        decreases self,
    {
        Namespace {
            name: match self.node_string {
                Some(s) => Some(s@),
                None => None,
            },
            children: Map::new(
                |k: Seq<char>| keys_of(self.children@).contains(k),
                |k: Seq<char>|
                    if keys_of(self.children@).contains(k) {
                        self.children[keys_of(self.children@).index_of(k)].1.model()
                    } else {
                        arbitrary()
                    },
            ),
        }
    }

    /// In this node and all below, no segment leads to two children.
    pub open spec fn wf(self) -> bool
        decreases self,
    {
        &&& keys_of(self.children@).no_duplicates()
        &&& forall|i: int| 0 <= i < self.children.len() ==> (#[trigger] self.children[i]).1.wf()
    }
}

impl View for NamespaceTrieNode {
    type V = Namespace;

    open spec fn view(&self) -> Namespace {
        self.model()
    }
}

impl NamespaceTrieNode {
    /// The `i`-th child in the model.
    proof fn lemma_child_at(self, i: int)
        requires
            keys_of(self.children@).no_duplicates(),
            0 <= i < self.children@.len(),
        ensures
            self.model().children.contains_key(self.children@[i].0@),
            self.model().children[self.children@[i].0@] == self.children@[i].1.model(),
    {
        let keys = keys_of(self.children@);
        assert(keys[i] == self.children@[i].0@);
        assert(keys[keys.index_of(keys[i])] == keys[i]);
    }

    /// What replacing the `i`-th child does to the model.
    proof fn lemma_child_replaced(self, i: int, child: NamespaceTrieNode, after: NamespaceTrieNode)
        requires
            self.wf(),
            0 <= i < self.children@.len(),
            after.node_string == self.node_string,
            after.children@ == self.children@.update(i, (self.children@[i].0, child)),
        ensures
            child.wf() ==> after.wf(),
            after.model() == (Namespace {
                name: self.model().name,
                children: self.model().children.insert(self.children@[i].0@, child.model()),
            }),
    {
        let keys = keys_of(self.children@);
        assert(keys_of(after.children@) =~= keys);
        let expected = self.model().children.insert(self.children@[i].0@, child.model());
        assert(keys[i] == self.children@[i].0@);
        assert forall|k: Seq<char>| #[trigger] after.model().children.contains_key(k) implies
            after.model().children[k] == expected[k] by {
            let j = keys.index_of(k);
            assert(keys[j] == k);
            self.lemma_child_at(j);
            after.lemma_child_at(j);
        }
        assert(after.model().children =~= expected);
        if child.wf() {
            assert forall|j: int| 0 <= j < after.children.len() implies (
            #[trigger] after.children[j]).1.wf() by {
                if j != i {
                    assert(self.children[j].1.wf());
                }
            }
        }
    }

    /// What adding a child under a new segment does to the model.
    proof fn lemma_child_added(
        self,
        segment: String,
        child: NamespaceTrieNode,
        after: NamespaceTrieNode,
    )
        requires
            self.wf(),
            !keys_of(self.children@).contains(segment@),
            after.node_string == self.node_string,
            after.children@ == self.children@.push((segment, child)),
        ensures
            child.wf() ==> after.wf(),
            after.model() == (Namespace {
                name: self.model().name,
                children: self.model().children.insert(segment@, child.model()),
            }),
    {
        let keys = keys_of(self.children@);
        let after_keys = keys_of(after.children@);
        let n = keys.len() as int;
        assert(after_keys =~= keys.push(segment@));
        let expected = self.model().children.insert(segment@, child.model());
        assert forall|k: Seq<char>| #[trigger]
            after.model().children.contains_key(k) <==> expected.contains_key(k) by {
            if keys.contains(k) {
                assert(after_keys[keys.index_of(k)] == k);
            }
            if k == segment@ {
                assert(after_keys[n] == k);
            }
            if after_keys.contains(k) {
                let j = after_keys.index_of(k);
                if j < n {
                    assert(keys[j] == k);
                }
            }
        }
        assert forall|k: Seq<char>| #[trigger] after.model().children.contains_key(k) implies
            after.model().children[k] == expected[k] by {
            let j = after_keys.index_of(k);
            assert(after_keys[j] == k);
            after.lemma_child_at(j);
            if j < n {
                assert(keys[j] == k);
                self.lemma_child_at(j);
            }
        }
        assert(after.model().children =~= expected);
        if child.wf() {
            assert forall|j: int| 0 <= j < after.children.len() implies (
            #[trigger] after.children[j]).1.wf() by {
                if j < n {
                    assert(self.children[j].1.wf());
                }
            }
        }
    }

    /// The child that `segment` leads to. It is created where it is missing,
    /// with the node's own namespace and the segment for a namespace.
    pub fn get_or_create_child(&mut self, segment: &str) -> (child: &mut NamespaceTrieNode)
        requires
            old(self).wf(),
        ensures
            child@ == old(self)@.child(segment@),
            child.wf(),
            final(child).wf() ==> final(self).wf(),
            final(self)@ == (Namespace {
                name: old(self)@.name,
                children: old(self)@.children.insert(segment@, final(child)@),
            }),
    {
        match position_of(&self.children, segment) {
            Some(i) => {
                proof {
                    let before = *self;
                    before.lemma_child_at(i as int);
                    assert forall|c: NamespaceTrieNode, after: NamespaceTrieNode|
                        #![trigger c.model(), after.model()]
                        #![trigger c.wf(), after.wf()]
                        after.node_string == before.node_string && after.children@
                            == before.children@.update(
                            i as int,
                            (before.children@[i as int].0, c),
                        ) implies {
                        &&& c.wf() ==> after.wf()
                        &&& after.model() == (Namespace {
                            name: before.model().name,
                            children: before.model().children.insert(segment@, c.model()),
                        })
                    } by {
                        before.lemma_child_replaced(i as int, c, after);
                    }
                }
                &mut self.children[i].1
            },
            None => {
                let name: String = match &self.node_string {
                    Some(ns) => ns.clone().concat("::").concat(segment),
                    None => String::from_str(segment),
                };
                let child: NamespaceTrieNode = NamespaceTrieNode {
                    node_string: Some(name),
                    children: Vec::new(),
                };
                assert(keys_of(child.children@) =~= Seq::empty());
                assert(child.model().children =~= Map::<Seq<char>, Namespace>::empty());
                let n: usize = self.children.len();
                let key: String = String::from_str(segment);
                proof {
                    let before = *self;
                    assert forall|c: NamespaceTrieNode, after: NamespaceTrieNode|
                        #![trigger c.model(), after.model()]
                        #![trigger c.wf(), after.wf()]
                        after.node_string == before.node_string
                            && after.children@ == before.children@.push((key, child)).update(
                            n as int,
                            (key, c),
                        ) implies {
                        &&& c.wf() ==> after.wf()
                        &&& after.model() == (Namespace {
                            name: before.model().name,
                            children: before.model().children.insert(segment@, c.model()),
                        })
                    } by {
                        assert(after.children@ =~= before.children@.push((key, c)));
                        before.lemma_child_added(key, c, after);
                    }
                }
                self.children.push((key, child));
                &mut self.children[n].1
            },
        }
    }

    /// Adds the nodes along a namespace, segment by segment.
    pub fn insert(&mut self, namespace_string: &str)
        requires
            old(self).wf(),
        ensures
            final(self).wf(),
            final(self)@ == old(self)@.with_path(split(namespace_string@, separator())),
    {
        proof {
            reveal_strlit("::");
        }
        let segments: Vec<String> = split_text(namespace_string, "::");
        let ghost path = texts(segments@);
        let mut current_node: &mut NamespaceTrieNode = self;
        let mut i: usize = 0;
        assert(path.skip(0) =~= path);
        while i < segments.len()
            invariant
                i <= segments.len(),
                path == texts(segments@),
                current_node.wf(),
                final(current_node).wf() ==> after_borrow(*self).wf(),
                final(current_node)@ == current_node@.with_path(path.skip(i as int))
                    ==> after_borrow(*self)@ == old(self)@.with_path(path),
            decreases segments.len() - i,
        {
            assert(path.skip(i as int).drop_first() =~= path.skip(i + 1));
            current_node = current_node.get_or_create_child(segments[i].as_str());
            i += 1;
        }
    }

    /// What stands for all children.
    fn listing_text(&self, indent: usize, in_crate: bool) -> (r: String)
        requires
            self.wf(),
            self@.named(),
            self@.depth_at_most((usize::MAX - indent) as nat),
        ensures
            r@ == self@.listing(self@.segments(), indent as nat, in_crate),
        decreases self, 0nat,
    {
        let mut keys: Vec<String> = Vec::new();
        let mut i: usize = 0;
        while i < self.children.len()
            invariant
                i <= self.children.len(),
                texts(keys@) == keys_of(self.children@).take(i as int),
            decreases self.children.len() - i,
        {
            let ghost before = keys@;
            keys.push(self.children[i].0.clone());
            assert(texts(keys@) =~= texts(before).push(self.children@[i as int].0@));
            assert(keys_of(self.children@).take(i + 1) =~= keys_of(self.children@).take(
                i as int,
            ).push(self.children@[i as int].0@));
            i += 1;
        }
        assert(texts(keys@) =~= keys_of(self.children@));
        let sorted: Vec<String> = sorted_strings(keys);
        let ghost segments = texts(sorted@);
        proof {
            lemma_permutation(keys_of(self.children@), segments);
            assert(keys_of(self.children@).to_set() =~= self@.children.dom());
            text_order_is_total();
            lemma_ordered_is_unique(segments, text_order(), self@.children.dom());
        }
        let mut r: String = String::new();
        let mut j: usize = 0;
        while j < sorted.len()
            invariant
                self.wf(),
                self@.named(),
                self@.depth_at_most((usize::MAX - indent) as nat),
                j <= sorted.len(),
                segments == texts(sorted@),
                segments.to_set() == self@.children.dom(),
                r@ == self@.listing(segments.take(j as int), indent as nat, in_crate),
            decreases sorted.len() - j,
        {
            assert(segments.to_set().contains(segments[j as int]));
            assert(segments.take(j + 1).drop_last() =~= segments.take(j as int));
            match position_of(&self.children, sorted[j].as_str()) {
                Some(p) => {
                    proof {
                        self.lemma_child_at(p as int);
                    }
                    let text: String = self.children[p].1.entry_text(indent, in_crate);
                    r.append(text.as_str());
                },
                None => {
                    assert(false);
                },
            }
            j += 1;
        }
        assert(segments.take(segments.len() as int) =~= segments);
        r
    }

    /// What stands for this node in the listing of its parent.
    fn entry_text(&self, indent: usize, in_crate: bool) -> (r: String)
        requires
            self.wf(),
            self@.name is Some,
            self@.named(),
            indent < usize::MAX,
            self@.depth_at_most((usize::MAX - indent - 1) as nat),
        ensures
            r@ == self@.entry(indent as nat, in_crate),
        decreases self, 1nat,
    {
        let name: &String = self.node_string.as_ref().unwrap();
        if !in_crate && same_text(name.as_str(), "crate") {
            proof {
                self@.lemma_depth_grows((usize::MAX - indent - 1) as nat);
            }
            return self.listing_text(indent, true);
        }
        let margin: String = repeat_text("    ", indent);
        let mut r: String = margin.clone();
        if self.children.len() == 0 {
            assert(self@.is_leaf());
            r.append("pub use ");
            r.append(name.as_str());
            r.append(";\n");
        } else {
            proof {
                reveal_strlit("::");
                self.lemma_child_at(0);
                split_is_not_empty(name@, separator());
            }
            let parts: Vec<String> = split_text(name.as_str(), "::");
            r.append("pub mod ");
            r.append(parts[parts.len() - 1].as_str());
            if in_crate {
                r.append(" {\n");
            } else {
                r.append("{\n");
            }
            let inner: String = self.listing_text(indent + 1, false);
            r.append(inner.as_str());
            r.append(margin.as_str());
            r.append("}\n");
        }
        r
    }

    /// The items that re-export all that is below this node, indented by
    /// `indent` levels.
    pub fn recurse_serialize_to_reexports(&self, indent: usize) -> (r: String)
        requires
            self.wf(),
            self@.named(),
            self@.depth_at_most((usize::MAX - indent) as nat),
        ensures
            r@ == self@.reexports(indent as nat),
    {
        self.listing_text(indent, false)
    }

    /// The module `pax_reexports`, which re-exports all that is below this
    /// node.
    pub fn serialize_to_reexports(&self) -> (r: String)
        requires
            self.wf(),
            self@.named(),
            self@.depth_at_most((usize::MAX - 1) as nat),
        ensures
            r@ == self@.reexports_module(),
    {
        let mut r: String = String::from_str("pub mod pax_reexports {\n");
        r.append(self.recurse_serialize_to_reexports(1).as_str());
        r.append("\n}");
        r
    }
}

} // verus!
