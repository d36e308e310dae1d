//! What holds of every trie of namespaces.

use crate::namespace::{separator, Namespace};
use crate::text::{join, join_undoes_split, lemma_join_first, split, split_is_not_empty};
use vstd::prelude::*;

verus! {

impl Namespace {
    /// The node that `path` leads to is in the trie.
    pub open spec fn has_path(self, path: Seq<Seq<char>>) -> bool
        decreases path.len(),
    {
        path.len() == 0 || (self.children.contains_key(path[0]) && self.children[path[0]].has_path(
            path.drop_first(),
        ))
    }

    /// The node that `path` leads to.
    pub open spec fn at(self, path: Seq<Seq<char>>) -> Namespace
        decreases path.len(),
    {
        if path.len() == 0 {
            self
        } else {
            self.children[path[0]].at(path.drop_first())
        }
    }

    /// Every node below bears the namespace of its parent followed by the
    /// segment that leads to it.
    pub open spec fn consistent(self) -> bool
        decreases self,
    {
        forall|k: Seq<char>| #[trigger]
            self.children.contains_key(k) ==> self.children[k].name == Some(self.child_name(k))
                && self.children[k].consistent()
    }
}

/// Adding a path adds the nodes along it and no others: afterwards a path is
/// in the trie if it was there before or is a prefix of the one added.
pub proof fn adding_a_path_adds_its_prefixes(
    t: Namespace,
    path: Seq<Seq<char>>,
    q: Seq<Seq<char>>,
)
    ensures
        t.with_path(path).has_path(q) <==> t.has_path(q) || q.is_prefix_of(path),
    decreases path.len(),
{
    if path.len() > 0 && q.len() > 0 {
        let k = path[0];
        let rest = path.drop_first();
        let tail = q.drop_first();
        assert(q =~= seq![q[0]] + tail);
        assert(path =~= seq![k] + rest);
        if q[0] == k {
            adding_a_path_adds_its_prefixes(t.child(k), rest, tail);
            assert(tail.is_prefix_of(rest) <==> q.is_prefix_of(path)) by {
                if tail.is_prefix_of(rest) {
                    assert(path.subrange(0, q.len() as int) =~= q) by {
                        assert forall|i: int| 0 <= i < q.len() implies path[i] == q[i] by {
                            if i > 0 {
                                assert(tail[i - 1] == rest.subrange(0, tail.len() as int)[i - 1]);
                            }
                        }
                    }
                }
                if q.is_prefix_of(path) {
                    assert(rest.subrange(0, tail.len() as int) =~= tail) by {
                        assert forall|i: int| 0 <= i < tail.len() implies rest[i] == tail[i] by {
                            assert(q[i + 1] == path.subrange(0, q.len() as int)[i + 1]);
                        }
                    }
                }
            }
            if !t.children.contains_key(k) {
                let fresh = t.child(k);
                assert(fresh.has_path(tail) ==> tail.len() == 0);
                assert(tail.len() == 0 ==> tail.is_prefix_of(rest)) by {
                    assert(rest.subrange(0, 0) =~= Seq::<Seq<char>>::empty());
                    if tail.len() == 0 {
                        assert(tail =~= rest.subrange(0, 0));
                    }
                }
            }
        } else {
            if q.is_prefix_of(path) {
                assert(q[0] == path.subrange(0, q.len() as int)[0]);
            }
        }
    } else if q.len() == 0 {
        assert(q =~= path.subrange(0, 0));
    }
}

/// Adding a path a second time changes nothing.
pub proof fn adding_a_path_twice_is_adding_it_once(t: Namespace, path: Seq<Seq<char>>)
    ensures
        t.with_path(path).with_path(path) == t.with_path(path),
    decreases path.len(),
{
    if path.len() > 0 {
        adding_a_path_twice_is_adding_it_once(t.child(path[0]), path.drop_first());
        assert(t.with_path(path).with_path(path).children =~= t.with_path(path).children);
    }
}

/// The order in which two paths are added does not matter.
pub proof fn paths_are_added_in_any_order(t: Namespace, p: Seq<Seq<char>>, q: Seq<Seq<char>>)
    ensures
        t.with_path(p).with_path(q) == t.with_path(q).with_path(p),
    decreases p.len(),
{
    if p.len() > 0 && q.len() > 0 {
        if p[0] == q[0] {
            paths_are_added_in_any_order(t.child(p[0]), p.drop_first(), q.drop_first());
        }
        assert(t.with_path(p).with_path(q).children =~= t.with_path(q).with_path(p).children);
    }
}

/// Where every node bears the namespace that leads to it, adding a path keeps
/// it so.
pub proof fn adding_a_path_keeps_names_consistent(t: Namespace, path: Seq<Seq<char>>)
    requires
        t.consistent(),
    ensures
        t.with_path(path).consistent(),
        t.with_path(path).name == t.name,
    decreases path.len(),
{
    if path.len() > 0 {
        let k = path[0];
        adding_a_path_keeps_names_consistent(t.child(k), path.drop_first());
        let u = t.with_path(path);
        assert forall|j: Seq<char>| #[trigger] u.children.contains_key(j) implies u.children[j].name
            == Some(u.child_name(j)) && u.children[j].consistent() by {
            if j != k {
                assert(t.children.contains_key(j));
            }
        }
    }
}

/// A trie whose nodes bear the namespaces that lead to them is given by its
/// paths: two with the same paths are the same.
pub proof fn same_paths_make_the_same_namespace(a: Namespace, b: Namespace)
    requires
        a.consistent(),
        b.consistent(),
        a.name == b.name,
        forall|q: Seq<Seq<char>>| #[trigger] a.has_path(q) <==> b.has_path(q),
    ensures
        a == b,
    decreases a,
{
    assert forall|k: Seq<char>| #[trigger]
        a.children.contains_key(k) <==> b.children.contains_key(k) by {
        let q = seq![k];
        assert(a.has_path(q) <==> b.has_path(q));
        assert(q.drop_first() =~= Seq::<Seq<char>>::empty());
        assert(a.children[k].has_path(q.drop_first()));
        assert(b.children[k].has_path(q.drop_first()));
    }
    assert forall|k: Seq<char>| #[trigger] a.children.contains_key(k) implies a.children[k]
        == b.children[k] by {
        assert forall|q: Seq<Seq<char>>| #[trigger]
            a.children[k].has_path(q) <==> b.children[k].has_path(q) by {
            let long = seq![k] + q;
            assert(long.drop_first() =~= q);
            assert(a.has_path(long) <==> b.has_path(long));
        }
        same_paths_make_the_same_namespace(a.children[k], b.children[k]);
    }
    assert(a.children =~= b.children);
}

/// Below a root without a namespace, the node that a path leads to bears the
/// segments of the path, joined by `::`.
pub proof fn a_node_bears_its_path(t: Namespace, path: Seq<Seq<char>>)
    requires
        t.consistent(),
        t.has_path(path),
        path.len() > 0,
    ensures
        t.at(path).name == Some(
            match t.name {
                Some(name) => name + separator() + join(path, separator()),
                None => join(path, separator()),
            },
        ),
    decreases path.len(),
{
    let c = t.children[path[0]];
    let rest = path.drop_first();
    if rest.len() > 0 {
        a_node_bears_its_path(c, rest);
        lemma_join_first(path, separator());
        let whole = join(path, separator());
        match t.name {
            Some(name) => {
                assert(name + separator() + path[0] + separator() + join(rest, separator()) =~= name
                    + separator() + whole);
            },
            None => {},
        }
    } else {
        assert(join(path, separator()) == path[0]);
        assert(c.at(rest) == c);
    }
}

/// After a namespace has been added to a trie whose root has none, the node
/// that its segments lead to bears that namespace.
pub proof fn an_added_namespace_is_found_under_its_segments(t: Namespace, namespace: Seq<char>)
    requires
        t.consistent(),
        t.name is None,
    ensures
        ({
            let path = split(namespace, separator());
            let u = t.with_path(path);
            u.has_path(path) && u.at(path).name == Some(namespace)
        }),
{
    let path = split(namespace, separator());
    let u = t.with_path(path);
    split_is_not_empty(namespace, separator());
    assert(path.subrange(0, path.len() as int) =~= path);
    adding_a_path_adds_its_prefixes(t, path, path);
    adding_a_path_keeps_names_consistent(t, path);
    a_node_bears_its_path(u, path);
    join_undoes_split(namespace, separator());
}

} // verus!
