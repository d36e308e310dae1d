//! The module that re-exports what an application imports.

use crate::namespace::{indentation, separator, Namespace, NamespaceTrieNode};
use crate::namespace_laws::{
    a_node_bears_its_path, adding_a_path_adds_its_prefixes, adding_a_path_keeps_names_consistent,
    same_paths_make_the_same_namespace,
};
use crate::order::{lemma_an_order_exists, sorted_strings};
use crate::text::{
    contains_text, first_at, join_undoes_split, lemma_first_exists, occurs_at, repeated, split,
    split_is_not_empty, text_order, text_order_is_total, texts,
};
use vstd::prelude::*;
use vstd::string::*;

verus! {

/// The file that holds the re-exports, relative to the `.pax` directory.
pub const REEXPORTS_PARTIAL_RS_PATH: &'static str = "reexports.partial.rs";

/// The trie of a list of namespaces.
pub open spec fn namespace_of(imports: Seq<Seq<char>>) -> Namespace
    decreases imports.len(),
{
    if imports.len() == 0 {
        Namespace { name: None, children: Map::empty() }
    } else {
        namespace_of(imports.drop_last()).with_path(split(imports.last(), separator()))
    }
}

proof fn lemma_split_len(s: Seq<char>, sep: Seq<char>)
    requires
        sep.len() >= 2,
    ensures
        split(s, sep).len() <= s.len() / 2 + 1,
    decreases s.len(),
{
    if contains_text(s, sep) {
        lemma_first_exists(s, sep, choose|j: int| occurs_at(s, sep, j));
        let i = choose|i: int| first_at(s, sep, i);
        lemma_split_len(s.skip(i + sep.len()), sep);
    }
}

proof fn lemma_with_path_depth(t: Namespace, path: Seq<Seq<char>>, n: nat)
    requires
        t.depth_at_most(n),
        path.len() <= n,
    ensures
        t.with_path(path).depth_at_most(n),
    decreases path.len(),
{
    if path.len() > 0 {
        lemma_with_path_depth(t.child(path[0]), path.drop_first(), (n - 1) as nat);
        let u = t.with_path(path);
        assert forall|k: Seq<char>| #[trigger]
            u.children.contains_key(k) implies u.children[k].depth_at_most((n - 1) as nat) by {
            if k != path[0] {
                assert(t.children.contains_key(k));
            }
        }
    }
}

proof fn lemma_with_path_named(t: Namespace, path: Seq<Seq<char>>)
    requires
        t.named(),
    ensures
        t.with_path(path).named(),
        t.with_path(path).name == t.name,
    decreases path.len(),
{
    if path.len() > 0 {
        lemma_with_path_named(t.child(path[0]), path.drop_first());
        let u = t.with_path(path);
        assert forall|k: Seq<char>| #[trigger]
            u.children.contains_key(k) implies u.children[k].name is Some
            && u.children[k].named() by {
            if k != path[0] {
                assert(t.children.contains_key(k));
            }
        }
    }
}

/// The module that re-exports the given namespaces.
pub fn bundle_reexports_into_namespace_string(sorted_reexports: &Vec<String>) -> (r: String)
    ensures
        r@ == namespace_of(texts(sorted_reexports@)).reexports_module(),
{
    let mut root: NamespaceTrieNode = NamespaceTrieNode { node_string: None, children: Vec::new() };
    let ghost imports = texts(sorted_reexports@);
    let ghost bound = (usize::MAX - 1) as nat;
    assert(root@.children =~= Map::<Seq<char>, Namespace>::empty());
    assert(root@ == namespace_of(imports.take(0)));
    let mut i: usize = 0;
    while i < sorted_reexports.len()
        invariant
            i <= sorted_reexports.len(),
            imports == texts(sorted_reexports@),
            bound == usize::MAX - 1,
            root.wf(),
            root@ == namespace_of(imports.take(i as int)),
            root@.named(),
            root@.depth_at_most(bound),
        decreases sorted_reexports.len() - i,
    {
        let s: &str = sorted_reexports[i].as_str();
        // No path is longer than the string it came from.
        let length: usize = s.unicode_len();
        proof {
            reveal_strlit("::");
            let path = split(s@, separator());
            lemma_split_len(s@, separator());
            assert(path.len() <= length / 2 + 1);
            lemma_with_path_depth(root@, path, bound);
            lemma_with_path_named(root@, path);
            assert(imports.take(i + 1).drop_last() =~= imports.take(i as int));
        }
        root.insert(s);
        i += 1;
    }
    assert(imports.take(imports.len() as int) =~= imports);
    root.serialize_to_reexports()
}

/// The contents of the file of re-exports: the imports, sorted, as one module.
pub fn generate_reexports_partial_rs(import_paths: Vec<String>) -> (r: String)
    ensures
        r@ == namespace_of(texts(import_paths@)).reexports_module(),
{
    let imports: Vec<String> = sorted_strings(import_paths);
    proof {
        assert forall|s: Seq<char>| #[trigger]
            texts(imports@).to_set().contains(s) <==> texts(import_paths@).to_set().contains(s) by {
            broadcast use vstd::seq_lib::group_to_multiset_ensures;

            assert(texts(imports@).to_multiset().contains(s) <==> texts(imports@).contains(s));
            assert(texts(import_paths@).to_multiset().contains(s) <==> texts(
                import_paths@,
            ).contains(s));
        }
        assert(texts(imports@).to_set() =~= texts(import_paths@).to_set());
        order_and_repetition_of_imports_do_not_matter(texts(imports@), texts(import_paths@));
    }
    bundle_reexports_into_namespace_string(&imports)
}

/// A path is in the trie of a list of namespaces if and only if it is a prefix
/// of one of them.
pub proof fn the_trie_holds_the_prefixes(imports: Seq<Seq<char>>, q: Seq<Seq<char>>)
    ensures
        namespace_of(imports).has_path(q) <==> q.len() == 0 || exists|i: int|
            0 <= i < imports.len() && q.is_prefix_of(split(#[trigger] imports[i], separator())),
    decreases imports.len(),
{
    if imports.len() > 0 {
        let shorter = imports.drop_last();
        the_trie_holds_the_prefixes(shorter, q);
        adding_a_path_adds_its_prefixes(
            namespace_of(shorter),
            split(imports.last(), separator()),
            q,
        );
        assert(imports[imports.len() - 1] == imports.last());
        if exists|i: int|
            0 <= i < shorter.len() && q.is_prefix_of(split(#[trigger] shorter[i], separator())) {
            let i = choose|i: int|
                0 <= i < shorter.len() && q.is_prefix_of(split(#[trigger] shorter[i], separator()));
            assert(imports[i] == shorter[i]);
        }
        if exists|i: int|
            0 <= i < imports.len() && q.is_prefix_of(split(#[trigger] imports[i], separator())) {
            let i = choose|i: int|
                0 <= i < imports.len() && q.is_prefix_of(split(#[trigger] imports[i], separator()));
            if i < shorter.len() {
                assert(imports[i] == shorter[i]);
            }
        }
    }
}

/// Every node of the trie of a list of namespaces bears the namespace that
/// leads to it.
pub proof fn the_trie_is_consistent(imports: Seq<Seq<char>>)
    ensures
        namespace_of(imports).consistent(),
        namespace_of(imports).name is None,
    decreases imports.len(),
{
    if imports.len() > 0 {
        the_trie_is_consistent(imports.drop_last());
        adding_a_path_keeps_names_consistent(
            namespace_of(imports.drop_last()),
            split(imports.last(), separator()),
        );
    }
}

/// The re-exports depend on which namespaces are imported, not on their order
/// nor on how often each is named.
pub proof fn order_and_repetition_of_imports_do_not_matter(a: Seq<Seq<char>>, b: Seq<Seq<char>>)
    requires
        a.to_set() == b.to_set(),
    ensures
        namespace_of(a) == namespace_of(b),
        namespace_of(a).reexports_module() == namespace_of(b).reexports_module(),
{
    the_trie_is_consistent(a);
    the_trie_is_consistent(b);
    assert forall|q: Seq<Seq<char>>| #[trigger]
        namespace_of(a).has_path(q) <==> namespace_of(b).has_path(q) by {
        if namespace_of(a).has_path(q) {
            lemma_more_imports_more_paths(a, b, q);
        }
        if namespace_of(b).has_path(q) {
            lemma_more_imports_more_paths(b, a, q);
        }
    }
    same_paths_make_the_same_namespace(namespace_of(a), namespace_of(b));
}

proof fn lemma_more_imports_more_paths(
    a: Seq<Seq<char>>,
    b: Seq<Seq<char>>,
    q: Seq<Seq<char>>,
)
    requires
        a.to_set().subset_of(b.to_set()),
        namespace_of(a).has_path(q),
    ensures
        namespace_of(b).has_path(q),
{
    the_trie_holds_the_prefixes(a, q);
    the_trie_holds_the_prefixes(b, q);
    if q.len() > 0 {
        let i = choose|i: int|
            0 <= i < a.len() && q.is_prefix_of(split(#[trigger] a[i], separator()));
        assert(a.to_set().contains(a[i]));
        assert(b.contains(a[i]));
        let j = choose|j: int| 0 <= j < b.len() && b[j] == a[i];
        assert(q.is_prefix_of(split(b[j], separator())));
    }
}

/// The line that re-exports `namespace`.
pub open spec fn use_line(namespace: Seq<char>) -> Seq<char> {
    "pub use "@ + namespace + ";\n"@
}

/// A node of the trie of a list of namespaces that has no node below bears one
/// of these namespaces: nothing is re-exported that was not imported.
pub proof fn every_leaf_is_an_import(imports: Seq<Seq<char>>, path: Seq<Seq<char>>)
    requires
        path.len() > 0,
        namespace_of(imports).has_path(path),
        namespace_of(imports).at(path).is_leaf(),
    ensures
        exists|i: int|
            0 <= i < imports.len() && namespace_of(imports).at(path).name == Some(
                #[trigger] imports[i],
            ),
{
    lemma_leaf_path(imports, path);
    let i = choose|i: int|
        0 <= i < imports.len() && path == split(#[trigger] imports[i], separator());
    the_trie_is_consistent(imports);
    a_node_bears_its_path(namespace_of(imports), path);
    join_undoes_split(imports[i], separator());
}

/// The path to a node without nodes below is made of the segments of an import.
pub(crate) proof fn lemma_leaf_path(imports: Seq<Seq<char>>, path: Seq<Seq<char>>)
    requires
        path.len() > 0,
        namespace_of(imports).has_path(path),
        namespace_of(imports).at(path).is_leaf(),
    ensures
        exists|i: int|
            0 <= i < imports.len() && path == split(#[trigger] imports[i], separator()),
{
    let t = namespace_of(imports);
    the_trie_holds_the_prefixes(imports, path);
    let i = choose|i: int|
        0 <= i < imports.len() && path.is_prefix_of(split(#[trigger] imports[i], separator()));
    let whole = split(imports[i], separator());
    if path.len() < whole.len() {
        let longer = whole.subrange(0, path.len() as int + 1);
        assert(longer.is_prefix_of(whole));
        the_trie_holds_the_prefixes(imports, longer);
        assert(longer =~= path.push(whole[path.len() as int])) by {
            assert(path == whole.subrange(0, path.len() as int));
        }
        lemma_longer_path(t, path, whole[path.len() as int]);
        assert(false);
    }
    assert(path =~= whole);
}

proof fn lemma_longer_path(t: Namespace, path: Seq<Seq<char>>, segment: Seq<char>)
    requires
        t.has_path(path.push(segment)),
    ensures
        t.at(path).children.contains_key(segment),
    decreases path.len(),
{
    let longer = path.push(segment);
    if path.len() > 0 {
        assert(longer.drop_first() =~= path.drop_first().push(segment));
        lemma_longer_path(t.children[path[0]], path.drop_first(), segment);
    }
}

/// Every node of the trie has finitely many children.
pub open spec fn finite(t: Namespace) -> bool
    decreases t,
{
    &&& t.children.dom().finite()
    &&& forall|k: Seq<char>| #[trigger] t.children.contains_key(k) ==> finite(t.children[k])
}

proof fn lemma_with_path_finite(t: Namespace, path: Seq<Seq<char>>)
    requires
        finite(t),
    ensures
        finite(t.with_path(path)),
    decreases path.len(),
{
    if path.len() > 0 {
        lemma_with_path_finite(t.child(path[0]), path.drop_first());
        let u = t.with_path(path);
        assert(u.children.dom() =~= t.children.dom().insert(path[0]));
        assert forall|k: Seq<char>| #[trigger] u.children.contains_key(k) implies finite(
            u.children[k],
        ) by {
            if k != path[0] {
                assert(t.children.contains_key(k));
            }
        }
    }
}

pub(crate) proof fn lemma_trie_finite(imports: Seq<Seq<char>>)
    ensures
        finite(namespace_of(imports)),
    decreases imports.len(),
{
    if imports.len() > 0 {
        lemma_trie_finite(imports.drop_last());
        lemma_with_path_finite(
            namespace_of(imports.drop_last()),
            split(imports.last(), separator()),
        );
    }
}

proof fn lemma_within(before: Seq<char>, s: Seq<char>, after: Seq<char>, pat: Seq<char>)
    requires
        contains_text(s, pat),
    ensures
        contains_text(before + s + after, pat),
{
    let i = choose|i: int| occurs_at(s, pat, i);
    let whole = before + s + after;
    let j = before.len() + i;
    assert(whole.subrange(j, j + pat.len()) =~= s.subrange(i, i + pat.len()));
    assert(occurs_at(whole, pat, j));
}

proof fn lemma_entry_listed(
    t: Namespace,
    segments: Seq<Seq<char>>,
    i: int,
    indent: nat,
    in_crate: bool,
    pat: Seq<char>,
)
    requires
        0 <= i < segments.len(),
        t.children.contains_key(segments[i]),
        contains_text(t.children[segments[i]].entry(indent, in_crate), pat),
    ensures
        contains_text(t.listing(segments, indent, in_crate), pat),
    decreases segments.len(),
{
    let last = segments.last();
    let shorter = t.listing(segments.drop_last(), indent, in_crate);
    if i == segments.len() - 1 {
        let entry = t.children[last].entry(indent, in_crate);
        lemma_within(shorter, entry, Seq::empty(), pat);
        assert(shorter + entry + Seq::empty() =~= shorter + entry);
    } else {
        assert(segments.drop_last()[i] == segments[i]);
        lemma_entry_listed(t, segments.drop_last(), i, indent, in_crate, pat);
        if t.children.contains_key(last) {
            let entry = t.children[last].entry(indent, in_crate);
            lemma_within(Seq::empty(), shorter, entry, pat);
            assert(Seq::empty() + shorter + entry =~= shorter + entry);
        }
    }
}

proof fn lemma_leaf_listed(t: Namespace, path: Seq<Seq<char>>, indent: nat, in_crate: bool)
    requires
        finite(t),
        t.named(),
        path.len() > 0,
        t.has_path(path),
        t.at(path).is_leaf(),
        t.at(path).name != Some("crate"@),
    ensures
        contains_text(
            t.listing(t.segments(), indent, in_crate),
            use_line(t.at(path).name.unwrap()),
        ),
    decreases path.len(),
{
    let k = path[0];
    let c = t.children[k];
    let rest = path.drop_first();
    let pat = use_line(t.at(path).name.unwrap());
    let margin = repeated(indentation(), indent);
    assert(c.has_path(rest));
    assert(t.at(path) == c.at(rest));
    assert(contains_text(c.entry(indent, in_crate), pat)) by {
        if rest.len() == 0 {
            let entry = c.entry(indent, in_crate);
            assert(c.at(rest) == c);
            assert(entry =~= margin + pat + Seq::empty());
            assert(pat.subrange(0, pat.len() as int) =~= pat);
            assert(occurs_at(pat, pat, 0));
            lemma_within(margin, pat, Seq::empty(), pat);
        } else {
            assert(c.children.contains_key(rest[0]));
            if !in_crate && c.name.unwrap() == "crate"@ {
                lemma_leaf_listed(c, rest, indent, true);
            } else {
                lemma_leaf_listed(c, rest, indent + 1, false);
                let inner = c.listing(c.segments(), indent + 1, false);
                let head = margin + "pub mod "@ + split(c.name.unwrap(), separator()).last() + (
                if in_crate {
                    " {\n"@
                } else {
                    "{\n"@
                });
                lemma_within(head, inner, margin + "}\n"@, pat);
                assert(c.entry(indent, in_crate) =~= head + inner + (margin + "}\n"@));
            }
        }
    }
    text_order_is_total();
    lemma_an_order_exists(t.children.dom(), text_order());
    let segments = t.segments();
    assert(segments.to_set().contains(k));
    let i = choose|i: int| 0 <= i < segments.len() && segments[i] == k;
    lemma_entry_listed(t, segments, i, indent, in_crate, pat);
}

proof fn lemma_trie_named(imports: Seq<Seq<char>>)
    ensures
        namespace_of(imports).named(),
    decreases imports.len(),
{
    if imports.len() > 0 {
        lemma_trie_named(imports.drop_last());
        lemma_with_path_named(
            namespace_of(imports.drop_last()),
            split(imports.last(), separator()),
        );
    }
}

/// Another import begins with the segments of this one.
pub open spec fn is_continued(imports: Seq<Seq<char>>, namespace: Seq<char>) -> bool {
    exists|j: int|
        0 <= j < imports.len() && #[trigger] imports[j] != namespace && split(
            namespace,
            separator(),
        ).is_prefix_of(split(imports[j], separator()))
}

/// The node of an import has nodes below if and only if the import is
/// continued.
pub(crate) proof fn lemma_uncontinued_is_leaf(imports: Seq<Seq<char>>, i: int)
    requires
        0 <= i < imports.len(),
    ensures
        split(imports[i], separator()).len() > 0,
        namespace_of(imports).has_path(split(imports[i], separator())),
        namespace_of(imports).at(split(imports[i], separator())).name == Some(imports[i]),
        namespace_of(imports).at(split(imports[i], separator())).is_leaf() <==> !is_continued(
            imports,
            imports[i],
        ),
{
    let t = namespace_of(imports);
    let path = split(imports[i], separator());
    split_is_not_empty(imports[i], separator());
    assert(path.subrange(0, path.len() as int) =~= path);
    assert(path.is_prefix_of(path));
    the_trie_holds_the_prefixes(imports, path);
    the_trie_is_consistent(imports);
    a_node_bears_its_path(t, path);
    join_undoes_split(imports[i], separator());
    if !is_continued(imports, imports[i]) {
        assert forall|k: Seq<char>| !#[trigger] t.at(path).children.contains_key(k) by {
            if t.at(path).children.contains_key(k) {
                let longer = path.push(k);
                lemma_child_path(t, path, k);
                the_trie_holds_the_prefixes(imports, longer);
                let j = choose|j: int|
                    0 <= j < imports.len() && longer.is_prefix_of(
                        split(#[trigger] imports[j], separator()),
                    );
                let other = split(imports[j], separator());
                assert(path =~= other.subrange(0, path.len() as int)) by {
                    assert(longer.subrange(0, path.len() as int) =~= path);
                    assert(longer == other.subrange(0, longer.len() as int));
                    assert(other.subrange(0, longer.len() as int).subrange(0, path.len() as int)
                        =~= other.subrange(0, path.len() as int));
                }
                assert(path.is_prefix_of(other));
                assert(imports[j] == imports[i]);
                assert(false);
            }
        }
    } else {
        let j = choose|j: int|
            0 <= j < imports.len() && #[trigger] imports[j] != imports[i] && path.is_prefix_of(
                split(imports[j], separator()),
            );
        let other = split(imports[j], separator());
        if path.len() == other.len() {
            assert(path =~= other);
            join_undoes_split(imports[j], separator());
        }
        let longer = other.subrange(0, path.len() as int + 1);
        assert(longer.is_prefix_of(other));
        the_trie_holds_the_prefixes(imports, longer);
        assert(longer =~= path.push(other[path.len() as int])) by {
            assert(path == other.subrange(0, path.len() as int));
        }
        lemma_longer_path(t, path, other[path.len() as int]);
    }
}

/// Every import that no other import continues is re-exported: the module
/// holds its line. Only the namespace `crate` itself has none.
pub proof fn every_import_is_reexported(imports: Seq<Seq<char>>, i: int)
    requires
        0 <= i < imports.len(),
        imports[i] != "crate"@,
        !is_continued(imports, imports[i]),
    ensures
        contains_text(namespace_of(imports).reexports_module(), use_line(imports[i])),
{
    let t = namespace_of(imports);
    let path = split(imports[i], separator());
    lemma_uncontinued_is_leaf(imports, i);
    lemma_trie_finite(imports);
    lemma_trie_named(imports);
    lemma_leaf_listed(t, path, 1, false);
    lemma_within("pub mod pax_reexports {\n"@, t.reexports(1), "\n}"@, use_line(imports[i]));
}

pub(crate) proof fn lemma_child_path(t: Namespace, path: Seq<Seq<char>>, segment: Seq<char>)
    requires
        t.has_path(path),
        t.at(path).children.contains_key(segment),
    ensures
        t.has_path(path.push(segment)),
    decreases path.len(),
{
    let longer = path.push(segment);
    if path.len() > 0 {
        assert(longer.drop_first() =~= path.drop_first().push(segment));
        lemma_child_path(t.children[path[0]], path.drop_first(), segment);
    } else {
        assert(longer.drop_first() =~= Seq::<Seq<char>>::empty());
        assert(t.at(path) == t);
        assert(t.children[segment].has_path(longer.drop_first()));
    }
}

} // verus!
