//! What the generated module re-exports, and how the trie behind it grows.

use crate::layout::{lines, use_of};
use crate::layout_laws::{path_lt, the_use_lines_are_the_uncontinued_imports, uses};
use crate::namespace::{Namespace, NamespaceTrieNode};
use crate::namespace_laws::{
    adding_a_path_adds_its_prefixes, adding_a_path_keeps_names_consistent,
};
use crate::nesting::{
    braces_balance, braces_of_reexports_balance, each_use_line_stands_in_its_modules, enclosing,
    modules_around,
};
use crate::reexports::{
    bundle_reexports_into_namespace_string, every_import_is_reexported,
    generate_reexports_partial_rs, is_continued, namespace_of,
    order_and_repetition_of_imports_do_not_matter,
};
use crate::text::{contains_text, split, texts};
use vstd::prelude::*;
use vstd::string::*;

verus! {

/// The path is among the imports.
pub open spec fn is_imported(imports: Seq<String>, path: Seq<char>) -> bool {
    exists|i: int| 0 <= i < imports.len() && (#[trigger] imports[i])@ == path
}

/// Another import lies below the path.
pub open spec fn is_gone_beyond(imports: Seq<String>, path: Seq<char>) -> bool {
    exists|i: int|
        0 <= i < imports.len() && (#[trigger] imports[i])@ != path && split(
            path,
            "::"@,
        ).is_prefix_of(split(imports[i]@, "::"@))
}

/// The imports hold none of these characters.
pub open spec fn are_without(imports: Seq<String>, c: char) -> bool {
    forall|i: int| 0 <= i < imports.len() ==> !(#[trigger] imports[i])@.contains(c)
}

/// The text re-exports the imports that no other import goes beyond, each in one
/// line and in the order of their segments, and nothing else.
pub open spec fn reexports_imports(imports: Seq<String>, text: Seq<char>) -> bool {
    let list = uses(lines(text));
    &&& forall|p: Seq<char>| #[trigger]
        list.contains(p) <==> is_imported(imports, p) && p != "crate"@ && !is_gone_beyond(
            imports,
            p,
        )
    &&& list.no_duplicates()
    &&& forall|i: int, j: int|
        0 <= i < j < list.len() ==> path_lt(
            split(#[trigger] list[i], "::"@),
            split(#[trigger] list[j], "::"@),
        )
}

/// Each line that re-exports something stands in the modules of its path, within
/// `pax_reexports`, and all modules are closed at the end.
pub open spec fn places_imports(text: Seq<char>) -> bool {
    let all = lines(text);
    &&& enclosing(all, all.len() as int) == Some(Seq::<Seq<char>>::empty())
    &&& forall|i: int|
        0 <= i < all.len() ==> (use_of(#[trigger] all[i]) matches Some(p) ==> enclosing(all, i)
            == Some(seq!["pax_reexports"@] + modules_around(p)))
}

proof fn lemma_imported(imports: Seq<String>, p: Seq<char>)
    ensures
        texts(imports).contains(p) <==> is_imported(imports, p),
        is_continued(texts(imports), p) <==> is_gone_beyond(imports, p),
{
    let all = texts(imports);
    if all.contains(p) {
        let i = choose|i: int| 0 <= i < all.len() && all[i] == p;
        assert(imports[i]@ == p);
    }
    if is_imported(imports, p) {
        let i = choose|i: int| 0 <= i < imports.len() && (#[trigger] imports[i])@ == p;
        assert(all[i] == p);
    }
    if is_continued(all, p) {
        let i = choose|i: int|
            0 <= i < all.len() && #[trigger] all[i] != p && split(p, "::"@).is_prefix_of(
                split(all[i], "::"@),
            );
        assert(imports[i]@ == all[i]);
    }
    if is_gone_beyond(imports, p) {
        let i = choose|i: int|
            0 <= i < imports.len() && (#[trigger] imports[i])@ != p && split(
                p,
                "::"@,
            ).is_prefix_of(split(imports[i]@, "::"@));
        assert(imports[i]@ == all[i]);
    }
}

proof fn lemma_module_of_imports(imports: Seq<String>, text: Seq<char>)
    requires
        text == namespace_of(texts(imports)).reexports_module(),
    ensures
        are_without(imports, '\n') ==> reexports_imports(imports, text),
        are_without(imports, '\n') && are_without(imports, ' ') ==> places_imports(text),
        are_without(imports, '{') && are_without(imports, '}') ==> braces_balance(text),
        forall|i: int|
            0 <= i < imports.len() && imports[i]@ != "crate"@ && !is_gone_beyond(
                imports,
                (#[trigger] imports[i])@,
            ) ==> contains_text(text, "pub use "@ + imports[i]@ + ";\n"@),
{
    let all = texts(imports);
    assert(all.len() == imports.len());
    assert forall|c: char| #[trigger] are_without(imports, c) implies forall|i: int|
        0 <= i < all.len() ==> !(#[trigger] all[i]).contains(c) by {
        assert forall|i: int| 0 <= i < all.len() implies !(#[trigger] all[i]).contains(c) by {
            assert(all[i] == imports[i]@);
        }
    }
    if are_without(imports, '\n') {
        the_use_lines_are_the_uncontinued_imports(all);
        assert forall|p: Seq<char>| #[trigger]
            uses(lines(text)).contains(p) <==> is_imported(imports, p) && p != "crate"@
                && !is_gone_beyond(imports, p) by {
            lemma_imported(imports, p);
        }
    }
    if are_without(imports, '\n') && are_without(imports, ' ') {
        each_use_line_stands_in_its_modules(all);
    }
    if are_without(imports, '{') && are_without(imports, '}') {
        braces_of_reexports_balance(all);
    }
    assert forall|i: int|
        0 <= i < imports.len() && imports[i]@ != "crate"@ && !is_gone_beyond(
            imports,
            (#[trigger] imports[i])@,
        ) implies contains_text(text, "pub use "@ + imports[i]@ + ";\n"@) by {
        lemma_imported(imports, imports[i]@);
        assert(all[i] == imports[i]@);
        every_import_is_reexported(all, i);
    }
}

/// The generated file re-exports what the application imports.
pub proof fn the_generated_file_reexports_the_imports(imports: Vec<String>, r: String)
    requires
        call_ensures(generate_reexports_partial_rs, (imports,), r),
    ensures
        are_without(imports@, '\n') ==> reexports_imports(imports@, r@),
        are_without(imports@, '\n') && are_without(imports@, ' ') ==> places_imports(r@),
        are_without(imports@, '{') && are_without(imports@, '}') ==> braces_balance(r@),
        forall|i: int|
            0 <= i < imports@.len() && imports@[i]@ != "crate"@ && !is_gone_beyond(
                imports@,
                (#[trigger] imports@[i])@,
            ) ==> contains_text(r@, "pub use "@ + imports@[i]@ + ";\n"@),
{
    lemma_module_of_imports(imports@, r@);
}

/// So does the module of a list of namespaces.
pub proof fn the_bundled_module_reexports_the_namespaces(namespaces: &Vec<String>, r: String)
    requires
        call_ensures(bundle_reexports_into_namespace_string, (namespaces,), r),
    ensures
        are_without(namespaces@, '\n') ==> reexports_imports(namespaces@, r@),
        are_without(namespaces@, '\n') && are_without(namespaces@, ' ') ==> places_imports(r@),
        are_without(namespaces@, '{') && are_without(namespaces@, '}') ==> braces_balance(r@),
        forall|i: int|
            0 <= i < namespaces@.len() && namespaces@[i]@ != "crate"@ && !is_gone_beyond(
                namespaces@,
                (#[trigger] namespaces@[i])@,
            ) ==> contains_text(r@, "pub use "@ + namespaces@[i]@ + ";\n"@),
{
    lemma_module_of_imports(namespaces@, r@);
}

/// Two lists with the same imports give the same file, however they are ordered
/// and however often each import is named.
pub proof fn the_same_imports_make_the_same_file(
    a: Vec<String>,
    b: Vec<String>,
    x: String,
    y: String,
)
    requires
        forall|p: Seq<char>| #[trigger] is_imported(a@, p) <==> is_imported(b@, p),
        call_ensures(generate_reexports_partial_rs, (a,), x),
        call_ensures(generate_reexports_partial_rs, (b,), y),
    ensures
        x@ == y@,
{
    assert forall|p: Seq<char>| #[trigger]
        texts(a@).to_set().contains(p) <==> texts(b@).to_set().contains(p) by {
        lemma_imported(a@, p);
        lemma_imported(b@, p);
        assert(is_imported(a@, p) <==> is_imported(b@, p));
    }
    assert(texts(a@).to_set() =~= texts(b@).to_set());
    order_and_repetition_of_imports_do_not_matter(texts(a@), texts(b@));
}

/// The module is the items of the trie, one level deep, between the line that
/// opens `pax_reexports` and the brace that closes it.
pub proof fn the_module_is_around_its_items(node: &NamespaceTrieNode, items: String, r: String)
    requires
        call_ensures(NamespaceTrieNode::recurse_serialize_to_reexports, (node, 1usize), items),
        call_ensures(NamespaceTrieNode::serialize_to_reexports, (node,), r),
    ensures
        r@ == "pub mod pax_reexports {\n"@ + items@ + "\n}"@,
{
}

/// A segment leads to the child that was there, or to a new one that bears its
/// namespace and has no children. What becomes of the child becomes of the node;
/// its other children stay.
pub proof fn a_segment_leads_to_its_child(
    node: &mut NamespaceTrieNode,
    segment: &str,
    child: &mut NamespaceTrieNode,
)
    requires
        call_ensures(NamespaceTrieNode::get_or_create_child, (node, segment), child),
    ensures
        old(node)@.children.contains_key(segment@) ==> old(child)@
            == old(node)@.children[segment@],
        !old(node)@.children.contains_key(segment@) ==> {
            &&& old(child)@.children == Map::<Seq<char>, Namespace>::empty()
            &&& old(child)@.name is Some
            &&& old(node)@.name matches Some(name) ==> old(child)@.name->0 == name + "::"@
                + segment@
            &&& old(node)@.name is None ==> old(child)@.name->0 == segment@
        },
        final(node)@.name == old(node)@.name,
        final(node)@.children == old(node)@.children.insert(segment@, final(child)@),
        final(child).wf() ==> final(node).wf(),
{
}

/// After a namespace is added, its segments lead through the trie, and otherwise
/// only what did so before; the nodes keep bearing the namespaces that lead to
/// them.
pub proof fn an_added_namespace_can_be_followed(
    node: &mut NamespaceTrieNode,
    namespace: &str,
    q: Seq<Seq<char>>,
)
    requires
        call_ensures(NamespaceTrieNode::insert, (node, namespace), ()),
    ensures
        final(node).wf(),
        final(node)@.name == old(node)@.name,
        final(node)@.has_path(q) <==> old(node)@.has_path(q) || q.is_prefix_of(
            split(namespace@, "::"@),
        ),
        old(node)@.consistent() ==> final(node)@.consistent(),
{
    let path = split(namespace@, "::"@);
    adding_a_path_adds_its_prefixes(old(node)@, path, q);
    if old(node)@.consistent() {
        adding_a_path_keeps_names_consistent(old(node)@, path);
    }
}

} // verus!
