//! What holds of the generated re-exports, line by line.

use crate::layout::{
    closes, lemma_first_line, lemma_lines_of_rows, lemma_listing_rows_without, lemma_listing_text,
    lemma_unindented_row, line_of, lines, lines_of, names_are_made_of_imports, opened_by,
    unindented, unlines, use_of, Row,
};
use crate::namespace::{separator, Namespace};
use crate::order::lemma_an_order_exists;
use crate::reexports::{
    finite, is_continued, lemma_leaf_path, lemma_trie_finite, lemma_uncontinued_is_leaf,
    namespace_of, the_trie_is_consistent,
};
use crate::text::{
    contains_text, ends_with, first_at, join, join_undoes_split, lemma_earlier_occurrence,
    lemma_first_exists, lemma_join_concat, lemma_split_front, occurs_at, split,
    split_is_not_empty, text_le, text_order, text_order_is_total,
};
use vstd::prelude::*;
use vstd::relations::sorted_by;
use vstd::string::*;

verus! {

/// What the lines re-export, from the first to the last.
pub open spec fn uses(lines: Seq<Seq<char>>) -> Seq<Seq<char>>
    decreases lines.len(),
{
    if lines.len() == 0 {
        Seq::empty()
    } else {
        match use_of(lines.last()) {
            Some(path) => uses(lines.drop_last()).push(path),
            None => uses(lines.drop_last()),
        }
    }
}

/// Paths are ordered segment by segment; a proper prefix comes first.
pub open spec fn path_lt(p: Seq<Seq<char>>, q: Seq<Seq<char>>) -> bool
    decreases p.len(),
{
    if q.len() == 0 {
        false
    } else if p.len() == 0 {
        true
    } else if p[0] == q[0] {
        path_lt(p.drop_first(), q.drop_first())
    } else {
        text_le(p[0], q[0])
    }
}

/// The rows of the module, but for the blank line and the brace at its end.
pub open spec fn module_rows(t: Namespace) -> Seq<(nat, Row)> {
    seq![(0nat, Row::Open("pax_reexports"@, true))] + t.listing_rows(t.segments(), 1, false)
}

pub(crate) proof fn lemma_module_lines(t: Namespace)
    requires
        t.names_without('\n'),
    ensures
        lines(t.reexports_module()) == lines_of(module_rows(t)) + seq![Seq::<char>::empty(), "}"@],
{
    reveal_strlit("\n");
    reveal_strlit("\n}");
    reveal_strlit("}");
    reveal_strlit(" {");
    reveal_strlit("pub mod ");
    reveal_strlit("pax_reexports");
    reveal_strlit("pub mod pax_reexports {\n");
    let none = Seq::<char>::empty();
    let open = (0nat, Row::Open("pax_reexports"@, true));
    let rows = t.listing_rows(t.segments(), 1, false);
    lemma_listing_text(t, t.segments(), 1, false);
    lemma_listing_rows_without(t, t.segments(), 1, false, '\n');
    assert(lines("}"@) =~= seq!["}"@]) by {
        assert forall|j: int| !occurs_at("}"@, "\n"@, j) by {
            if occurs_at("}"@, "\n"@, j) {
                assert("}"@.subrange(j, j + 1)[0] == '\n');
            }
        }
    }
    lemma_first_line(none, "}"@);
    assert("\n}"@ =~= none + "\n"@ + "}"@);
    assert(lines("\n}"@) =~= seq![none, "}"@]);
    lemma_lines_of_rows(rows, "\n}"@);
    let header = line_of(open);
    assert(header =~= "pub mod "@ + "pax_reexports"@ + " {"@);
    assert("pub mod pax_reexports {\n"@ =~= header + "\n"@);
    assert(!header.contains('\n'));
    lemma_first_line(header, unlines(rows) + "\n}"@);
    assert(t.reexports_module() =~= header + "\n"@ + (unlines(rows) + "\n}"@));
    assert(lines_of(module_rows(t)) =~= seq![header] + lines_of(rows));
    assert(lines(t.reexports_module()) =~= lines_of(module_rows(t)) + seq![none, "}"@]);
}

pub(crate) proof fn lemma_row_is_read(row: (nat, Row))
    ensures
        use_of(line_of(row)) == (match row.1 {
            Row::Use(path) => Some(path),
            _ => None,
        }),
        closes(line_of(row)) <==> row.1 is Close,
        row.1.is_without(' ') ==> opened_by(line_of(row)) == (match row.1 {
            Row::Open(name, _) => Some(name),
            _ => None,
        }),
{
    reveal_strlit("pub mod ");
    reveal_strlit("pub use ");
    reveal_strlit(";");
    reveal_strlit(" ");
    reveal_strlit("{");
    reveal_strlit(" {");
    reveal_strlit("}");
    lemma_unindented_row(row);
    let u = row.1.text();
    let n = u.len() as int;
    match row.1 {
        Row::Open(name, spaced) => {
            assert(u[4] == 'm');
            assert(u.subrange(0, 8) =~= "pub mod "@);
            assert(u.subrange(n - 1, n) =~= "{"@);
            assert(!"pub use "@.is_prefix_of(u)) by {
                if "pub use "@.is_prefix_of(u) {
                    assert(u.subrange(0, 8)[4] == 'u');
                }
            }
            assert(!closes(line_of(row)));
            let inner = u.subrange(8, n - 1);
            if !name.contains(' ') {
                if spaced {
                    assert(inner =~= name + " "@);
                    assert(inner.subrange(inner.len() - 1, inner.len() as int) =~= " "@);
                    assert(inner.drop_last() =~= name);
                } else {
                    assert(inner =~= name);
                    if ends_with(name, " "@) {
                        assert(name.subrange(name.len() - 1, name.len() as int)[0] == ' ');
                        assert(name[name.len() - 1] == ' ');
                    }
                }
            }
        },
        Row::Use(path) => {
            assert(u.subrange(0, 8) =~= "pub use "@);
            assert(u.subrange(n - 1, n) =~= ";"@);
            assert(u.subrange(8, n - 1) =~= path);
            assert(!"pub mod "@.is_prefix_of(u)) by {
                if "pub mod "@.is_prefix_of(u) {
                    assert(u.subrange(0, 8)[4] == 'm');
                    assert(u[4] == 'u');
                }
            }
        },
        Row::Close => {},
    }
}

/// The paths to the leaves that are re-exported below a node, in the order of
/// the listing.
spec fn leaf_paths(t: Namespace, segments: Seq<Seq<char>>, in_crate: bool) -> Seq<Seq<Seq<char>>>
    decreases t, segments.len(),
{
    if segments.len() == 0 {
        Seq::empty()
    } else if t.children.contains_key(segments.last()) {
        leaf_paths(t, segments.drop_last(), in_crate) + below(
            segments.last(),
            entry_paths(t.children[segments.last()], in_crate),
        )
    } else {
        leaf_paths(t, segments.drop_last(), in_crate)
    }
}

/// The paths to the leaves that are re-exported for one child, from that child.
spec fn entry_paths(t: Namespace, in_crate: bool) -> Seq<Seq<Seq<char>>>
    decreases t, t.segments().len() + 1,
{
    if !in_crate && t.name.unwrap() == "crate"@ {
        leaf_paths(t, t.segments(), true)
    } else if t.is_leaf() {
        seq![Seq::empty()]
    } else {
        leaf_paths(t, t.segments(), false)
    }
}

/// The paths with one more segment at their front.
spec fn below(segment: Seq<char>, paths: Seq<Seq<Seq<char>>>) -> Seq<Seq<Seq<char>>> {
    paths.map_values(|p: Seq<Seq<char>>| seq![segment] + p)
}

/// The namespaces that the paths lead to.
spec fn names_at(t: Namespace, paths: Seq<Seq<Seq<char>>>) -> Seq<Seq<char>> {
    paths.map_values(|p: Seq<Seq<char>>| t.at(p).name.unwrap())
}

proof fn lemma_uses_concat(a: Seq<Seq<char>>, b: Seq<Seq<char>>)
    ensures
        uses(a + b) == uses(a) + uses(b),
    decreases b.len(),
{
    if b.len() == 0 {
        assert(a + b =~= a);
        assert(uses(a) + Seq::<Seq<char>>::empty() =~= uses(a));
    } else {
        lemma_uses_concat(a, b.drop_last());
        assert((a + b).drop_last() =~= a + b.drop_last());
        assert(uses(a + b) =~= uses(a) + uses(b));
    }
}

proof fn lemma_uses_of_one(row: (nat, Row))
    ensures
        uses(lines_of(seq![row])) == (match row.1 {
            Row::Use(path) => seq![path],
            _ => Seq::empty(),
        }),
{
    let one = lines_of(seq![row]);
    lemma_row_is_read(row);
    assert(one =~= seq![line_of(row)]);
    assert(one.drop_last() =~= Seq::<Seq<char>>::empty());
    assert(uses(one.drop_last()) =~= Seq::<Seq<char>>::empty());
    assert(one.last() == line_of(row));
    match row.1 {
        Row::Use(path) => {
            assert(uses(one) =~= seq![path]);
        },
        _ => {},
    }
}

proof fn lemma_listing_uses(
    t: Namespace,
    segments: Seq<Seq<char>>,
    indent: nat,
    in_crate: bool,
)
    ensures
        uses(lines_of(t.listing_rows(segments, indent, in_crate))) == names_at(
            t,
            leaf_paths(t, segments, in_crate),
        ),
    decreases t, segments.len(),
{
    let rows = t.listing_rows(segments, indent, in_crate);
    if segments.len() > 0 {
        let shorter = segments.drop_last();
        let k = segments.last();
        lemma_listing_uses(t, shorter, indent, in_crate);
        if t.children.contains_key(k) {
            let c = t.children[k];
            let entry = c.entry_rows(indent, in_crate);
            let before = t.listing_rows(shorter, indent, in_crate);
            lemma_entry_uses(c, indent, in_crate);
            lemma_uses_concat(lines_of(before), lines_of(entry));
            assert(lines_of(rows) =~= lines_of(before) + lines_of(entry));
            let paths = entry_paths(c, in_crate);
            assert(names_at(t, below(k, paths)) =~= names_at(c, paths)) by {
                assert forall|i: int| 0 <= i < paths.len() implies t.at(
                    #[trigger] below(k, paths)[i],
                ) == c.at(paths[i]) by {
                    assert((seq![k] + paths[i]).drop_first() =~= paths[i]);
                }
            }
            assert(names_at(t, leaf_paths(t, segments, in_crate)) =~= names_at(
                t,
                leaf_paths(t, shorter, in_crate),
            ) + names_at(t, below(k, paths)));
        }
    } else {
        assert(lines_of(rows) =~= Seq::<Seq<char>>::empty());
        assert(names_at(t, leaf_paths(t, segments, in_crate)) =~= Seq::<Seq<char>>::empty());
    }
}

proof fn lemma_entry_uses(t: Namespace, indent: nat, in_crate: bool)
    ensures
        uses(lines_of(t.entry_rows(indent, in_crate))) == names_at(t, entry_paths(t, in_crate)),
    decreases t, t.segments().len() + 1,
{
    let name = t.name.unwrap();
    let rows = t.entry_rows(indent, in_crate);
    if !in_crate && name == "crate"@ {
        lemma_listing_uses(t, t.segments(), indent, true);
    } else if t.is_leaf() {
        lemma_uses_of_one((indent, Row::Use(name)));
        assert(names_at(t, entry_paths(t, in_crate)) =~= seq![name]);
    } else {
        lemma_listing_uses(t, t.segments(), indent + 1, false);
        let open = (indent, Row::Open(split(name, separator()).last(), in_crate));
        let close = (indent, Row::Close);
        let inner = t.listing_rows(t.segments(), indent + 1, false);
        lemma_uses_of_one(open);
        lemma_uses_of_one(close);
        lemma_uses_concat(lines_of(seq![open]), lines_of(inner));
        lemma_uses_concat(lines_of(seq![open]) + lines_of(inner), lines_of(seq![close]));
        assert(lines_of(rows) =~= lines_of(seq![open]) + lines_of(inner) + lines_of(seq![close]));
        assert(uses(lines_of(rows)) =~= uses(lines_of(inner)));
    }
}

/// What the path leads to is re-exported.
spec fn is_listed(t: Namespace, path: Seq<Seq<char>>) -> bool {
    t.has_path(path) && t.at(path).is_leaf() && t.at(path).name != Some("crate"@)
}

proof fn lemma_below_contains(segment: Seq<char>, paths: Seq<Seq<Seq<char>>>, q: Seq<Seq<char>>)
    ensures
        below(segment, paths).contains(q) <==> q.len() > 0 && q[0] == segment && paths.contains(
            q.drop_first(),
        ),
{
    let long = below(segment, paths);
    if long.contains(q) {
        let i = choose|i: int| 0 <= i < long.len() && long[i] == q;
        assert(q == seq![segment] + paths[i]);
        assert(q.drop_first() =~= paths[i]);
    }
    if q.len() > 0 && q[0] == segment && paths.contains(q.drop_first()) {
        let i = choose|i: int| 0 <= i < paths.len() && paths[i] == q.drop_first();
        assert(long[i] =~= q);
    }
}

proof fn lemma_leaf_paths_are_listed(
    t: Namespace,
    segments: Seq<Seq<char>>,
    in_crate: bool,
    q: Seq<Seq<char>>,
)
    requires
        finite(t),
        t.consistent(),
        in_crate ==> t.name is Some,
    ensures
        leaf_paths(t, segments, in_crate).contains(q) <==> q.len() > 0 && segments.contains(q[0])
            && is_listed(t, q),
    decreases t, segments.len(),
{
    if segments.len() > 0 {
        let shorter = segments.drop_last();
        let k = segments.last();
        lemma_leaf_paths_are_listed(t, shorter, in_crate, q);
        assert(segments =~= shorter.push(k));
        assert(q.len() > 0 ==> (segments.contains(q[0]) <==> shorter.contains(q[0]) || q[0] == k))
            by {
            if q.len() > 0 {
                if shorter.contains(q[0]) {
                    let i = choose|i: int| 0 <= i < shorter.len() && shorter[i] == q[0];
                    assert(segments[i] == q[0]);
                }
                if q[0] == k {
                    assert(segments[segments.len() - 1] == q[0]);
                }
            }
        }
        if t.children.contains_key(k) {
            let c = t.children[k];
            let paths = entry_paths(c, in_crate);
            let before = leaf_paths(t, shorter, in_crate);
            assert(c.name == Some(t.child_name(k)));
            lemma_below_contains(k, paths, q);
            if q.len() > 0 && q[0] == k {
                lemma_deeper_names(t, k);
                lemma_entry_paths_are_listed(c, in_crate, q.drop_first());
            }
            let all = before + below(k, paths);
            assert(all.contains(q) <==> before.contains(q) || below(k, paths).contains(q)) by {
                if before.contains(q) {
                    let i = choose|i: int| 0 <= i < before.len() && before[i] == q;
                    assert(all[i] == q);
                }
                if below(k, paths).contains(q) {
                    let i = choose|i: int|
                        0 <= i < below(k, paths).len() && below(k, paths)[i] == q;
                    assert(all[before.len() + i] == q);
                }
            }
        }
    }
}

proof fn lemma_deeper_names(t: Namespace, segment: Seq<char>)
    ensures
        t.name is Some ==> t.child_name(segment) != "crate"@,
{
    reveal_strlit("::");
    reveal_strlit("crate");
    if t.name is Some {
        let name = t.child_name(segment);
        let n = t.name->0.len() as int;
        assert(name[n] == ':');
        if name == "crate"@ {
            assert(name.len() == n + separator().len() + segment.len());
            assert("crate"@.len() == 5);
            assert(n == 0 || n == 1 || n == 2 || n == 3);
        }
    }
}

proof fn lemma_entry_paths_are_listed(t: Namespace, in_crate: bool, q: Seq<Seq<char>>)
    requires
        finite(t),
        t.consistent(),
        t.name is Some,
        in_crate ==> t.name != Some("crate"@),
    ensures
        entry_paths(t, in_crate).contains(q) <==> is_listed(t, q),
    decreases t, t.segments().len() + 1,
{
    text_order_is_total();
    lemma_an_order_exists(t.children.dom(), text_order());
    let segments = t.segments();
    assert forall|k: Seq<char>| segments.contains(k) <==> #[trigger] t.children.contains_key(k) by {
        assert(segments.to_set().contains(k) <==> t.children.dom().contains(k));
    }
    if q.len() == 0 {
        assert(t.at(q) == t);
    } else if t.has_path(q) {
        assert(t.children.contains_key(q[0]));
    }
    if !in_crate && t.name.unwrap() == "crate"@ {
        lemma_leaf_paths_are_listed(t, segments, true, q);
    } else if t.is_leaf() {
        let one = seq![Seq::<Seq<char>>::empty()];
        if q.len() == 0 {
            assert(one[0] =~= q);
        }
    } else {
        lemma_leaf_paths_are_listed(t, segments, false, q);
    }
}

/// Each path comes before all that follow it.
spec fn paths_ascend(paths: Seq<Seq<Seq<char>>>) -> bool {
    forall|i: int, j: int|
        0 <= i < j < paths.len() ==> path_lt(#[trigger] paths[i], #[trigger] paths[j])
}

proof fn lemma_leaf_paths_ascend(t: Namespace, segments: Seq<Seq<char>>, in_crate: bool)
    requires
        finite(t),
        t.consistent(),
        in_crate ==> t.name is Some,
        segments.no_duplicates(),
        sorted_by(segments, text_order()),
    ensures
        paths_ascend(leaf_paths(t, segments, in_crate)),
    decreases t, segments.len(),
{
    if segments.len() > 0 {
        let shorter = segments.drop_last();
        let k = segments.last();
        let le = text_order();
        assert(shorter.no_duplicates());
        assert(sorted_by(shorter, le)) by {
            assert forall|i: int, j: int| 0 <= i < j < shorter.len() implies #[trigger] le(
                shorter[i],
                shorter[j],
            ) by {
                assert(le(segments[i], segments[j]));
            }
        }
        lemma_leaf_paths_ascend(t, shorter, in_crate);
        if t.children.contains_key(k) {
            let c = t.children[k];
            let before = leaf_paths(t, shorter, in_crate);
            let paths = entry_paths(c, in_crate);
            let long = below(k, paths);
            lemma_entry_paths_ascend(c, in_crate);
            let all = before + long;
            assert forall|i: int, j: int| 0 <= i < j < all.len() implies path_lt(
                #[trigger] all[i],
                #[trigger] all[j],
            ) by {
                if j < before.len() {
                    assert(path_lt(before[i], before[j]));
                } else {
                    let b = j - before.len();
                    assert(all[j] == seq![k] + paths[b]);
                    assert(all[j].drop_first() =~= paths[b]);
                    if i < before.len() {
                        let q = before[i];
                        assert(before.contains(q));
                        lemma_leaf_paths_are_listed(t, shorter, in_crate, q);
                        let m = choose|m: int| 0 <= m < shorter.len() && shorter[m] == q[0];
                        assert(segments[m] == q[0]);
                        assert(le(segments[m], segments[segments.len() - 1]));
                        assert(segments[m] != segments[segments.len() - 1]);
                    } else {
                        let a = i - before.len();
                        assert(all[i] == seq![k] + paths[a]);
                        assert(all[i].drop_first() =~= paths[a]);
                        assert(path_lt(paths[a], paths[b]));
                    }
                }
            }
        }
    }
}

proof fn lemma_entry_paths_ascend(t: Namespace, in_crate: bool)
    requires
        finite(t),
        t.consistent(),
        t.name is Some,
    ensures
        paths_ascend(entry_paths(t, in_crate)),
    decreases t, t.segments().len() + 1,
{
    text_order_is_total();
    lemma_an_order_exists(t.children.dom(), text_order());
    if !in_crate && t.name.unwrap() == "crate"@ {
        lemma_leaf_paths_ascend(t, t.segments(), true);
    } else if !t.is_leaf() {
        lemma_leaf_paths_ascend(t, t.segments(), false);
    }
}

proof fn lemma_module_uses(t: Namespace)
    requires
        t.names_without('\n'),
    ensures
        uses(lines(t.reexports_module())) == names_at(t, leaf_paths(t, t.segments(), false)),
{
    reveal_strlit("}");
    lemma_module_lines(t);
    let open = (0nat, Row::Open("pax_reexports"@, true));
    let rows = t.listing_rows(t.segments(), 1, false);
    let none = Seq::<char>::empty();
    let end = seq![none, "}"@];
    lemma_listing_uses(t, t.segments(), 1, false);
    lemma_uses_of_one(open);
    lemma_uses_concat(lines_of(seq![open]), lines_of(rows));
    lemma_uses_concat(lines_of(module_rows(t)), end);
    assert(lines_of(module_rows(t)) =~= lines_of(seq![open]) + lines_of(rows));
    assert(use_of(none) is None) by {
        reveal_strlit("pub use ");
    }
    assert(use_of("}"@) is None) by {
        reveal_strlit("pub use ");
        assert(unindented("}"@) == "}"@);
    }
    assert(end.drop_last() =~= seq![none]);
    assert(seq![none].drop_last() =~= Seq::<Seq<char>>::empty());
    assert(seq![none].last() == none);
    assert(uses(Seq::<Seq<char>>::empty()) =~= Seq::<Seq<char>>::empty());
    assert(uses(seq![none]) =~= Seq::<Seq<char>>::empty());
    assert(uses(end) =~= Seq::<Seq<char>>::empty());
    assert(uses(lines(t.reexports_module())) =~= uses(lines_of(rows)));
}

/// The lines that re-export something re-export the imports that no other
/// import continues, and nothing else but for `crate`, which has no line. They
/// stand in the order of the segments, and each import has one line.
pub proof fn the_use_lines_are_the_uncontinued_imports(imports: Seq<Seq<char>>)
    requires
        forall|i: int| 0 <= i < imports.len() ==> !(#[trigger] imports[i]).contains('\n'),
    ensures
        forall|p: Seq<char>| #[trigger]
            uses(lines(namespace_of(imports).reexports_module())).contains(p) <==> {
                &&& imports.contains(p)
                &&& p != "crate"@
                &&& !is_continued(imports, p)
            },
        uses(lines(namespace_of(imports).reexports_module())).no_duplicates(),
        forall|i: int, j: int|
            0 <= i < j < uses(lines(namespace_of(imports).reexports_module())).len() ==> path_lt(
                split(
                    #[trigger] uses(lines(namespace_of(imports).reexports_module()))[i],
                    separator(),
                ),
                split(
                    #[trigger] uses(lines(namespace_of(imports).reexports_module()))[j],
                    separator(),
                ),
            ),
{
    let t = namespace_of(imports);
    names_are_made_of_imports(imports, '\n');
    the_trie_is_consistent(imports);
    lemma_trie_finite(imports);
    lemma_module_uses(t);
    text_order_is_total();
    lemma_an_order_exists(t.children.dom(), text_order());
    lemma_leaf_paths_ascend(t, t.segments(), false);
    let paths = leaf_paths(t, t.segments(), false);
    let found = uses(lines(t.reexports_module()));
    assert forall|k: Seq<char>| t.segments().contains(k) <==> #[trigger] t.children.contains_key(
        k,
    ) by {
        assert(t.segments().to_set().contains(k) <==> t.children.dom().contains(k));
    }
    assert forall|i: int| 0 <= i < found.len() implies {
        &&& split(#[trigger] found[i], separator()) == paths[i]
        &&& imports.contains(found[i])
        &&& found[i] != "crate"@
        &&& !is_continued(imports, found[i])
    } by {
        let q = paths[i];
        assert(paths.contains(q));
        lemma_leaf_paths_are_listed(t, t.segments(), false, q);
        lemma_leaf_path(imports, q);
        let m = choose|m: int|
            0 <= m < imports.len() && q == split(#[trigger] imports[m], separator());
        lemma_uncontinued_is_leaf(imports, m);
        assert(found[i] == imports[m]);
    }
    assert forall|p: Seq<char>|
        imports.contains(p) && p != "crate"@ && !is_continued(imports, p) implies #[trigger]
        found.contains(p) by {
        let m = choose|m: int| 0 <= m < imports.len() && imports[m] == p;
        lemma_uncontinued_is_leaf(imports, m);
        let q = split(p, separator());
        lemma_leaf_paths_are_listed(t, t.segments(), false, q);
        assert(t.children.contains_key(q[0]));
        let i = choose|i: int| 0 <= i < paths.len() && paths[i] == q;
        assert(found[i] == p);
    }
    assert forall|i: int, j: int| 0 <= i < j < found.len() implies path_lt(
        split(#[trigger] found[i], separator()),
        split(#[trigger] found[j], separator()),
    ) by {
        assert(path_lt(paths[i], paths[j]));
    }
    assert forall|i: int, j: int|
        0 <= i < found.len() && 0 <= j < found.len() && i != j implies found[i] != found[j] by {
        lemma_path_lt_is_strict(paths[i]);
        if i < j {
            assert(path_lt(split(found[i], separator()), split(found[j], separator())));
        } else {
            assert(path_lt(split(found[j], separator()), split(found[i], separator())));
        }
    }
}

proof fn lemma_path_lt_is_strict(p: Seq<Seq<char>>)
    ensures
        !path_lt(p, p),
    decreases p.len(),
{
    if p.len() > 0 {
        lemma_path_lt_is_strict(p.drop_first());
    }
}

/// An import that does not end with a colon is continued by the imports that
/// have it and `::` at their front.
pub proof fn a_continued_import_is_followed_by_colons(imports: Seq<Seq<char>>, p: Seq<char>)
    requires
        p.len() > 0 ==> p.last() != ':',
    ensures
        is_continued(imports, p) <==> exists|j: int|
            0 <= j < imports.len() && (p + separator()).is_prefix_of(#[trigger] imports[j]),
{
    assert forall|q: Seq<char>|
        q != p && split(p, separator()).is_prefix_of(split(q, separator())) <==> #[trigger] (p
            + separator()).is_prefix_of(q) by {
        lemma_continued(p, q);
    }
    if is_continued(imports, p) {
        let j = choose|j: int|
            0 <= j < imports.len() && #[trigger] imports[j] != p && split(
                p,
                separator(),
            ).is_prefix_of(split(imports[j], separator()));
        assert((p + separator()).is_prefix_of(imports[j]));
    }
    if exists|j: int|
        0 <= j < imports.len() && (p + separator()).is_prefix_of(#[trigger] imports[j]) {
        let j = choose|j: int|
            0 <= j < imports.len() && (p + separator()).is_prefix_of(#[trigger] imports[j]);
        assert(imports[j] != p);
    }
}

proof fn lemma_continued(p: Seq<char>, q: Seq<char>)
    requires
        p.len() > 0 ==> p.last() != ':',
    ensures
        q != p && split(p, separator()).is_prefix_of(split(q, separator())) <==> (p
            + separator()).is_prefix_of(q),
{
    reveal_strlit("::");
    let sep = separator();
    let x = split(p, sep);
    let y = split(q, sep);
    split_is_not_empty(p, sep);
    join_undoes_split(p, sep);
    join_undoes_split(q, sep);
    if (p + sep).is_prefix_of(q) {
        let r = q.skip((p + sep).len() as int);
        assert(q =~= p + sep + r);
        lemma_split_concat(p, r);
        assert(x.is_prefix_of(x + split(r, sep)));
        assert(q.len() > p.len());
    }
    if q != p && x.is_prefix_of(y) {
        let z = y.skip(x.len() as int);
        assert(y =~= x + z);
        if z.len() == 0 {
            assert(y =~= x);
        } else {
            lemma_join_concat(x, z, sep);
            assert(q == p + sep + join(z, sep));
            assert(q.subrange(0, (p + sep).len() as int) =~= p + sep);
        }
    }
}

pub(crate) proof fn lemma_split_concat(p: Seq<char>, r: Seq<char>)
    requires
        p.len() > 0 ==> p.last() != ':',
    ensures
        split(p + separator() + r, separator()) == split(p, separator()) + split(r, separator()),
    decreases p.len(),
{
    reveal_strlit("::");
    let sep = separator();
    if contains_text(p, sep) {
        lemma_first_exists(p, sep, choose|j: int| occurs_at(p, sep, j));
        let k = choose|k: int| first_at(p, sep, k);
        let a = p.take(k);
        let rest = p.skip(k + 2);
        let whole = a + sep + (rest + sep + r);
        assert(p.subrange(k, k + 2) == sep);
        assert(p =~= a + sep + rest);
        assert(p + sep + r =~= whole);
        assert forall|j: int| 0 <= j < a.len() implies !occurs_at(whole, sep, j) by {
            if occurs_at(whole, sep, j) {
                lemma_earlier_occurrence(a, sep, rest + sep + r, rest, j);
            }
        }
        lemma_split_front(a, sep, rest + sep + r);
        lemma_split_concat(rest, r);
        assert(split(p, sep) == seq![a] + split(rest, sep));
        assert(seq![a] + (split(rest, sep) + split(r, sep)) =~= split(p, sep) + split(r, sep));
    } else {
        let whole = p + sep + r;
        assert forall|j: int| 0 <= j < p.len() implies !occurs_at(whole, sep, j) by {
            if occurs_at(whole, sep, j) {
                assert(whole.subrange(j, j + 2)[0] == ':');
                assert(whole[j] == p[j]);
                if j + 2 <= p.len() {
                    assert(p.subrange(j, j + 2) =~= whole.subrange(j, j + 2));
                    assert(occurs_at(p, sep, j));
                }
            }
        }
        lemma_split_front(p, sep, r);
    }
}

} // verus!
