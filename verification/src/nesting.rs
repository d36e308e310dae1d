//! Modules within modules: where each line of the generated re-exports stands.

use crate::layout::{
    closes, lemma_listing_rows_without, lines, lines_of, names_are_made_of_imports, opened_by,
    rows_without, unindented, use_of, Row,
};
use crate::layout_laws::{lemma_module_lines, lemma_row_is_read, module_rows};
use crate::namespace::{indentation, separator, Namespace};
use crate::namespace_laws::a_node_bears_its_path;
use crate::reexports::{
    lemma_child_path, namespace_of, the_trie_holds_the_prefixes, the_trie_is_consistent,
};
use crate::text::{
    contains_text, join, join_undoes_split, lemma_split_of_first_parts, lemma_split_without_char,
    occurs_at, repeated, split,
};
use vstd::prelude::*;
use vstd::string::*;

verus! {

/// The modules that are open before the `i`-th line, from the outermost to the
/// innermost; nothing if a line before closes a module while none is open.
pub open spec fn enclosing(lines: Seq<Seq<char>>, i: int) -> Option<Seq<Seq<char>>>
    decreases i,
{
    if i <= 0 {
        Some(Seq::empty())
    } else {
        match enclosing(lines, i - 1) {
            Some(open) => if closes(lines[i - 1]) {
                if open.len() > 0 {
                    Some(open.drop_last())
                } else {
                    None
                }
            } else {
                match opened_by(lines[i - 1]) {
                    Some(name) => Some(open.push(name)),
                    None => Some(open),
                }
            },
            None => None,
        }
    }
}

/// The path without a `crate` at its front.
pub open spec fn without_crate(path: Seq<Seq<char>>) -> Seq<Seq<char>> {
    if path.len() > 0 && path[0] == "crate"@ {
        path.drop_first()
    } else {
        path
    }
}

/// The modules that a namespace lies in: its segments but the last, and without
/// a `crate` at their front.
pub open spec fn modules_around(namespace: Seq<char>) -> Seq<Seq<char>> {
    without_crate(split(namespace, separator()).drop_last())
}

/// The modules that are open before the `i`-th row, if `open` are before the
/// first.
spec fn open_at(rows: Seq<(nat, Row)>, open: Seq<Seq<char>>, i: int) -> Option<Seq<Seq<char>>>
    decreases i,
{
    if i <= 0 {
        Some(open)
    } else {
        match open_at(rows, open, i - 1) {
            Some(now) => match rows[i - 1].1 {
                Row::Close => if now.len() > 0 {
                    Some(now.drop_last())
                } else {
                    None
                },
                Row::Open(name, _) => Some(now.push(name)),
                Row::Use(_) => Some(now),
            },
            None => None,
        }
    }
}

/// The rows close what they open, and what they re-export lies in its modules,
/// below `outer`.
spec fn well_placed(
    rows: Seq<(nat, Row)>,
    open: Seq<Seq<char>>,
    outer: Seq<Seq<char>>,
) -> bool {
    &&& open_at(rows, open, rows.len() as int) == Some(open)
    &&& forall|i: int|
        0 <= i < rows.len() ==> ((#[trigger] rows[i]).1 matches Row::Use(p) ==> open_at(
            rows,
            open,
            i,
        ) == Some(outer + modules_around(p)))
}

proof fn lemma_open_at_prefix(
    a: Seq<(nat, Row)>,
    b: Seq<(nat, Row)>,
    open: Seq<Seq<char>>,
    i: int,
)
    requires
        i <= a.len(),
    ensures
        open_at(a + b, open, i) == open_at(a, open, i),
    decreases i,
{
    if i > 0 {
        lemma_open_at_prefix(a, b, open, i - 1);
        assert((a + b)[i - 1] == a[i - 1]);
    }
}

proof fn lemma_open_at_suffix(
    a: Seq<(nat, Row)>,
    b: Seq<(nat, Row)>,
    open: Seq<Seq<char>>,
    between: Seq<Seq<char>>,
    i: int,
)
    requires
        open_at(a, open, a.len() as int) == Some(between),
        0 <= i <= b.len(),
    ensures
        open_at(a + b, open, a.len() + i) == open_at(b, between, i),
    decreases i,
{
    if i == 0 {
        lemma_open_at_prefix(a, b, open, a.len() as int);
    } else {
        lemma_open_at_suffix(a, b, open, between, i - 1);
        assert((a + b)[a.len() + i - 1] == b[i - 1]);
    }
}

proof fn lemma_well_placed_concat(
    a: Seq<(nat, Row)>,
    b: Seq<(nat, Row)>,
    open: Seq<Seq<char>>,
    outer: Seq<Seq<char>>,
)
    requires
        well_placed(a, open, outer),
        well_placed(b, open, outer),
    ensures
        well_placed(a + b, open, outer),
{
    let c = a + b;
    lemma_open_at_suffix(a, b, open, open, b.len() as int);
    assert forall|i: int| 0 <= i < c.len() implies ((#[trigger] c[i]).1 matches Row::Use(p)
        ==> open_at(c, open, i) == Some(outer + modules_around(p))) by {
        if i < a.len() {
            assert(c[i] == a[i]);
            lemma_open_at_prefix(a, b, open, i);
        } else {
            assert(c[i] == b[i - a.len()]);
            lemma_open_at_suffix(a, b, open, open, i - a.len());
        }
    }
}

proof fn lemma_well_placed_module(
    name: Seq<char>,
    spaced: bool,
    indent: nat,
    inner: Seq<(nat, Row)>,
    open: Seq<Seq<char>>,
    outer: Seq<Seq<char>>,
)
    requires
        well_placed(inner, open.push(name), outer),
    ensures
        well_placed(
            seq![(indent, Row::Open(name, spaced))] + inner + seq![(indent, Row::Close)],
            open,
            outer,
        ),
{
    let head = seq![(indent, Row::Open(name, spaced))];
    let tail = seq![(indent, Row::Close)];
    let long = head + inner;
    let rows = long + tail;
    let n = inner.len() as int;
    assert(open_at(head, open, 1) == Some(open.push(name))) by {
        assert(open_at(head, open, 0) == Some(open));
        assert(head[0].1 == Row::Open(name, spaced));
    }
    lemma_open_at_suffix(head, inner, open, open.push(name), n);
    assert(long.len() == n + 1);
    lemma_open_at_prefix(long, tail, open, n + 1);
    assert(rows[n + 1] == tail[0]);
    assert(open.push(name).drop_last() =~= open);
    assert(rows.len() == n + 2);
    assert(open_at(rows, open, n + 2) == Some(open));
    assert forall|i: int| 0 <= i < rows.len() implies ((#[trigger] rows[i]).1 matches Row::Use(p)
        ==> open_at(rows, open, i) == Some(outer + modules_around(p))) by {
        if 0 < i <= n {
            assert(rows[i] == inner[i - 1]);
            lemma_open_at_prefix(long, tail, open, i);
            lemma_open_at_suffix(head, inner, open, open.push(name), i - 1);
        } else if i == 0 {
            assert(rows[i] == head[0]);
        } else {
            assert(rows[i] == tail[0]);
        }
    }
}

/// Every node below bears a namespace whose segments lead to it, if those of
/// `path` lead to this node.
spec fn segmented(t: Namespace, path: Seq<Seq<char>>) -> bool
    decreases t,
{
    forall|k: Seq<char>| #[trigger]
        t.children.contains_key(k) ==> {
            &&& t.children[k].name is Some
            &&& split(t.children[k].name->0, separator()) == path.push(k)
            &&& segmented(t.children[k], path.push(k))
        }
}

proof fn lemma_trie_is_segmented(imports: Seq<Seq<char>>, path: Seq<Seq<char>>)
    requires
        namespace_of(imports).has_path(path),
    ensures
        segmented(namespace_of(imports).at(path), path),
    decreases namespace_of(imports).at(path),
{
    let t = namespace_of(imports);
    let here = t.at(path);
    reveal_strlit("::");
    assert forall|k: Seq<char>| #[trigger] here.children.contains_key(k) implies {
        &&& here.children[k].name is Some
        &&& split(here.children[k].name->0, separator()) == path.push(k)
        &&& segmented(here.children[k], path.push(k))
    } by {
        let longer = path.push(k);
        lemma_child_path(t, path, k);
        lemma_at_child(t, path, k);
        the_trie_is_consistent(imports);
        a_node_bears_its_path(t, longer);
        the_trie_holds_the_prefixes(imports, longer);
        let i = choose|i: int|
            0 <= i < imports.len() && longer.is_prefix_of(
                split(#[trigger] imports[i], separator()),
            );
        let whole = split(imports[i], separator());
        assert(whole.take(longer.len() as int) =~= longer);
        lemma_split_of_first_parts(imports[i], separator(), longer.len() as int);
        lemma_trie_is_segmented(imports, longer);
    }
}

proof fn lemma_at_child(t: Namespace, path: Seq<Seq<char>>, segment: Seq<char>)
    ensures
        t.at(path.push(segment)) == t.at(path).children[segment],
    decreases path.len(),
{
    let longer = path.push(segment);
    if path.len() > 0 {
        assert(longer.drop_first() =~= path.drop_first().push(segment));
        lemma_at_child(t.children[path[0]], path.drop_first(), segment);
    } else {
        assert(longer.drop_first() =~= Seq::<Seq<char>>::empty());
        assert(t.children[segment].at(longer.drop_first()) == t.children[segment]);
    }
}

proof fn lemma_listing_is_well_placed(
    t: Namespace,
    segments: Seq<Seq<char>>,
    indent: nat,
    in_crate: bool,
    path: Seq<Seq<char>>,
    outer: Seq<Seq<char>>,
)
    requires
        segmented(t, path),
        in_crate ==> path.len() > 0,
    ensures
        well_placed(
            t.listing_rows(segments, indent, in_crate),
            outer + without_crate(path),
            outer,
        ),
    decreases t, segments.len(),
{
    if segments.len() > 0 {
        let k = segments.last();
        lemma_listing_is_well_placed(t, segments.drop_last(), indent, in_crate, path, outer);
        if t.children.contains_key(k) {
            let c = t.children[k];
            lemma_entry_is_well_placed(c, indent, in_crate, path, k, outer);
            lemma_well_placed_concat(
                t.listing_rows(segments.drop_last(), indent, in_crate),
                c.entry_rows(indent, in_crate),
                outer + without_crate(path),
                outer,
            );
        }
    }
}

proof fn lemma_entry_is_well_placed(
    t: Namespace,
    indent: nat,
    in_crate: bool,
    parent: Seq<Seq<char>>,
    segment: Seq<char>,
    outer: Seq<Seq<char>>,
)
    requires
        t.name is Some,
        split(t.name->0, separator()) == parent.push(segment),
        segmented(t, parent.push(segment)),
        in_crate ==> parent.len() > 0,
    ensures
        well_placed(
            t.entry_rows(indent, in_crate),
            outer + without_crate(parent),
            outer,
        ),
    decreases t, t.segments().len() + 1,
{
    let name = t.name.unwrap();
    let path = parent.push(segment);
    let open = outer + without_crate(parent);
    assert(path.drop_last() =~= parent);
    assert(path.last() == segment);
    join_undoes_split(name, separator());
    lemma_crate_is_one_segment();
    if !in_crate && name == "crate"@ {
        assert(path.len() == 1);
        assert(path[0] == "crate"@);
        assert(without_crate(path) =~= without_crate(parent));
        lemma_listing_is_well_placed(t, t.segments(), indent, true, path, outer);
    } else if t.is_leaf() {
        let rows = seq![(indent, Row::Use(name))];
        assert(rows[0].1 == Row::Use(name));
        assert(open_at(rows, open, 0) == Some(open));
        assert(open_at(rows, open, 1) == Some(open));
        assert(modules_around(name) == without_crate(parent));
    } else {
        if parent.len() == 0 {
            assert(path =~= seq![segment]);
            assert(join(path, separator()) == segment);
            assert(segment != "crate"@);
            assert(without_crate(path) =~= without_crate(parent).push(segment));
        } else {
            assert(path[0] == parent[0]);
            assert(path.drop_first() =~= parent.drop_first().push(segment));
            assert(without_crate(path) =~= without_crate(parent).push(segment));
        }
        lemma_listing_is_well_placed(t, t.segments(), indent + 1, false, path, outer);
        assert(outer + without_crate(path) =~= open.push(segment));
        lemma_well_placed_module(
            segment,
            in_crate,
            indent,
            t.listing_rows(t.segments(), indent + 1, false),
            open,
            outer,
        );
    }
}

proof fn lemma_crate_is_one_segment()
    ensures
        split("crate"@, separator()) == seq!["crate"@],
{
    reveal_strlit("::");
    reveal_strlit("crate");
    assert forall|j: int| !occurs_at("crate"@, separator(), j) by {
        if occurs_at("crate"@, separator(), j) {
            assert("crate"@.subrange(j, j + 2)[0] == ':');
            assert(j == 0 || j == 1 || j == 2 || j == 3);
        }
    }
    assert(!contains_text("crate"@, separator()));
}

proof fn lemma_enclosing_is_open_at(
    lines: Seq<Seq<char>>,
    rows: Seq<(nat, Row)>,
    i: int,
)
    requires
        0 <= i <= rows.len() <= lines.len(),
        lines.take(rows.len() as int) == lines_of(rows),
        rows_without(rows, ' '),
    ensures
        enclosing(lines, i) == open_at(rows, Seq::empty(), i),
    decreases i,
{
    if i > 0 {
        lemma_enclosing_is_open_at(lines, rows, i - 1);
        lemma_row_is_read(rows[i - 1]);
        assert(lines[i - 1] == lines.take(rows.len() as int)[i - 1]);
        assert(rows[i - 1].1.is_without(' '));
    }
}

proof fn lemma_module_is_well_placed(imports: Seq<Seq<char>>)
    ensures
        ({
            let rows = module_rows(namespace_of(imports));
            let outer = seq!["pax_reexports"@];
            &&& open_at(rows, Seq::empty(), rows.len() as int) == Some(outer)
            &&& forall|i: int|
                0 <= i < rows.len() ==> ((#[trigger] rows[i]).1 matches Row::Use(p) ==> open_at(
                    rows,
                    Seq::empty(),
                    i,
                ) == Some(outer + modules_around(p)))
        }),
{
    let t = namespace_of(imports);
    let rows = module_rows(t);
    let inner = t.listing_rows(t.segments(), 1, false);
    let head = seq![(0nat, Row::Open("pax_reexports"@, true))];
    let outer = seq!["pax_reexports"@];
    let none = Seq::<Seq<char>>::empty();
    assert(t.at(none) == t);
    lemma_trie_is_segmented(imports, none);
    lemma_listing_is_well_placed(t, t.segments(), 1, false, none, outer);
    assert(outer + without_crate(none) =~= outer);
    assert(open_at(head, none, 1) == Some(outer)) by {
        assert(open_at(head, none, 0) == Some(none));
        assert(head[0].1 == Row::Open("pax_reexports"@, true));
        assert(none.push("pax_reexports"@) =~= outer);
    }
    lemma_open_at_suffix(head, inner, none, outer, inner.len() as int);
    assert forall|i: int| 0 <= i < rows.len() implies ((#[trigger] rows[i]).1 matches Row::Use(p)
        ==> open_at(rows, none, i) == Some(outer + modules_around(p))) by {
        if i > 0 {
            assert(rows[i] == inner[i - 1]);
            lemma_open_at_suffix(head, inner, none, outer, i - 1);
        }
    }
}

pub(crate) proof fn lemma_module_rows_have_no_space(t: Namespace)
    requires
        t.names_without(' '),
    ensures
        rows_without(module_rows(t), ' '),
{
    reveal_strlit("pax_reexports");
    assert(!"pax_reexports"@.contains(' '));
    lemma_listing_rows_without(t, t.segments(), 1, false, ' ');
    let rows = module_rows(t);
    assert forall|i: int| 0 <= i < rows.len() implies (#[trigger] rows[i]).1.is_without(' ') by {
        if i > 0 {
            assert(rows[i] == t.listing_rows(t.segments(), 1, false)[i - 1]);
        }
    }
}

/// Modules are closed as often as they are opened, and each line that
/// re-exports something stands inside the modules of its namespace, within
/// `pax_reexports`.
pub proof fn each_use_line_stands_in_its_modules(imports: Seq<Seq<char>>)
    requires
        forall|i: int|
            0 <= i < imports.len() ==> !(#[trigger] imports[i]).contains('\n')
                && !imports[i].contains(' '),
    ensures
        enclosing(
            lines(namespace_of(imports).reexports_module()),
            lines(namespace_of(imports).reexports_module()).len() as int,
        ) == Some(Seq::<Seq<char>>::empty()),
        forall|i: int|
            0 <= i < lines(namespace_of(imports).reexports_module()).len() ==> (use_of(
                #[trigger] lines(namespace_of(imports).reexports_module())[i],
            ) matches Some(p) ==> enclosing(lines(namespace_of(imports).reexports_module()), i)
                == Some(seq!["pax_reexports"@] + modules_around(p))),
{
    let t = namespace_of(imports);
    names_are_made_of_imports(imports, '\n');
    names_are_made_of_imports(imports, ' ');
    lemma_module_lines(t);
    lemma_module_rows_have_no_space(t);
    lemma_module_is_well_placed(imports);
    let all = lines(t.reexports_module());
    let rows = module_rows(t);
    let outer = seq!["pax_reexports"@];
    let n = rows.len() as int;
    assert(all.take(n) =~= lines_of(rows));
    lemma_enclosing_is_open_at(all, rows, n);
    lemma_end_of_module(all, n);
    assert forall|i: int| 0 <= i < all.len() implies (use_of(#[trigger] all[i]) matches Some(p)
        ==> enclosing(all, i) == Some(outer + modules_around(p))) by {
        if i < n {
            assert(all[i] == all.take(n)[i]);
            lemma_row_is_read(rows[i]);
            lemma_enclosing_is_open_at(all, rows, i);
        }
    }
}

proof fn lemma_end_of_module(all: Seq<Seq<char>>, n: int)
    requires
        0 <= n,
        all.len() == n + 2,
        all[n] == Seq::<char>::empty(),
        all[n + 1] == "}"@,
        enclosing(all, n) == Some(seq!["pax_reexports"@]),
    ensures
        enclosing(all, n + 2) == Some(Seq::<Seq<char>>::empty()),
        use_of(all[n]) is None,
        use_of(all[n + 1]) is None,
{
    reveal_strlit("}");
    reveal_strlit("pub mod ");
    reveal_strlit("pub use ");
    let outer = seq!["pax_reexports"@];
    assert(unindented("}"@) == "}"@);
    assert(unindented(Seq::<char>::empty()) == Seq::<char>::empty());
    assert(enclosing(all, n + 1) == Some(outer));
    assert(outer.drop_last() =~= Seq::<Seq<char>>::empty());
}

/// How many more braces a text opens than it closes.
pub open spec fn brace_depth(s: Seq<char>) -> int
    decreases s.len(),
{
    if s.len() == 0 {
        0
    } else {
        brace_depth(s.drop_last()) + (if s.last() == '{' {
            1int
        } else if s.last() == '}' {
            -1
        } else {
            0
        })
    }
}

/// Every brace that is opened is closed, and no other.
pub open spec fn braces_balance(s: Seq<char>) -> bool {
    &&& brace_depth(s) == 0
    &&& forall|n: int| 0 <= n <= s.len() ==> brace_depth(#[trigger] s.take(n)) >= 0
}

proof fn lemma_depth_adds(a: Seq<char>, b: Seq<char>)
    ensures
        brace_depth(a + b) == brace_depth(a) + brace_depth(b),
    decreases b.len(),
{
    if b.len() == 0 {
        assert(a + b =~= a);
    } else {
        assert((a + b).drop_last() =~= a + b.drop_last());
        lemma_depth_adds(a, b.drop_last());
    }
}

proof fn lemma_balance_concat(a: Seq<char>, b: Seq<char>)
    requires
        braces_balance(a),
        braces_balance(b),
    ensures
        braces_balance(a + b),
{
    lemma_depth_adds(a, b);
    assert forall|n: int| 0 <= n <= (a + b).len() implies brace_depth(#[trigger] (a + b).take(n))
        >= 0 by {
        if n <= a.len() {
            assert((a + b).take(n) =~= a.take(n));
        } else {
            assert((a + b).take(n) =~= a + b.take(n - a.len()));
            lemma_depth_adds(a, b.take(n - a.len()));
        }
    }
}

proof fn lemma_plain_balance(s: Seq<char>)
    requires
        !s.contains('{'),
        !s.contains('}'),
    ensures
        braces_balance(s),
    decreases s.len(),
{
    if s.len() > 0 {
        let shorter = s.drop_last();
        assert(s[s.len() - 1] == s.last());
        assert(!shorter.contains('{')) by {
            if shorter.contains('{') {
                let i = choose|i: int| 0 <= i < shorter.len() && shorter[i] == '{';
                assert(s[i] == '{');
            }
        }
        assert(!shorter.contains('}')) by {
            if shorter.contains('}') {
                let i = choose|i: int| 0 <= i < shorter.len() && shorter[i] == '}';
                assert(s[i] == '}');
            }
        }
        lemma_plain_balance(shorter);
        assert forall|n: int| 0 <= n <= s.len() implies brace_depth(#[trigger] s.take(n)) >= 0 by {
            if n < s.len() {
                assert(s.take(n) =~= shorter.take(n));
            } else {
                assert(s.take(n) =~= s);
            }
        }
    } else {
        assert forall|n: int| 0 <= n <= s.len() implies brace_depth(#[trigger] s.take(n)) >= 0 by {
            assert(s.take(n) =~= s);
        }
    }
}

proof fn lemma_balance_braced(s: Seq<char>)
    requires
        braces_balance(s),
    ensures
        braces_balance(seq!['{'] + s + seq!['}']),
{
    let open = seq!['{'];
    let close = seq!['}'];
    let whole = open + s + close;
    assert(open.drop_last() =~= Seq::<char>::empty());
    assert(close.drop_last() =~= Seq::<char>::empty());
    assert(brace_depth(Seq::<char>::empty()) == 0);
    assert(open.last() == '{' && close.last() == '}');
    assert(brace_depth(open) == 1);
    assert(brace_depth(close) == -1);
    lemma_depth_adds(open, s);
    lemma_depth_adds(open + s, close);
    assert forall|n: int| 0 <= n <= whole.len() implies brace_depth(#[trigger] whole.take(n))
        >= 0 by {
        if n == 0 {
            assert(whole.take(n) =~= Seq::<char>::empty());
        } else if n <= s.len() + 1 {
            assert(whole.take(n) =~= open + s.take(n - 1));
            lemma_depth_adds(open, s.take(n - 1));
        } else {
            assert(whole.take(n) =~= whole);
        }
    }
}

proof fn lemma_margin_balances(n: nat)
    ensures
        braces_balance(repeated(indentation(), n)),
    decreases n,
{
    reveal_strlit("    ");
    if n > 0 {
        lemma_margin_balances((n - 1) as nat);
        lemma_plain_balance(indentation());
        lemma_balance_concat(repeated(indentation(), (n - 1) as nat), indentation());
    } else {
        lemma_plain_balance(repeated(indentation(), n));
    }
}

proof fn lemma_listing_balances(
    t: Namespace,
    segments: Seq<Seq<char>>,
    indent: nat,
    in_crate: bool,
)
    requires
        t.names_without('{'),
        t.names_without('}'),
    ensures
        braces_balance(t.listing(segments, indent, in_crate)),
    decreases t, segments.len(),
{
    if segments.len() == 0 {
        lemma_plain_balance(t.listing(segments, indent, in_crate));
    } else {
        lemma_listing_balances(t, segments.drop_last(), indent, in_crate);
        if t.children.contains_key(segments.last()) {
            let c = t.children[segments.last()];
            lemma_entry_balances(c, indent, in_crate);
            lemma_balance_concat(
                t.listing(segments.drop_last(), indent, in_crate),
                c.entry(indent, in_crate),
            );
        }
    }
}

proof fn lemma_entry_balances(t: Namespace, indent: nat, in_crate: bool)
    requires
        t.names_without('{'),
        t.names_without('}'),
        t.name is Some,
        !t.name->0.contains('{'),
        !t.name->0.contains('}'),
    ensures
        braces_balance(t.entry(indent, in_crate)),
    decreases t, t.segments().len() + 1,
{
    reveal_strlit("pub use ");
    reveal_strlit("pub mod ");
    reveal_strlit(";\n");
    reveal_strlit("{\n");
    reveal_strlit(" {\n");
    reveal_strlit("}\n");
    let name = t.name.unwrap();
    let margin = repeated(indentation(), indent);
    lemma_margin_balances(indent);
    if !in_crate && name == "crate"@ {
        lemma_listing_balances(t, t.segments(), indent, true);
    } else if t.is_leaf() {
        lemma_plain_balance("pub use "@);
        lemma_plain_balance(name);
        lemma_plain_balance(";\n"@);
        lemma_balance_concat(margin, "pub use "@);
        lemma_balance_concat(margin + "pub use "@, name);
        lemma_balance_concat(margin + "pub use "@ + name, ";\n"@);
    } else {
        let parts = split(name, separator());
        let segment = parts.last();
        lemma_split_without_char(name, separator(), '{', parts.len() - 1);
        lemma_split_without_char(name, separator(), '}', parts.len() - 1);
        let inner = t.listing(t.segments(), indent + 1, false);
        lemma_listing_balances(t, t.segments(), indent + 1, false);
        let gap: Seq<char> = if in_crate {
            seq![' ']
        } else {
            Seq::empty()
        };
        let newline = seq!['\n'];
        lemma_plain_balance("pub mod "@);
        lemma_plain_balance(segment);
        lemma_plain_balance(gap);
        lemma_plain_balance(newline);
        let before = margin + "pub mod "@ + segment + gap;
        lemma_balance_concat(margin, "pub mod "@);
        lemma_balance_concat(margin + "pub mod "@, segment);
        lemma_balance_concat(margin + "pub mod "@ + segment, gap);
        lemma_balance_concat(newline, inner);
        lemma_balance_concat(newline + inner, margin);
        let braced = seq!['{'] + (newline + inner + margin) + seq!['}'];
        lemma_balance_braced(newline + inner + margin);
        lemma_balance_concat(before, braced);
        lemma_balance_concat(before + braced, newline);
        assert(t.entry(indent, in_crate) =~= before + braced + newline);
    }
}

/// The braces of the re-exports of namespaces without braces balance.
pub proof fn braces_of_reexports_balance(imports: Seq<Seq<char>>)
    requires
        forall|i: int|
            0 <= i < imports.len() ==> !(#[trigger] imports[i]).contains('{')
                && !imports[i].contains('}'),
    ensures
        braces_balance(namespace_of(imports).reexports_module()),
{
    reveal_strlit("pub mod pax_reexports {\n");
    reveal_strlit("\n}");
    let t = namespace_of(imports);
    names_are_made_of_imports(imports, '{');
    names_are_made_of_imports(imports, '}');
    lemma_listing_balances(t, t.segments(), 1, false);
    let header = "pub mod pax_reexports {\n"@;
    let before = header.take(22);
    let newline = seq!['\n'];
    assert(header.len() == 24);
    assert(header =~= before + seq!['{'] + newline);
    assert(!before.contains('{'));
    assert(!before.contains('}'));
    lemma_plain_balance(before);
    lemma_plain_balance(newline);
    lemma_balance_concat(newline, t.reexports(1));
    lemma_balance_concat(newline + t.reexports(1), newline);
    lemma_balance_braced(newline + t.reexports(1) + newline);
    let braced = seq!['{'] + (newline + t.reexports(1) + newline) + seq!['}'];
    lemma_balance_concat(before, braced);
    assert(t.reexports_module() =~= before + braced);
}

} // verus!
