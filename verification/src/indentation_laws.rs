//! How the lines of the generated re-exports are indented.

use crate::layout::{
    closes, lemma_lines_of_rows, lemma_listing_rows_without, lemma_listing_text,
    lemma_unindented_row, line_of, lines, lines_of, names_are_made_of_imports, opened_by,
    rows_without, unindented, unlines, use_of, Row,
};
use crate::layout_laws::{lemma_module_lines, lemma_row_is_read, module_rows};
use crate::namespace::{Namespace, NamespaceTrieNode};
use crate::nesting::{enclosing, lemma_module_rows_have_no_space};
use crate::reexport_laws::are_without;
use crate::reexports::{generate_reexports_partial_rs, namespace_of};
use crate::text::{contains_text, lemma_repeated_adds, repeated, texts};
use vstd::prelude::*;
use vstd::string::*;

verus! {

/// How much deeper the next row stands.
spec fn step(row: Row) -> int {
    match row {
        Row::Open(_, _) => 1,
        Row::Close => -1,
        Row::Use(_) => 0,
    }
}

/// How many modules are open before the `i`-th row, if `depth` are before the
/// first.
spec fn depth_at(rows: Seq<(nat, Row)>, depth: int, i: int) -> int
    decreases i,
{
    if i <= 0 {
        depth
    } else {
        depth_at(rows, depth, i - 1) + step(rows[i - 1].1)
    }
}

/// Each row is indented by one level for each module that is open; a row that
/// closes a module stands below the one that opened it.
spec fn well_indented(rows: Seq<(nat, Row)>, depth: int) -> bool {
    forall|i: int|
        0 <= i < rows.len() ==> (#[trigger] rows[i]).0 == depth_at(rows, depth, i) - (
        if rows[i].1 is Close {
            1int
        } else {
            0
        })
}

proof fn lemma_depth_prefix(a: Seq<(nat, Row)>, b: Seq<(nat, Row)>, depth: int, i: int)
    requires
        i <= a.len(),
    ensures
        depth_at(a + b, depth, i) == depth_at(a, depth, i),
    decreases i,
{
    if i > 0 {
        lemma_depth_prefix(a, b, depth, i - 1);
        assert((a + b)[i - 1] == a[i - 1]);
    }
}

proof fn lemma_depth_suffix(a: Seq<(nat, Row)>, b: Seq<(nat, Row)>, depth: int, i: int)
    requires
        0 <= i <= b.len(),
    ensures
        depth_at(a + b, depth, a.len() + i) == depth_at(
            b,
            depth_at(a, depth, a.len() as int),
            i,
        ),
    decreases i,
{
    if i == 0 {
        lemma_depth_prefix(a, b, depth, a.len() as int);
    } else {
        lemma_depth_suffix(a, b, depth, i - 1);
        assert((a + b)[a.len() + i - 1] == b[i - 1]);
    }
}

proof fn lemma_indented_concat(a: Seq<(nat, Row)>, b: Seq<(nat, Row)>, depth: int)
    requires
        well_indented(a, depth),
        well_indented(b, depth_at(a, depth, a.len() as int)),
    ensures
        well_indented(a + b, depth),
        depth_at(a + b, depth, (a + b).len() as int) == depth_at(
            b,
            depth_at(a, depth, a.len() as int),
            b.len() as int,
        ),
{
    let c = a + b;
    lemma_depth_suffix(a, b, depth, b.len() as int);
    assert forall|i: int| 0 <= i < c.len() implies (#[trigger] c[i]).0 == depth_at(c, depth, i) - (
    if c[i].1 is Close {
        1int
    } else {
        0
    }) by {
        if i < a.len() {
            assert(c[i] == a[i]);
            lemma_depth_prefix(a, b, depth, i);
        } else {
            assert(c[i] == b[i - a.len()]);
            lemma_depth_suffix(a, b, depth, i - a.len());
        }
    }
}

proof fn lemma_one_row(row: (nat, Row), depth: int)
    ensures
        depth_at(seq![row], depth, 1) == depth + step(row.1),
        well_indented(seq![row], depth) <==> row.0 == depth - (if row.1 is Close {
            1int
        } else {
            0
        }),
{
    let rows = seq![row];
    assert(rows[0] == row);
    assert(depth_at(rows, depth, 0) == depth);
}

proof fn lemma_listing_indented(
    t: Namespace,
    segments: Seq<Seq<char>>,
    indent: nat,
    in_crate: bool,
)
    ensures
        ({
            let rows = t.listing_rows(segments, indent, in_crate);
            &&& well_indented(rows, indent as int)
            &&& depth_at(rows, indent as int, rows.len() as int) == indent
        }),
    decreases t, segments.len(),
{
    if segments.len() > 0 {
        let shorter = segments.drop_last();
        lemma_listing_indented(t, shorter, indent, in_crate);
        if t.children.contains_key(segments.last()) {
            let child = t.children[segments.last()];
            lemma_entry_indented(child, indent, in_crate);
            lemma_indented_concat(
                t.listing_rows(shorter, indent, in_crate),
                child.entry_rows(indent, in_crate),
                indent as int,
            );
        }
    }
}

proof fn lemma_entry_indented(t: Namespace, indent: nat, in_crate: bool)
    ensures
        ({
            let rows = t.entry_rows(indent, in_crate);
            &&& well_indented(rows, indent as int)
            &&& depth_at(rows, indent as int, rows.len() as int) == indent
        }),
    decreases t, t.segments().len() + 1,
{
    let name = t.name.unwrap();
    let depth = indent as int;
    if !in_crate && name == "crate"@ {
        lemma_listing_indented(t, t.segments(), indent, true);
    } else if t.is_leaf() {
        lemma_one_row((indent, Row::Use(name)), depth);
    } else {
        let open = t.entry_rows(indent, in_crate)[0];
        let inner = t.listing_rows(t.segments(), indent + 1, false);
        let close = (indent, Row::Close);
        lemma_listing_indented(t, t.segments(), indent + 1, false);
        lemma_one_row(open, depth);
        lemma_indented_concat(seq![open], inner, depth);
        lemma_one_row(close, depth + 1);
        lemma_indented_concat(seq![open] + inner, seq![close], depth);
        assert(t.entry_rows(indent, in_crate) =~= seq![open] + inner + seq![close]);
    }
}

proof fn lemma_module_indented(t: Namespace)
    ensures
        well_indented(module_rows(t), 0),
        depth_at(module_rows(t), 0, module_rows(t).len() as int) == 1,
{
    let open = (0nat, Row::Open("pax_reexports"@, true));
    let inner = t.listing_rows(t.segments(), 1, false);
    lemma_listing_indented(t, t.segments(), 1, false);
    lemma_one_row(open, 0);
    lemma_indented_concat(seq![open], inner, 0);
}

proof fn lemma_enclosing_depth(all: Seq<Seq<char>>, rows: Seq<(nat, Row)>, i: int)
    requires
        0 <= i <= rows.len() <= all.len(),
        all.take(rows.len() as int) == lines_of(rows),
        rows_without(rows, ' '),
        well_indented(rows, 0),
    ensures
        enclosing(all, i) is Some,
        enclosing(all, i)->0.len() == depth_at(rows, 0, i),
    decreases i,
{
    if i > 0 {
        lemma_enclosing_depth(all, rows, i - 1);
        let row = rows[i - 1];
        lemma_row_is_read(row);
        assert(all[i - 1] == all.take(rows.len() as int)[i - 1]);
        assert(row.1.is_without(' '));
        assert(row.0 >= 0);
    }
}

/// How far the line is to be indented: by one level for each module around it; a
/// line that closes a module stands outside of it.
pub open spec fn level_of(all: Seq<Seq<char>>, i: int) -> int {
    enclosing(all, i)->0.len() - (if closes(all[i]) {
        1int
    } else {
        0
    })
}

/// The line opens a module, closes one or re-exports something, and is indented by
/// four spaces for each module around it.
pub open spec fn is_line_laid_out(all: Seq<Seq<char>>, i: int) -> bool {
    &&& opened_by(all[i]) is Some || closes(all[i]) || use_of(all[i]) is Some
    &&& enclosing(all, i) is Some
    &&& level_of(all, i) >= 0
    &&& all[i] == repeated("    "@, level_of(all, i) as nat) + unindented(all[i])
}

/// All lines are laid out, from the one that opens `pax_reexports` to the brace
/// that closes it; only the line before the last is blank.
pub open spec fn is_laid_out(text: Seq<char>) -> bool {
    let all = lines(text);
    let n = all.len() as int;
    &&& n >= 3
    &&& all[0] == "pub mod pax_reexports {"@
    &&& all[n - 2].len() == 0
    &&& all[n - 1] == "}"@
    &&& forall|i: int| 0 <= i < n && i != n - 2 ==> #[trigger] is_line_laid_out(all, i)
}

proof fn lemma_row_laid_out(all: Seq<Seq<char>>, rows: Seq<(nat, Row)>, i: int)
    requires
        0 <= i < rows.len() <= all.len(),
        all.take(rows.len() as int) == lines_of(rows),
        rows_without(rows, ' '),
        well_indented(rows, 0),
    ensures
        is_line_laid_out(all, i),
{
    let row = rows[i];
    assert(all[i] == all.take(rows.len() as int)[i]);
    lemma_row_is_read(row);
    lemma_unindented_row(row);
    lemma_enclosing_depth(all, rows, i);
    assert(row.1.is_without(' '));
    assert(level_of(all, i) == row.0);
}

proof fn lemma_laid_out(imports: Seq<Seq<char>>)
    requires
        forall|i: int|
            0 <= i < imports.len() ==> !(#[trigger] imports[i]).contains('\n')
                && !imports[i].contains(' '),
    ensures
        is_laid_out(namespace_of(imports).reexports_module()),
{
    let t = namespace_of(imports);
    names_are_made_of_imports(imports, '\n');
    names_are_made_of_imports(imports, ' ');
    lemma_module_lines(t);
    lemma_module_rows_have_no_space(t);
    lemma_module_indented(t);
    lemma_lines_laid_out(lines(t.reexports_module()), module_rows(t));
}

proof fn lemma_lines_laid_out(all: Seq<Seq<char>>, rows: Seq<(nat, Row)>)
    requires
        all == lines_of(rows) + seq![Seq::<char>::empty(), "}"@],
        rows.len() > 0,
        rows[0] == (0nat, Row::Open("pax_reexports"@, true)),
        rows_without(rows, ' '),
        well_indented(rows, 0),
        depth_at(rows, 0, rows.len() as int) == 1,
    ensures
        all.len() == rows.len() + 2,
        all[0] == "pub mod pax_reexports {"@,
        all[all.len() - 2].len() == 0,
        all[all.len() - 1] == "}"@,
        forall|i: int|
            0 <= i < all.len() && i != all.len() - 2 ==> #[trigger] is_line_laid_out(all, i),
{
    let m = rows.len() as int;
    assert(all.take(m) =~= lines_of(rows));
    assert(all[0] == lines_of(rows)[0]);
    lemma_first_line_text();
    lemma_enclosing_depth(all, rows, m);
    lemma_last_line(all, m);
    assert forall|i: int|
        0 <= i < all.len() && i != all.len() - 2 implies #[trigger] is_line_laid_out(all, i) by {
        if i < m {
            lemma_row_laid_out(all, rows, i);
        }
    }
}

proof fn lemma_first_line_text()
    ensures
        line_of((0nat, Row::Open("pax_reexports"@, true))) == "pub mod pax_reexports {"@,
{
    reveal_strlit("pub mod ");
    reveal_strlit("pax_reexports");
    reveal_strlit(" {");
    reveal_strlit("pub mod pax_reexports {");
    assert(line_of((0nat, Row::Open("pax_reexports"@, true))) =~= "pub mod pax_reexports {"@);
}

proof fn lemma_last_line(all: Seq<Seq<char>>, m: int)
    requires
        0 <= m,
        all.len() == m + 2,
        all[m] == Seq::<char>::empty(),
        all[m + 1] == "}"@,
        enclosing(all, m) is Some,
        enclosing(all, m)->0.len() == 1,
    ensures
        is_line_laid_out(all, m + 1),
{
    reveal_strlit("}");
    reveal_strlit("pub mod ");
    assert(unindented("}"@) == "}"@);
    assert(unindented(Seq::<char>::empty()) == Seq::<char>::empty());
    assert(repeated("    "@, 0) + "}"@ =~= "}"@);
}

/// The lines of the generated file are indented by what is around them.
pub proof fn the_generated_file_is_laid_out(imports: Vec<String>, r: String)
    requires
        are_without(imports@, '\n'),
        are_without(imports@, ' '),
        call_ensures(generate_reexports_partial_rs, (imports,), r),
    ensures
        is_laid_out(r@),
{
    let all = texts(imports@);
    assert forall|i: int| 0 <= i < all.len() implies !(#[trigger] all[i]).contains('\n')
        && !all[i].contains(' ') by {
        assert(all[i] == imports@[i]@);
    }
    lemma_laid_out(all);
}

/// The rows of `b` are those of `a`, one level deeper.
spec fn is_deeper(a: Seq<(nat, Row)>, b: Seq<(nat, Row)>) -> bool {
    &&& a.len() == b.len()
    &&& forall|i: int| 0 <= i < a.len() ==> #[trigger] b[i] == (a[i].0 + 1, a[i].1)
}

proof fn lemma_listing_deeper(
    t: Namespace,
    segments: Seq<Seq<char>>,
    indent: nat,
    in_crate: bool,
)
    ensures
        is_deeper(
            t.listing_rows(segments, indent, in_crate),
            t.listing_rows(segments, indent + 1, in_crate),
        ),
    decreases t, segments.len(),
{
    if segments.len() > 0 {
        lemma_listing_deeper(t, segments.drop_last(), indent, in_crate);
        if t.children.contains_key(segments.last()) {
            lemma_entry_deeper(t.children[segments.last()], indent, in_crate);
        }
    }
}

proof fn lemma_entry_deeper(t: Namespace, indent: nat, in_crate: bool)
    ensures
        is_deeper(t.entry_rows(indent, in_crate), t.entry_rows(indent + 1, in_crate)),
    decreases t, t.segments().len() + 1,
{
    if !in_crate && t.name.unwrap() == "crate"@ {
        lemma_listing_deeper(t, t.segments(), indent, true);
    } else if !t.is_leaf() {
        lemma_listing_deeper(t, t.segments(), indent + 1, false);
    }
}

proof fn lemma_lines_of_items(t: Namespace, indent: nat)
    requires
        t.names_without('\n'),
    ensures
        lines(t.reexports(indent)) == lines_of(t.listing_rows(t.segments(), indent, false)).push(
            Seq::<char>::empty(),
        ),
{
    let rows = t.listing_rows(t.segments(), indent, false);
    let none = Seq::<char>::empty();
    reveal_strlit("\n");
    lemma_listing_text(t, t.segments(), indent, false);
    lemma_listing_rows_without(t, t.segments(), indent, false, '\n');
    lemma_lines_of_rows(rows, none);
    assert(unlines(rows) + none =~= unlines(rows));
    assert(!contains_text(none, "\n"@));
    assert(lines(none) =~= seq![none]);
    assert(lines_of(rows) + seq![none] =~= lines_of(rows).push(none));
}

/// The items of a trie are the same at any depth: one level deeper, every line
/// has four spaces more at its front. The last line, behind the last newline,
/// is empty.
pub proof fn items_are_the_same_at_any_depth(
    node: &NamespaceTrieNode,
    indent: usize,
    deeper: usize,
    r: String,
    q: String,
    i: int,
)
    requires
        node@.names_without('\n'),
        deeper == indent + 1,
        call_ensures(NamespaceTrieNode::recurse_serialize_to_reexports, (node, indent), r),
        call_ensures(NamespaceTrieNode::recurse_serialize_to_reexports, (node, deeper), q),
        0 <= i < lines(r@).len(),
    ensures
        lines(q@).len() == lines(r@).len(),
        i < lines(r@).len() - 1 ==> lines(q@)[i] == "    "@ + lines(r@)[i],
        i == lines(r@).len() - 1 ==> lines(r@)[i].len() == 0 && lines(q@)[i].len() == 0,
{
    let t = node@;
    let a = t.listing_rows(t.segments(), indent as nat, false);
    let b = t.listing_rows(t.segments(), indent as nat + 1, false);
    lemma_listing_deeper(t, t.segments(), indent as nat, false);
    lemma_lines_of_items(t, indent as nat);
    lemma_lines_of_items(t, indent as nat + 1);
    if i < a.len() {
        assert(b[i] == (a[i].0 + 1, a[i].1));
        lemma_repeated_adds("    "@, 1, a[i].0);
        assert(repeated("    "@, 0) =~= Seq::<char>::empty());
        assert(repeated("    "@, 1) =~= "    "@);
        assert(line_of(b[i]) =~= "    "@ + line_of(a[i]));
    }
}

} // verus!
