//! The lines of the generated re-exports.

use crate::namespace::{indentation, separator, Namespace};
use crate::reexports::namespace_of;
use crate::text::{
    ends_with, lemma_repeated_adds, lemma_split_front, lemma_split_without_char, occurs_at,
    repeated, split,
};
use vstd::prelude::*;
use vstd::string::*;

verus! {

/// The lines of a text. After a newline at the end an empty line is left.
pub open spec fn lines(s: Seq<char>) -> Seq<Seq<char>> {
    split(s, "\n"@)
}

/// A line without the spaces that it begins with.
pub open spec fn unindented(line: Seq<char>) -> Seq<char>
    decreases line.len(),
{
    if line.len() > 0 && line[0] == ' ' {
        unindented(line.drop_first())
    } else {
        line
    }
}

/// What a line re-exports.
pub open spec fn use_of(line: Seq<char>) -> Option<Seq<char>> {
    let u = unindented(line);
    if "pub use "@.is_prefix_of(u) && ends_with(u, ";"@) {
        Some(u.subrange(8, u.len() - 1))
    } else {
        None
    }
}

/// The module that a line opens. There may be a space before the brace.
pub open spec fn opened_by(line: Seq<char>) -> Option<Seq<char>> {
    let u = unindented(line);
    if "pub mod "@.is_prefix_of(u) && ends_with(u, "{"@) {
        let name = u.subrange(8, u.len() - 1);
        Some(
            if ends_with(name, " "@) {
                name.drop_last()
            } else {
                name
            },
        )
    } else {
        None
    }
}

/// Whether a line closes a module.
pub open spec fn closes(line: Seq<char>) -> bool {
    unindented(line) == "}"@
}

/// A line of the re-exports, without its indentation.
pub enum Row {
    Open(Seq<char>, bool),
    Use(Seq<char>),
    Close,
}

impl Row {
    /// The text of the row.
    pub open spec fn text(self) -> Seq<char> {
        match self {
            Row::Open(name, spaced) => "pub mod "@ + name + (if spaced {
                " {"@
            } else {
                "{"@
            }),
            Row::Use(path) => "pub use "@ + path + ";"@,
            Row::Close => "}"@,
        }
    }

    /// No name in the row holds the character.
    pub open spec fn is_without(self, c: char) -> bool {
        match self {
            Row::Open(name, _) => !name.contains(c),
            Row::Use(path) => !path.contains(c),
            Row::Close => true,
        }
    }
}

/// The text of an indented row.
pub open spec fn line_of(row: (nat, Row)) -> Seq<char> {
    repeated(indentation(), row.0) + row.1.text()
}

/// The texts of indented rows.
pub open spec fn lines_of(rows: Seq<(nat, Row)>) -> Seq<Seq<char>> {
    rows.map_values(|row: (nat, Row)| line_of(row))
}

/// No name in the rows holds the character.
pub open spec fn rows_without(rows: Seq<(nat, Row)>, c: char) -> bool {
    forall|i: int| 0 <= i < rows.len() ==> (#[trigger] rows[i]).1.is_without(c)
}

/// The rows as one text, each with a newline behind it.
pub open spec fn unlines(rows: Seq<(nat, Row)>) -> Seq<char>
    decreases rows.len(),
{
    if rows.len() == 0 {
        Seq::empty()
    } else {
        unlines(rows.drop_last()) + line_of(rows.last()) + "\n"@
    }
}

impl Namespace {
    /// The rows of the children that `segments` lead to.
    pub open spec fn listing_rows(
        self,
        segments: Seq<Seq<char>>,
        indent: nat,
        in_crate: bool,
    ) -> Seq<(nat, Row)>
        decreases self, segments.len(),
    {
        if segments.len() == 0 {
            Seq::empty()
        } else if self.children.contains_key(segments.last()) {
            self.listing_rows(segments.drop_last(), indent, in_crate)
                + self.children[segments.last()].entry_rows(indent, in_crate)
        } else {
            self.listing_rows(segments.drop_last(), indent, in_crate)
        }
    }

    /// The rows of one child.
    pub open spec fn entry_rows(self, indent: nat, in_crate: bool) -> Seq<(nat, Row)>
        decreases self, self.segments().len() + 1,
    {
        let name = self.name.unwrap();
        if !in_crate && name == "crate"@ {
            self.listing_rows(self.segments(), indent, true)
        } else if self.is_leaf() {
            seq![(indent, Row::Use(name))]
        } else {
            seq![(indent, Row::Open(split(name, separator()).last(), in_crate))]
                + self.listing_rows(self.segments(), indent + 1, false) + seq![(indent, Row::Close)]
        }
    }

    /// Every node below has a namespace without the character.
    pub open spec fn names_without(self, c: char) -> bool
        decreases self,
    {
        forall|k: Seq<char>| #[trigger]
            self.children.contains_key(k) ==> {
                &&& self.children[k].name is Some
                &&& !self.children[k].name->0.contains(c)
                &&& self.children[k].names_without(c)
            }
    }
}

/// The names in the trie hold no character that the imports do not hold, but
/// for the colon.
pub proof fn names_are_made_of_imports(imports: Seq<Seq<char>>, c: char)
    requires
        c != ':',
        forall|i: int| 0 <= i < imports.len() ==> !(#[trigger] imports[i]).contains(c),
    ensures
        namespace_of(imports).names_without(c),
    decreases imports.len(),
{
    if imports.len() > 0 {
        let shorter = imports.drop_last();
        assert forall|i: int| 0 <= i < shorter.len() implies !(#[trigger] shorter[i]).contains(
            c,
        ) by {
            assert(shorter[i] == imports[i]);
        }
        names_are_made_of_imports(shorter, c);
        let path = split(imports.last(), separator());
        assert(!imports[imports.len() - 1].contains(c));
        assert forall|i: int| 0 <= i < path.len() implies !(#[trigger] path[i]).contains(c) by {
            lemma_split_without_char(imports.last(), separator(), c, i);
        }
        lemma_root_has_no_name(shorter);
        lemma_with_path_names(namespace_of(shorter), path, c);
    }
}

proof fn lemma_root_has_no_name(imports: Seq<Seq<char>>)
    ensures
        namespace_of(imports).name is None,
    decreases imports.len(),
{
    if imports.len() > 0 {
        lemma_root_has_no_name(imports.drop_last());
    }
}

proof fn lemma_with_path_names(t: Namespace, path: Seq<Seq<char>>, c: char)
    requires
        c != ':',
        t.names_without(c),
        t.name is Some ==> !t.name->0.contains(c),
        forall|i: int| 0 <= i < path.len() ==> !(#[trigger] path[i]).contains(c),
    ensures
        t.with_path(path).names_without(c),
        t.with_path(path).name == t.name,
    decreases path.len(),
{
    if path.len() > 0 {
        reveal_strlit("::");
        let k = path[0];
        let child = t.child(k);
        let name = t.child_name(k);
        if name.contains(c) {
            let j = choose|j: int| 0 <= j < name.len() && name[j] == c;
            match t.name {
                Some(parent) => {
                    if j < parent.len() {
                        assert(parent[j] == c);
                    } else if j >= parent.len() + 2 {
                        assert(k[j - parent.len() - 2] == c);
                    }
                },
                None => {},
            }
        }
        assert(child.names_without(c));
        assert(child.name is Some && !child.name->0.contains(c));
        assert forall|i: int| 0 <= i < path.drop_first().len() implies !(
        #[trigger] path.drop_first()[i]).contains(c) by {
            assert(path.drop_first()[i] == path[i + 1]);
        }
        lemma_with_path_names(child, path.drop_first(), c);
        let u = t.with_path(path);
        assert forall|j: Seq<char>| #[trigger] u.children.contains_key(j) implies {
            &&& u.children[j].name is Some
            &&& !u.children[j].name->0.contains(c)
            &&& u.children[j].names_without(c)
        } by {
            if j != k {
                assert(t.children.contains_key(j));
            }
        }
    }
}

proof fn lemma_unlines_concat(a: Seq<(nat, Row)>, b: Seq<(nat, Row)>)
    ensures
        unlines(a + b) == unlines(a) + unlines(b),
    decreases b.len(),
{
    if b.len() == 0 {
        assert(a + b =~= a);
        assert(unlines(a) + Seq::<char>::empty() =~= unlines(a));
    } else {
        lemma_unlines_concat(a, b.drop_last());
        assert((a + b).drop_last() =~= a + b.drop_last());
        assert(unlines(a + b) =~= unlines(a) + unlines(b));
    }
}

proof fn lemma_unlines_one(row: (nat, Row))
    ensures
        unlines(seq![row]) == line_of(row) + "\n"@,
{
    assert(seq![row].drop_last() =~= Seq::<(nat, Row)>::empty());
    assert(seq![row].last() == row);
    assert(unlines(seq![row].drop_last()) =~= Seq::<char>::empty());
    assert(unlines(seq![row]) =~= line_of(row) + "\n"@);
}

/// The text of a listing is that of its rows.
pub proof fn lemma_listing_text(
    t: Namespace,
    segments: Seq<Seq<char>>,
    indent: nat,
    in_crate: bool,
)
    ensures
        t.listing(segments, indent, in_crate) == unlines(
            t.listing_rows(segments, indent, in_crate),
        ),
    decreases t, segments.len(),
{
    if segments.len() > 0 {
        lemma_listing_text(t, segments.drop_last(), indent, in_crate);
        if t.children.contains_key(segments.last()) {
            let child = t.children[segments.last()];
            lemma_entry_text(child, indent, in_crate);
            lemma_unlines_concat(
                t.listing_rows(segments.drop_last(), indent, in_crate),
                child.entry_rows(indent, in_crate),
            );
        }
    }
}

proof fn lemma_entry_text(t: Namespace, indent: nat, in_crate: bool)
    ensures
        t.entry(indent, in_crate) == unlines(t.entry_rows(indent, in_crate)),
    decreases t, t.segments().len() + 1,
{
    reveal_strlit("\n");
    reveal_strlit(";");
    reveal_strlit(";\n");
    reveal_strlit("{");
    reveal_strlit("{\n");
    reveal_strlit(" {");
    reveal_strlit(" {\n");
    reveal_strlit("}");
    reveal_strlit("}\n");
    assert(";\n"@ =~= ";"@ + "\n"@);
    assert("{\n"@ =~= "{"@ + "\n"@);
    assert(" {\n"@ =~= " {"@ + "\n"@);
    assert("}\n"@ =~= "}"@ + "\n"@);
    let name = t.name.unwrap();
    let margin = repeated(indentation(), indent);
    if !in_crate && name == "crate"@ {
        lemma_listing_text(t, t.segments(), indent, true);
    } else if t.is_leaf() {
        let row = (indent, Row::Use(name));
        lemma_unlines_one(row);
        assert(t.entry(indent, in_crate) =~= line_of(row) + "\n"@);
    } else {
        lemma_listing_text(t, t.segments(), indent + 1, false);
        let open = (indent, Row::Open(split(name, separator()).last(), in_crate));
        let close = (indent, Row::Close);
        let inner = t.listing_rows(t.segments(), indent + 1, false);
        lemma_unlines_one(open);
        lemma_unlines_one(close);
        lemma_unlines_concat(seq![open], inner);
        lemma_unlines_concat(seq![open] + inner, seq![close]);
        assert(t.entry(indent, in_crate) =~= (line_of(open) + "\n"@) + unlines(inner) + (line_of(
            close,
        ) + "\n"@));
    }
}

/// All names in the rows of a listing are names of nodes, or the last segments
/// of such.
pub proof fn lemma_listing_rows_without(
    t: Namespace,
    segments: Seq<Seq<char>>,
    indent: nat,
    in_crate: bool,
    c: char,
)
    requires
        t.names_without(c),
    ensures
        rows_without(t.listing_rows(segments, indent, in_crate), c),
    decreases t, segments.len(),
{
    if segments.len() > 0 {
        lemma_listing_rows_without(t, segments.drop_last(), indent, in_crate, c);
        if t.children.contains_key(segments.last()) {
            let child = t.children[segments.last()];
            lemma_entry_rows_without(child, indent, in_crate, c);
            lemma_rows_without_concat(
                t.listing_rows(segments.drop_last(), indent, in_crate),
                child.entry_rows(indent, in_crate),
                c,
            );
        }
    }
}

proof fn lemma_rows_without_concat(a: Seq<(nat, Row)>, b: Seq<(nat, Row)>, c: char)
    requires
        rows_without(a, c),
        rows_without(b, c),
    ensures
        rows_without(a + b, c),
{
    assert forall|i: int| 0 <= i < (a + b).len() implies (#[trigger] (a + b)[i]).1.is_without(
        c,
    ) by {
        if i < a.len() {
            assert((a + b)[i] == a[i]);
        } else {
            assert((a + b)[i] == b[i - a.len()]);
        }
    }
}

proof fn lemma_entry_rows_without(t: Namespace, indent: nat, in_crate: bool, c: char)
    requires
        t.names_without(c),
        t.name is Some,
        !t.name->0.contains(c),
    ensures
        rows_without(t.entry_rows(indent, in_crate), c),
    decreases t, t.segments().len() + 1,
{
    let name = t.name.unwrap();
    if !in_crate && name == "crate"@ {
        lemma_listing_rows_without(t, t.segments(), indent, true, c);
    } else if !t.is_leaf() {
        lemma_listing_rows_without(t, t.segments(), indent + 1, false, c);
        let parts = split(name, separator());
        lemma_split_without_char(name, separator(), c, parts.len() - 1);
        let open = seq![(indent, Row::Open(parts.last(), in_crate))];
        let inner = t.listing_rows(t.segments(), indent + 1, false);
        assert(rows_without(open, c));
        lemma_rows_without_concat(open, inner, c);
        lemma_rows_without_concat(open + inner, seq![(indent, Row::Close)], c);
    }
}

proof fn lemma_margin_is_spaces(n: nat)
    ensures
        forall|i: int|
            0 <= i < repeated(indentation(), n).len() ==> #[trigger] repeated(indentation(), n)[i]
                == ' ',
    decreases n,
{
    reveal_strlit("    ");
    if n > 0 {
        lemma_margin_is_spaces((n - 1) as nat);
        let shorter = repeated(indentation(), (n - 1) as nat);
        let margin = repeated(indentation(), n);
        assert forall|i: int| 0 <= i < margin.len() implies #[trigger] margin[i] == ' ' by {
            if i < shorter.len() {
                assert(margin[i] == shorter[i]);
            } else {
                assert(margin[i] == indentation()[i - shorter.len()]);
            }
        }
    }
}

/// A line that does not hold a newline is followed by the lines behind its
/// newline.
pub(crate) proof fn lemma_first_line(a: Seq<char>, b: Seq<char>)
    requires
        !a.contains('\n'),
    ensures
        lines(a + "\n"@ + b) == seq![a] + lines(b),
{
    reveal_strlit("\n");
    let s = a + "\n"@ + b;
    assert forall|j: int| 0 <= j < a.len() implies !occurs_at(s, "\n"@, j) by {
        if occurs_at(s, "\n"@, j) {
            assert(s.subrange(j, j + 1)[0] == '\n');
            assert(a[j] == '\n');
        }
    }
    lemma_split_front(a, "\n"@, b);
}

proof fn lemma_line_has_no_newline(row: (nat, Row))
    requires
        row.1.is_without('\n'),
    ensures
        !line_of(row).contains('\n'),
{
    reveal_strlit("pub mod ");
    reveal_strlit("pub use ");
    reveal_strlit(";");
    reveal_strlit("{");
    reveal_strlit(" {");
    reveal_strlit("}");
    lemma_margin_is_spaces(row.0);
    let margin = repeated(indentation(), row.0);
    let s = line_of(row);
    if s.contains('\n') {
        let i = choose|i: int| 0 <= i < s.len() && s[i] == '\n';
        if i < margin.len() {
            assert(margin[i] == '\n');
        } else {
            let j = i - margin.len();
            assert(row.1.text()[j] == '\n');
            match row.1 {
                Row::Open(name, spaced) => {
                    if 8 <= j < 8 + name.len() {
                        assert(name[j - 8] == '\n');
                    }
                },
                Row::Use(path) => {
                    if 8 <= j < 8 + path.len() {
                        assert(path[j - 8] == '\n');
                    }
                },
                Row::Close => {},
            }
        }
    }
}

/// The lines of a text of rows are these rows, whatever comes behind.
pub proof fn lemma_lines_of_rows(rows: Seq<(nat, Row)>, tail: Seq<char>)
    requires
        rows_without(rows, '\n'),
    ensures
        lines(unlines(rows) + tail) == lines_of(rows) + lines(tail),
    decreases rows.len(),
{
    if rows.len() == 0 {
        assert(unlines(rows) + tail =~= tail);
        assert(lines_of(rows) + lines(tail) =~= lines(tail));
    } else {
        let first = rows[0];
        let rest = rows.drop_first();
        assert(rows =~= seq![first] + rest);
        lemma_unlines_concat(seq![first], rest);
        lemma_unlines_one(first);
        assert forall|i: int| 0 <= i < rest.len() implies (#[trigger] rest[i]).1.is_without(
            '\n',
        ) by {
            assert(rest[i] == rows[i + 1]);
        }
        lemma_lines_of_rows(rest, tail);
        lemma_line_has_no_newline(first);
        lemma_first_line(line_of(first), unlines(rest) + tail);
        assert(unlines(rows) + tail =~= line_of(first) + "\n"@ + (unlines(rest) + tail));
        assert(lines_of(rows) =~= seq![line_of(first)] + lines_of(rest));
        assert(lines_of(rows) + lines(tail) =~= seq![line_of(first)] + (lines_of(rest) + lines(
            tail,
        )));
    }
}

/// The same rows, `k` levels deeper.
pub open spec fn deeper(rows: Seq<(nat, Row)>, k: nat) -> Seq<(nat, Row)> {
    rows.map_values(|row: (nat, Row)| (row.0 + k, row.1))
}

proof fn lemma_deeper_listing(
    t: Namespace,
    segments: Seq<Seq<char>>,
    indent: nat,
    in_crate: bool,
    k: nat,
)
    ensures
        t.listing_rows(segments, indent + k, in_crate) == deeper(
            t.listing_rows(segments, indent, in_crate),
            k,
        ),
    decreases t, segments.len(),
{
    if segments.len() > 0 {
        lemma_deeper_listing(t, segments.drop_last(), indent, in_crate, k);
        if t.children.contains_key(segments.last()) {
            lemma_deeper_entry(t.children[segments.last()], indent, in_crate, k);
        }
    }
    assert(t.listing_rows(segments, indent + k, in_crate) =~= deeper(
        t.listing_rows(segments, indent, in_crate),
        k,
    ));
}

proof fn lemma_deeper_entry(t: Namespace, indent: nat, in_crate: bool, k: nat)
    ensures
        t.entry_rows(indent + k, in_crate) == deeper(t.entry_rows(indent, in_crate), k),
    decreases t, t.segments().len() + 1,
{
    if !in_crate && t.name.unwrap() == "crate"@ {
        lemma_deeper_listing(t, t.segments(), indent, true, k);
    } else if !t.is_leaf() {
        lemma_deeper_listing(t, t.segments(), indent + 1, false, k);
        assert((indent + 1) + k == (indent + k) + 1);
    }
    assert(t.entry_rows(indent + k, in_crate) =~= deeper(t.entry_rows(indent, in_crate), k));
}

pub(crate) proof fn lemma_unindented_row(row: (nat, Row))
    ensures
        unindented(line_of(row)) == row.1.text(),
        row.1.text().len() > 0,
{
    reveal_strlit("pub mod ");
    reveal_strlit("pub use ");
    reveal_strlit("}");
    lemma_margin_is_spaces(row.0);
    lemma_unindented(repeated(indentation(), row.0), row.1.text());
}

proof fn lemma_unindented(margin: Seq<char>, s: Seq<char>)
    requires
        forall|i: int| 0 <= i < margin.len() ==> #[trigger] margin[i] == ' ',
        s.len() > 0,
        s[0] != ' ',
    ensures
        unindented(margin + s) == s,
    decreases margin.len(),
{
    if margin.len() == 0 {
        assert(margin + s =~= s);
    } else {
        assert((margin + s)[0] == margin[0]);
        assert((margin + s).drop_first() =~= margin.drop_first() + s);
        lemma_unindented(margin.drop_first(), s);
    }
}

/// Re-exports that are `k` levels deeper have four spaces more for each level
/// before every line, and nothing else changes. They are empty or end with a
/// newline, and no line of them is blank.
pub proof fn deeper_reexports_are_indented_more(t: Namespace, k: nat)
    requires
        t.names_without('\n'),
    ensures
        t.reexports(k).len() == 0 || t.reexports(k).last() == '\n',
        lines(t.reexports(k)).len() == lines(t.reexports(0)).len(),
        lines(t.reexports(k)).len() > 0,
        lines(t.reexports(k)).last().len() == 0,
        lines(t.reexports(0)).last().len() == 0,
        forall|i: int|
            0 <= i < lines(t.reexports(0)).len() - 1 ==> {
                &&& #[trigger] lines(t.reexports(k))[i] == repeated(indentation(), k) + lines(
                    t.reexports(0),
                )[i]
                &&& unindented(lines(t.reexports(k))[i]).len() > 0
            },
{
    let segments = t.segments();
    let shallow = t.listing_rows(segments, 0, false);
    let deep = t.listing_rows(segments, k, false);
    lemma_listing_text(t, segments, 0, false);
    lemma_listing_text(t, segments, k, false);
    lemma_listing_rows_without(t, segments, 0, false, '\n');
    lemma_listing_rows_without(t, segments, k, false, '\n');
    lemma_deeper_listing(t, segments, 0, false, k);
    let none = Seq::<char>::empty();
    reveal_strlit("\n");
    assert(lines(none) =~= seq![none]) by {
        assert forall|j: int| !occurs_at(none, "\n"@, j) by {}
    }
    lemma_lines_of_rows(shallow, none);
    lemma_lines_of_rows(deep, none);
    assert(unlines(shallow) + none =~= unlines(shallow));
    assert(unlines(deep) + none =~= unlines(deep));
    assert(deep == deeper(shallow, k));
    assert forall|i: int| 0 <= i < lines(t.reexports(0)).len() - 1 implies {
        &&& #[trigger] lines(t.reexports(k))[i] == repeated(indentation(), k) + lines(
            t.reexports(0),
        )[i]
        &&& unindented(lines(t.reexports(k))[i]).len() > 0
    } by {
        lemma_repeated_adds(indentation(), k, shallow[i].0);
        lemma_unindented_row(deep[i]);
        assert(deep[i] == (shallow[i].0 + k, shallow[i].1));
        assert(line_of(deep[i]) =~= repeated(indentation(), k) + line_of(shallow[i]));
    }
}

} // verus!
