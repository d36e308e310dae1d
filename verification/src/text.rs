//! Text as sequences of characters: order, splitting, joining, replacing and
//! the decimal form of numbers.

use vstd::prelude::*;
use vstd::relations::total_ordering;
use vstd::string::*;

verus! {

/// Texts are ordered character by character, by code point; a proper prefix
/// comes first. This is the order of `str`.
pub open spec fn text_le(a: Seq<char>, b: Seq<char>) -> bool
    decreases a.len(),
{
    if a.len() == 0 {
        true
    } else if b.len() == 0 {
        false
    } else if a[0] == b[0] {
        text_le(a.drop_first(), b.drop_first())
    } else {
        (a[0] as int) < (b[0] as int)
    }
}

/// `text_le` as a relation.
pub open spec fn text_order() -> spec_fn(Seq<char>, Seq<char>) -> bool {
    |a: Seq<char>, b: Seq<char>| text_le(a, b)
}

proof fn lemma_text_le_total(a: Seq<char>, b: Seq<char>)
    ensures
        text_le(a, b) || text_le(b, a),
    decreases a.len(),
{
    if a.len() > 0 && b.len() > 0 && a[0] == b[0] {
        lemma_text_le_total(a.drop_first(), b.drop_first());
    }
}

proof fn lemma_text_le_antisymmetric(a: Seq<char>, b: Seq<char>)
    requires
        text_le(a, b),
        text_le(b, a),
    ensures
        a == b,
    decreases a.len(),
{
    if a.len() > 0 && b.len() > 0 {
        lemma_text_le_antisymmetric(a.drop_first(), b.drop_first());
        assert(a =~= seq![a[0]] + a.drop_first());
        assert(b =~= seq![b[0]] + b.drop_first());
    } else {
        assert(a =~= b);
    }
}

proof fn lemma_text_le_transitive(a: Seq<char>, b: Seq<char>, c: Seq<char>)
    requires
        text_le(a, b),
        text_le(b, c),
    ensures
        text_le(a, c),
    decreases a.len(),
{
    if a.len() > 0 && b.len() > 0 && c.len() > 0 && a[0] == b[0] && b[0] == c[0] {
        lemma_text_le_transitive(a.drop_first(), b.drop_first(), c.drop_first());
    }
}

/// The order of texts is total: any two texts are ordered, and two texts that
/// are ordered both ways are equal.
pub proof fn text_order_is_total()
    ensures
        total_ordering(text_order()),
{
    let le = text_order();
    assert forall|a: Seq<char>| #[trigger] le(a, a) by {
        lemma_text_le_total(a, a);
    }
    assert forall|a: Seq<char>, b: Seq<char>| #[trigger] le(a, b) && #[trigger] le(b, a) implies a
        == b by {
        lemma_text_le_antisymmetric(a, b);
    }
    assert forall|a: Seq<char>, b: Seq<char>, c: Seq<char>| #[trigger]
        le(a, b) && #[trigger] le(b, c) implies le(a, c) by {
        lemma_text_le_transitive(a, b, c);
    }
    assert forall|a: Seq<char>, b: Seq<char>| #[trigger] le(a, b) || #[trigger] le(b, a) by {
        lemma_text_le_total(a, b);
    }
}

/// The characters of a text.
pub fn chars_of(s: &str) -> (r: Vec<char>)
    ensures
        r@ == s@,
{
    let mut r: Vec<char> = Vec::new();
    for c in it: s.chars()
        invariant
            r@ == it.seq().take(it.index()),
            it.seq() == s@,
    {
        r.push(c);
    }
    r
}

/// Whether `a` comes before `b` or equals it.
pub fn is_text_le(a: &str, b: &str) -> (r: bool)
    ensures
        r == text_le(a@, b@),
{
    let x: Vec<char> = chars_of(a);
    let y: Vec<char> = chars_of(b);
    let mut i: usize = 0;
    assert(a@.skip(0) =~= a@);
    assert(b@.skip(0) =~= b@);
    while i < x.len() && i < y.len() && x[i] == y[i]
        invariant
            x@ == a@,
            y@ == b@,
            i <= x.len(),
            i <= y.len(),
            text_le(a@, b@) == text_le(a@.skip(i as int), b@.skip(i as int)),
        decreases x.len() - i,
    {
        assert(a@.skip(i as int).drop_first() =~= a@.skip(i + 1));
        assert(b@.skip(i as int).drop_first() =~= b@.skip(i + 1));
        i += 1;
    }
    if i >= x.len() {
        true
    } else if i >= y.len() {
        false
    } else {
        let p: char = x[i];
        let q: char = y[i];
        p < q
    }
}

/// Whether the two texts are the same.
pub fn same_text(a: &str, b: &str) -> (r: bool)
    ensures
        r == (a@ == b@),
{
    let x: Vec<char> = chars_of(a);
    let y: Vec<char> = chars_of(b);
    if x.len() != y.len() {
        return false;
    }
    let mut i: usize = 0;
    while i < x.len()
        invariant
            x@ == a@,
            y@ == b@,
            x.len() == y.len(),
            i <= x.len(),
            forall|j: int| 0 <= j < i ==> x@[j] == y@[j],
        decreases x.len() - i,
    {
        if x[i] != y[i] {
            return false;
        }
        i += 1;
    }
    assert(a@ =~= b@);
    true
}

/// `pat` stands in `s` at position `i`.
pub open spec fn occurs_at(s: Seq<char>, pat: Seq<char>, i: int) -> bool {
    &&& 0 <= i
    &&& i + pat.len() <= s.len()
    &&& s.subrange(i, i + pat.len()) == pat
}

/// `pat` stands somewhere in `s`.
pub open spec fn contains_text(s: Seq<char>, pat: Seq<char>) -> bool {
    exists|i: int| occurs_at(s, pat, i)
}

/// The leftmost position of `pat` in `s` is `i`.
pub open spec fn first_at(s: Seq<char>, pat: Seq<char>, i: int) -> bool {
    &&& occurs_at(s, pat, i)
    &&& forall|j: int| 0 <= j < i ==> !occurs_at(s, pat, j)
}

/// Where `pat` occurs, it has a leftmost occurrence.
pub proof fn lemma_first_exists(s: Seq<char>, pat: Seq<char>, i: int)
    requires
        occurs_at(s, pat, i),
    ensures
        exists|j: int| first_at(s, pat, j),
    decreases i,
{
    if exists|j: int| 0 <= j < i && occurs_at(s, pat, j) {
        let j = choose|j: int| 0 <= j < i && occurs_at(s, pat, j);
        lemma_first_exists(s, pat, j);
    } else {
        assert(first_at(s, pat, i));
    }
}

/// The parts of `s` between the occurrences of `sep`, which are sought from
/// the left and do not overlap. A text without `sep` is its own single part.
pub open spec fn split(s: Seq<char>, sep: Seq<char>) -> Seq<Seq<char>>
    decreases s.len(),
{
    if sep.len() > 0 && contains_text(s, sep) {
        let i = choose|i: int| first_at(s, sep, i);
        proof {
            lemma_first_exists(s, sep, choose|j: int| occurs_at(s, sep, j));
        }
        seq![s.take(i)] + split(s.skip(i + sep.len()), sep)
    } else {
        seq![s]
    }
}

/// The parts one after the other, with `sep` between each two.
pub open spec fn join(parts: Seq<Seq<char>>, sep: Seq<char>) -> Seq<char>
    decreases parts.len(),
{
    if parts.len() == 0 {
        Seq::empty()
    } else if parts.len() == 1 {
        parts[0]
    } else {
        join(parts.drop_last(), sep) + sep + parts.last()
    }
}

/// `s` with every occurrence of `from`, sought from the left, replaced by `to`.
pub open spec fn replace(s: Seq<char>, from: Seq<char>, to: Seq<char>) -> Seq<char> {
    join(split(s, from), to)
}

/// The contents of a list of strings.
pub open spec fn texts(v: Seq<String>) -> Seq<Seq<char>> {
    v.map_values(|s: String| s@)
}

/// The contents of a list of pairs of strings.
pub open spec fn text_pairs(v: Seq<(String, String)>) -> Seq<(Seq<char>, Seq<char>)> {
    v.map_values(|p: (String, String)| (p.0@, p.1@))
}

/// The contents of an optional string.
pub open spec fn optional_text(s: Option<String>) -> Option<Seq<char>> {
    match s {
        Some(s) => Some(s@),
        None => None,
    }
}

proof fn lemma_split_at_first(s: Seq<char>, sep: Seq<char>, i: int)
    requires
        sep.len() > 0,
        first_at(s, sep, i),
    ensures
        split(s, sep) == seq![s.take(i)] + split(s.skip(i + sep.len()), sep),
{
    let k = choose|k: int| first_at(s, sep, k);
    assert(first_at(s, sep, k));
    assert(k == i) by {
        if k < i {
            assert(!occurs_at(s, sep, k));
        }
        if i < k {
            assert(!occurs_at(s, sep, i));
        }
    }
}

/// Joining from the left: the first part, then the rest.
pub proof fn lemma_join_first(parts: Seq<Seq<char>>, sep: Seq<char>)
    requires
        parts.len() > 1,
    ensures
        join(parts, sep) == parts[0] + sep + join(parts.drop_first(), sep),
    decreases parts.len(),
{
    if parts.len() == 2 {
        assert(join(parts.drop_last(), sep) == parts[0]);
        assert(join(parts.drop_first(), sep) == parts[1]);
        assert(join(parts, sep) =~= parts[0] + sep + parts[1]);
    } else {
        lemma_join_first(parts.drop_last(), sep);
        assert(parts.drop_last().drop_first() =~= parts.drop_first().drop_last());
        assert(join(parts, sep) =~= parts[0] + sep + join(parts.drop_first(), sep));
    }
}

/// A text has at least one part.
pub proof fn split_is_not_empty(s: Seq<char>, sep: Seq<char>)
    ensures
        split(s, sep).len() > 0,
{
}

/// Splitting loses nothing: joined with the separator the parts give the text
/// back.
pub proof fn join_undoes_split(s: Seq<char>, sep: Seq<char>)
    ensures
        join(split(s, sep), sep) == s,
    decreases s.len(),
{
    if sep.len() > 0 && contains_text(s, sep) {
        lemma_first_exists(s, sep, choose|j: int| occurs_at(s, sep, j));
        let i = choose|i: int| first_at(s, sep, i);
        let rest = s.skip(i + sep.len());
        join_undoes_split(rest, sep);
        split_is_not_empty(rest, sep);
        assert(split(s, sep).drop_first() =~= split(rest, sep));
        lemma_join_first(split(s, sep), sep);
        assert(s =~= s.take(i) + sep + rest);
    }
}

/// A text in which `from` does not occur is left as it is.
pub proof fn replace_without_match(s: Seq<char>, from: Seq<char>, to: Seq<char>)
    requires
        !contains_text(s, from),
    ensures
        replace(s, from, to) == s,
{
}

/// No part of a split text holds the separator.
pub proof fn parts_are_free_of_the_separator(s: Seq<char>, sep: Seq<char>, i: int)
    requires
        sep.len() > 0,
        0 <= i < split(s, sep).len(),
    ensures
        !contains_text(split(s, sep)[i], sep),
    decreases s.len(),
{
    if contains_text(s, sep) {
        lemma_first_exists(s, sep, choose|j: int| occurs_at(s, sep, j));
        let k = choose|k: int| first_at(s, sep, k);
        if i == 0 {
            let part = s.take(k);
            assert forall|j: int| !occurs_at(part, sep, j) by {
                if occurs_at(part, sep, j) {
                    assert(s.subrange(j, j + sep.len()) =~= part.subrange(j, j + sep.len()));
                    assert(occurs_at(s, sep, j));
                }
            }
        } else {
            parts_are_free_of_the_separator(s.skip(k + sep.len()), sep, i - 1);
        }
    }
}

proof fn lemma_no_match_across(a: Seq<char>, b: Seq<char>, c: Seq<char>, pat: Seq<char>, w: int)
    requires
        pat.len() > 0,
        !contains_text(a, pat),
        !contains_text(c, pat),
        0 <= w < b.len(),
        !pat.contains(b[w]),
        !b.contains(pat[0]),
        !b.contains(pat.last()),
    ensures
        !contains_text(a + b + c, pat),
{
    let whole = a + b + c;
    assert forall|i: int| !occurs_at(whole, pat, i) by {
        if occurs_at(whole, pat, i) {
            let found = whole.subrange(i, i + pat.len());
            let end = i + pat.len() - 1;
            assert(found[0] == whole[i]);
            assert(found[pat.len() - 1] == whole[end]);
            if i >= a.len() + b.len() {
                let j = i - a.len() - b.len();
                assert(c.subrange(j, j + pat.len()) =~= found);
                assert(occurs_at(c, pat, j));
            } else if i >= a.len() {
                assert(b[i - a.len()] == pat[0]);
            } else if end < a.len() {
                assert(a.subrange(i, i + pat.len()) =~= found);
                assert(occurs_at(a, pat, i));
            } else if end < a.len() + b.len() {
                assert(b[end - a.len()] == pat.last());
            } else {
                assert(found[a.len() + w - i] == b[w]);
            }
        }
    }
}

/// Where `to` can neither begin, end nor lie within an occurrence of `from`,
/// no occurrence of `from` is left after replacing.
pub proof fn replacing_is_complete(s: Seq<char>, from: Seq<char>, to: Seq<char>, w: int)
    requires
        from.len() > 0,
        0 <= w < to.len(),
        !from.contains(to[w]),
        !to.contains(from[0]),
        !to.contains(from.last()),
    ensures
        !contains_text(replace(s, from, to), from),
{
    let parts = split(s, from);
    assert forall|i: int| 0 <= i < parts.len() implies !contains_text(
        #[trigger] parts[i],
        from,
    ) by {
        parts_are_free_of_the_separator(s, from, i);
    }
    lemma_join_without_match(parts, to, from, w);
}

proof fn lemma_join_without_match(
    parts: Seq<Seq<char>>,
    sep: Seq<char>,
    pat: Seq<char>,
    w: int,
)
    requires
        pat.len() > 0,
        0 <= w < sep.len(),
        !pat.contains(sep[w]),
        !sep.contains(pat[0]),
        !sep.contains(pat.last()),
        forall|i: int| 0 <= i < parts.len() ==> !contains_text(#[trigger] parts[i], pat),
    ensures
        !contains_text(join(parts, sep), pat),
    decreases parts.len(),
{
    if parts.len() > 1 {
        lemma_join_without_match(parts.drop_last(), sep, pat, w);
        assert(parts[parts.len() - 1] == parts.last());
        lemma_no_match_across(join(parts.drop_last(), sep), sep, parts.last(), pat, w);
    }
}

/// Joined parts hold no character that neither they nor the separator hold.
pub proof fn lemma_join_without_char(parts: Seq<Seq<char>>, sep: Seq<char>, c: char)
    requires
        forall|i: int| 0 <= i < parts.len() ==> !(#[trigger] parts[i]).contains(c),
        !sep.contains(c),
    ensures
        !join(parts, sep).contains(c),
    decreases parts.len(),
{
    if parts.len() > 1 {
        lemma_join_without_char(parts.drop_last(), sep, c);
        assert(!parts[parts.len() - 1].contains(c));
        let head = join(parts.drop_last(), sep);
        let s = join(parts, sep);
        if s.contains(c) {
            let i = choose|i: int| 0 <= i < s.len() && s[i] == c;
            if i < head.len() {
                assert(head[i] == c);
            } else if i < head.len() + sep.len() {
                assert(sep[i - head.len()] == c);
            } else {
                assert(parts.last()[i - head.len() - sep.len()] == c);
            }
        }
    } else if parts.len() == 1 {
        assert(!parts[0].contains(c));
    }
}

/// The parts of a text hold no character that the text does not hold.
pub proof fn lemma_split_without_char(s: Seq<char>, sep: Seq<char>, c: char, i: int)
    requires
        !s.contains(c),
        0 <= i < split(s, sep).len(),
    ensures
        !split(s, sep)[i].contains(c),
    decreases s.len(),
{
    if sep.len() > 0 && contains_text(s, sep) {
        lemma_first_exists(s, sep, choose|j: int| occurs_at(s, sep, j));
        let k = choose|k: int| first_at(s, sep, k);
        let rest = s.skip(k + sep.len());
        let part = s.take(k);
        if part.contains(c) {
            let j = choose|j: int| 0 <= j < part.len() && part[j] == c;
            assert(s[j] == c);
        }
        if rest.contains(c) {
            let j = choose|j: int| 0 <= j < rest.len() && rest[j] == c;
            assert(s[j + k + sep.len()] == c);
        }
        if i > 0 {
            lemma_split_without_char(rest, sep, c, i - 1);
        }
    }
}

/// Where the first occurrence of the separator comes right after `a`, `a` is the
/// first part.
pub proof fn lemma_split_front(a: Seq<char>, sep: Seq<char>, b: Seq<char>)
    requires
        sep.len() > 0,
        forall|j: int| 0 <= j < a.len() ==> !occurs_at(a + sep + b, sep, j),
    ensures
        split(a + sep + b, sep) == seq![a] + split(b, sep),
{
    let s = a + sep + b;
    assert(s.subrange(a.len() as int, (a.len() + sep.len()) as int) =~= sep);
    assert(first_at(s, sep, a.len() as int));
    lemma_split_at_first(s, sep, a.len() as int);
    assert(s.take(a.len() as int) =~= a);
    assert(s.skip((a.len() + sep.len()) as int) =~= b);
}

/// Whether the separator occurs before the end of `a` does not depend on what
/// comes after `a` and the separator.
pub proof fn lemma_earlier_occurrence(
    a: Seq<char>,
    sep: Seq<char>,
    x: Seq<char>,
    y: Seq<char>,
    j: int,
)
    requires
        0 <= j < a.len(),
        occurs_at(a + sep + x, sep, j),
    ensures
        occurs_at(a + sep + y, sep, j),
{
    assert((a + sep + y).subrange(j, j + sep.len()) =~= (a + sep + x).subrange(j, j + sep.len()));
}

/// The first parts of a text, joined, have these very parts.
pub proof fn lemma_split_of_first_parts(s: Seq<char>, sep: Seq<char>, n: int)
    requires
        sep.len() > 0,
        0 < n <= split(s, sep).len(),
    ensures
        split(join(split(s, sep).take(n), sep), sep) == split(s, sep).take(n),
    decreases s.len(),
{
    let parts = split(s, sep);
    if contains_text(s, sep) {
        lemma_first_exists(s, sep, choose|j: int| occurs_at(s, sep, j));
        let k = choose|k: int| first_at(s, sep, k);
        let a = s.take(k);
        let rest = s.skip(k + sep.len());
        assert(parts == seq![a] + split(rest, sep));
        if n == 1 {
            assert(parts.take(1) =~= seq![a]);
            parts_are_free_of_the_separator(s, sep, 0);
            assert(join(seq![a], sep) == a);
            assert(split(a, sep) =~= seq![a]);
        } else {
            let pre = split(rest, sep).take(n - 1);
            assert(parts.take(n) =~= seq![a] + pre);
            lemma_split_of_first_parts(rest, sep, n - 1);
            lemma_first_part_is_kept(s, sep, k, pre);
        }
    } else {
        assert(parts.take(n) =~= parts);
    }
}

proof fn lemma_first_part_is_kept(s: Seq<char>, sep: Seq<char>, k: int, pre: Seq<Seq<char>>)
    requires
        sep.len() > 0,
        first_at(s, sep, k),
        pre.len() > 0,
        split(join(pre, sep), sep) == pre,
    ensures
        split(join(seq![s.take(k)] + pre, sep), sep) == seq![s.take(k)] + pre,
{
    let a = s.take(k);
    let rest = s.skip(k + sep.len());
    let x = join(pre, sep);
    let whole = a + sep + x;
    lemma_join_first(seq![a] + pre, sep);
    assert((seq![a] + pre).drop_first() =~= pre);
    assert(s =~= a + sep + rest);
    assert forall|j: int| 0 <= j < a.len() implies !occurs_at(whole, sep, j) by {
        if occurs_at(whole, sep, j) {
            lemma_earlier_occurrence(a, sep, x, rest, j);
        }
    }
    lemma_split_front(a, sep, x);
}

/// Joining two lists of parts.
pub proof fn lemma_join_concat(x: Seq<Seq<char>>, y: Seq<Seq<char>>, sep: Seq<char>)
    requires
        x.len() > 0,
        y.len() > 0,
    ensures
        join(x + y, sep) == join(x, sep) + sep + join(y, sep),
    decreases x.len(),
{
    let whole = x + y;
    lemma_join_first(whole, sep);
    if x.len() == 1 {
        assert(whole.drop_first() =~= y);
    } else {
        assert(whole.drop_first() =~= x.drop_first() + y);
        lemma_join_concat(x.drop_first(), y, sep);
        lemma_join_first(x, sep);
        assert(join(whole, sep) =~= join(x, sep) + sep + join(y, sep));
    }
}

/// `a + b` times is `a` times, then `b` times.
pub proof fn lemma_repeated_adds(piece: Seq<char>, a: nat, b: nat)
    ensures
        repeated(piece, a + b) == repeated(piece, a) + repeated(piece, b),
    decreases b,
{
    if b == 0 {
        assert(repeated(piece, a) + Seq::<char>::empty() =~= repeated(piece, a));
    } else {
        lemma_repeated_adds(piece, a, (b - 1) as nat);
        assert(repeated(piece, a + b) =~= repeated(piece, a) + repeated(piece, b));
    }
}

/// Whether `pat` stands in `s` at position `i`.
fn is_at(s: &Vec<char>, pat: &Vec<char>, i: usize) -> (r: bool)
    requires
        i <= s.len(),
    ensures
        r == occurs_at(s@, pat@, i as int),
{
    if pat.len() > s.len() - i {
        return false;
    }
    let mut k: usize = 0;
    while k < pat.len()
        invariant
            k <= pat.len(),
            i + pat.len() <= s.len(),
            forall|j: int| 0 <= j < k ==> s@[i + j] == pat@[j],
        decreases pat.len() - k,
    {
        if s[i + k] != pat[k] {
            assert(s@.subrange(i as int, i + pat.len())[k as int] != pat@[k as int]);
            return false;
        }
        k += 1;
    }
    assert(s@.subrange(i as int, i + pat.len()) =~= pat@);
    true
}

/// The parts of `s` between the occurrences of `sep`.
pub fn split_text(s: &str, sep: &str) -> (r: Vec<String>)
    requires
        sep@.len() > 0,
    ensures
        texts(r@) == split(s@, sep@),
{
    let x: Vec<char> = chars_of(s);
    let p: Vec<char> = chars_of(sep);
    let n: usize = x.len();
    let mut r: Vec<String> = Vec::new();
    let mut start: usize = 0;
    let mut i: usize = 0;
    assert(s@.skip(0) =~= s@);
    assert(texts(r@) + split(s@, sep@) =~= split(s@, sep@));
    while i < n
        invariant
            x@ == s@,
            p@ == sep@,
            n == s@.len(),
            sep@.len() > 0,
            start <= i <= n,
            texts(r@) + split(s@.skip(start as int), sep@) == split(s@, sep@),
            forall|j: int| start <= j < i ==> !#[trigger] occurs_at(s@, sep@, j),
        decreases n - i,
    {
        if is_at(&x, &p, i) {
            let ghost before = r@;
            let ghost tail = s@.skip(start as int);
            let part: String = String::from_str(s.substring_char(start, i));
            r.push(part);
            proof {
                assert forall|j: int| 0 <= j < i - start implies !occurs_at(tail, sep@, j) by {
                    assert(!occurs_at(s@, sep@, start + j));
                    if occurs_at(tail, sep@, j) {
                        assert(s@.subrange(start + j, start + j + sep@.len()) =~= tail.subrange(
                            j,
                            j + sep@.len(),
                        ));
                    }
                }
                assert(tail.subrange(i - start, i - start + sep@.len()) =~= s@.subrange(
                    i as int,
                    i + sep@.len(),
                ));
                assert(first_at(tail, sep@, i - start));
                lemma_split_at_first(tail, sep@, i - start);
                assert(tail.take(i - start) =~= s@.subrange(start as int, i as int));
                assert(tail.skip(i - start + sep@.len()) =~= s@.skip(i + sep@.len()));
                assert(texts(r@) =~= texts(before) + seq![tail.take(i - start)]);
                assert(texts(r@) + split(s@.skip(i + sep@.len()), sep@) =~= texts(before) + split(
                    tail,
                    sep@,
                ));
            }
            i = i + p.len();
            start = i;
        } else {
            i += 1;
        }
    }
    let ghost before = r@;
    let ghost tail = s@.skip(start as int);
    r.push(String::from_str(s.substring_char(start, n)));
    proof {
        assert forall|j: int| !occurs_at(tail, sep@, j) by {
            if occurs_at(tail, sep@, j) {
                assert(s@.subrange(start + j, start + j + sep@.len()) =~= tail.subrange(
                    j,
                    j + sep@.len(),
                ));
                assert(occurs_at(s@, sep@, start + j));
            }
        }
        assert(tail =~= s@.subrange(start as int, n as int));
        assert(texts(r@) =~= texts(before) + seq![tail]);
    }
    r
}

/// The parts one after the other, with `sep` between each two.
pub fn join_texts(parts: &Vec<String>, sep: &str) -> (r: String)
    ensures
        r@ == join(texts(parts@), sep@),
{
    let mut r: String = String::new();
    let mut i: usize = 0;
    assert(texts(parts@).take(0) =~= Seq::empty());
    while i < parts.len()
        invariant
            i <= parts.len(),
            r@ == join(texts(parts@).take(i as int), sep@),
        decreases parts.len() - i,
    {
        proof {
            assert(texts(parts@).take(i + 1).drop_last() =~= texts(parts@).take(i as int));
        }
        if i > 0 {
            r.append(sep);
        }
        r.append(parts[i].as_str());
        assert(i == 0 ==> r@ =~= parts@[0]@);
        i += 1;
    }
    assert(texts(parts@).take(parts.len() as int) =~= texts(parts@));
    r
}

/// `s` with every occurrence of `from` replaced by `to`.
pub fn replace_text(s: &str, from: &str, to: &str) -> (r: String)
    requires
        from@.len() > 0,
    ensures
        r@ == replace(s@, from@, to@),
{
    join_texts(&split_text(s, from), to)
}

/// `s` ends with `suffix`.
pub open spec fn ends_with(s: Seq<char>, suffix: Seq<char>) -> bool {
    suffix.is_suffix_of(s)
}

/// Whether `s` ends with `suffix`.
pub fn text_ends_with(s: &str, suffix: &str) -> (r: bool)
    ensures
        r == ends_with(s@, suffix@),
{
    let x: Vec<char> = chars_of(s);
    let p: Vec<char> = chars_of(suffix);
    if p.len() > x.len() {
        return false;
    }
    is_at(&x, &p, x.len() - p.len())
}

/// `piece`, `n` times.
pub open spec fn repeated(piece: Seq<char>, n: nat) -> Seq<char>
    decreases n,
{
    if n == 0 {
        Seq::empty()
    } else {
        repeated(piece, (n - 1) as nat) + piece
    }
}

/// `piece`, `n` times.
pub fn repeat_text(piece: &str, n: usize) -> (r: String)
    ensures
        r@ == repeated(piece@, n as nat),
{
    let mut r: String = String::new();
    let mut i: usize = 0;
    while i < n
        invariant
            i <= n,
            r@ == repeated(piece@, i as nat),
        decreases n - i,
    {
        r.append(piece);
        i += 1;
    }
    r
}

/// The decimal digits of `n`, without leading zeros.
pub open spec fn decimal(n: nat) -> Seq<char>
    decreases n,
{
    let digit = "0123456789"@.subrange((n % 10) as int, (n % 10) as int + 1);
    if n < 10 {
        digit
    } else {
        decimal(n / 10) + digit
    }
}

/// The decimal digits of `n`, without leading zeros.
pub fn decimal_text(n: usize) -> (r: String)
    ensures
        r@ == decimal(n as nat),
    decreases n,
{
    proof {
        reveal_strlit("0123456789");
    }
    let d: usize = n % 10;
    let digit: &str = "0123456789".substring_char(d, d + 1);
    if n < 10 {
        String::from_str(digit)
    } else {
        let mut r: String = decimal_text(n / 10);
        r.append(digit);
        r
    }
}

} // verus!
