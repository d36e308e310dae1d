//! What the operations on texts do.

use crate::text::{
    contains_text, decimal, decimal_text, ends_with, first_at, is_text_le, join, join_texts,
    lemma_first_exists, lemma_join_first, lemma_split_front, occurs_at, repeat_text, repeated,
    replace, replace_text, same_text, split, split_is_not_empty, split_text, text_ends_with,
    text_le, texts,
};
use vstd::prelude::*;

verus! {

/// Texts that first differ in one character are ordered by its code point.
pub proof fn the_first_difference_decides(
    common: Seq<char>,
    x: char,
    y: char,
    a: Seq<char>,
    b: Seq<char>,
)
    requires
        x != y,
    ensures
        text_le(common + seq![x] + a, common + seq![y] + b) <==> (x as int) < (y as int),
    decreases common.len(),
{
    let s = common + seq![x] + a;
    let t = common + seq![y] + b;
    if common.len() == 0 {
        assert(s[0] == x && t[0] == y);
    } else {
        let rest = common.drop_first();
        assert(s[0] == common[0] && t[0] == common[0]);
        assert(s.drop_first() =~= rest + seq![x] + a);
        assert(t.drop_first() =~= rest + seq![y] + b);
        the_first_difference_decides(rest, x, y, a, b);
    }
}

/// A text comes before its continuations, and not after.
pub proof fn a_prefix_comes_first(s: Seq<char>, more: Seq<char>)
    ensures
        text_le(s, s + more),
        text_le(s + more, s) <==> more.len() == 0,
    decreases s.len(),
{
    if s.len() > 0 {
        assert((s + more).drop_first() =~= s.drop_first() + more);
        assert((s + more)[0] == s[0]);
        a_prefix_comes_first(s.drop_first(), more);
    }
}

/// What is told of two texts is told of their characters.
pub proof fn texts_are_compared_by_their_characters(a: &str, b: &str, le: bool, same: bool)
    requires
        call_ensures(is_text_le, (a, b), le),
        call_ensures(same_text, (a, b), same),
    ensures
        le == text_le(a@, b@),
        same == (a@ == b@),
        same ==> le,
{
    if same {
        a_prefix_comes_first(a@, Seq::empty());
        assert(a@ + Seq::<char>::empty() =~= a@);
    }
}

/// Where the separator first occurs, right after `a`, the text is split: `a` is
/// the first part, and what follows is split in turn.
pub proof fn a_text_is_split_where_the_separator_occurs(
    a: Seq<char>,
    sep: Seq<char>,
    b: Seq<char>,
)
    requires
        sep.len() > 0,
        forall|j: int| 0 <= j < a.len() ==> !occurs_at(a + sep + b, sep, j),
    ensures
        split(a + sep + b, sep).len() == split(b, sep).len() + 1,
        split(a + sep + b, sep)[0] == a,
        forall|i: int|
            0 <= i < split(b, sep).len() ==> #[trigger] split(b, sep)[i] == split(
                a + sep + b,
                sep,
            )[i + 1],
{
    lemma_split_front(a, sep, b);
}

/// A text in which the separator does not occur has one part, itself.
pub proof fn a_text_without_separator_is_one_part(s: Seq<char>, sep: Seq<char>)
    requires
        !contains_text(s, sep),
    ensures
        split(s, sep).len() == 1,
        split(s, sep)[0] == s,
{
}

/// One part joined is that part; a further part comes behind a separator.
pub proof fn parts_are_joined_in_order(parts: Seq<Seq<char>>, part: Seq<char>, sep: Seq<char>)
    ensures
        join(seq![part], sep) == part,
        parts.len() > 0 ==> join(parts.push(part), sep) == join(parts, sep) + sep + part,
        join(Seq::empty(), sep).len() == 0,
{
    if parts.len() > 0 {
        assert(parts.push(part).drop_last() =~= parts);
    }
}

/// The first occurrence of what is replaced gives way to its replacement; what
/// comes before stays, and what comes behind is replaced in turn.
pub proof fn an_occurrence_is_replaced(
    a: Seq<char>,
    from: Seq<char>,
    b: Seq<char>,
    to: Seq<char>,
)
    requires
        from.len() > 0,
        forall|j: int| 0 <= j < a.len() ==> !occurs_at(a + from + b, from, j),
    ensures
        replace(a + from + b, from, to) == a + to + replace(b, from, to),
{
    lemma_split_front(a, from, b);
    split_is_not_empty(b, from);
    let parts = split(a + from + b, from);
    lemma_join_first(parts, to);
    assert(parts.drop_first() =~= split(b, from));
}

/// Replacing one character by another touches no other.
pub proof fn characters_are_replaced_one_by_one(s: Seq<char>, x: char, y: char)
    ensures
        replace(s, seq![x], seq![y]).len() == s.len(),
        forall|i: int|
            0 <= i < s.len() ==> #[trigger] replace(s, seq![x], seq![y])[i] == if s[i] == x {
                y
            } else {
                s[i]
            },
    decreases s.len(),
{
    let from = seq![x];
    let to = seq![y];
    let r = replace(s, from, to);
    if contains_text(s, from) {
        lemma_first_exists(s, from, choose|j: int| occurs_at(s, from, j));
        let k = choose|k: int| first_at(s, from, k);
        let a = s.take(k);
        let b = s.skip(k + 1);
        assert(s.subrange(k, k + 1)[0] == x);
        assert(s =~= a + from + b);
        an_occurrence_is_replaced(a, from, b, to);
        characters_are_replaced_one_by_one(b, x, y);
        assert forall|i: int| 0 <= i < s.len() implies #[trigger] r[i] == if s[i] == x {
            y
        } else {
            s[i]
        } by {
            if i < k {
                if s[i] == x {
                    assert(s.subrange(i, i + 1) =~= from);
                    assert(occurs_at(s, from, i));
                }
                assert(r[i] == a[i]);
            } else if i > k {
                assert(r[i] == replace(b, from, to)[i - k - 1]);
                assert(b[i - k - 1] == s[i]);
            }
        }
    } else {
        assert(r == s);
        assert forall|i: int| 0 <= i < s.len() implies s[i] != x by {
            if s[i] == x {
                assert(s.subrange(i, i + 1) =~= from);
                assert(occurs_at(s, from, i));
            }
        }
    }
}

/// What splitting, joining and replacing give are the parts, the joined and the
/// replaced text.
pub proof fn texts_are_split_joined_and_replaced(
    s: &str,
    sep: &str,
    to: &str,
    list: &Vec<String>,
    parts: Vec<String>,
    joined: String,
    replaced: String,
)
    requires
        call_ensures(split_text, (s, sep), parts),
        call_ensures(join_texts, (list, sep), joined),
        call_ensures(replace_text, (s, sep, to), replaced),
    ensures
        parts@.len() == split(s@, sep@).len(),
        forall|i: int|
            0 <= i < parts@.len() ==> (#[trigger] parts@[i])@ == split(s@, sep@)[i],
        joined@ == join(Seq::new(list@.len(), |i: int| list@[i]@), sep@),
        replaced@ == replace(s@, sep@, to@),
{
    assert(Seq::new(list@.len(), |i: int| list@[i]@) =~= texts(list@));
    assert forall|i: int| 0 <= i < parts@.len() implies (#[trigger] parts@[i])@ == split(
        s@,
        sep@,
    )[i] by {
        assert(texts(parts@)[i] == parts@[i]@);
    }
}

/// A text ends with another if and only if something followed by the other
/// makes it up.
pub proof fn an_end_is_what_comes_last(s: &str, suffix: &str, r: bool)
    requires
        call_ensures(text_ends_with, (s, suffix), r),
    ensures
        r <==> exists|a: Seq<char>| s@ == #[trigger] (a + suffix@),
        r == ends_with(s@, suffix@),
{
    if r {
        let a = s@.take(s@.len() - suffix@.len());
        assert(s@ =~= a + suffix@);
    }
    if exists|a: Seq<char>| s@ == #[trigger] (a + suffix@) {
        let a = choose|a: Seq<char>| s@ == #[trigger] (a + suffix@);
        assert(s@.subrange(s@.len() - suffix@.len(), s@.len() as int) =~= suffix@);
    }
}

/// A repeated text is as long as its repetitions, and goes round.
pub proof fn a_repeated_text_goes_round(piece: Seq<char>, n: nat, k: nat, i: int)
    requires
        k < n,
        0 <= i < piece.len(),
    ensures
        repeated(piece, n).len() == n * piece.len(),
        repeated(piece, n)[k * piece.len() + i] == piece[i],
    decreases n,
{
    lemma_repeated_len(piece, n);
    lemma_repeated_len(piece, (n - 1) as nat);
    lemma_repeated_len(piece, k);
    let before = repeated(piece, (n - 1) as nat);
    if k < n - 1 {
        a_repeated_text_goes_round(piece, (n - 1) as nat, k, i);
        assert(k * piece.len() + i < (n - 1) * piece.len()) by (nonlinear_arith)
            requires
                k < n - 1,
                0 <= i < piece.len(),
        ;
    } else {
        assert(k * piece.len() == before.len());
    }
}

proof fn lemma_repeated_len(piece: Seq<char>, n: nat)
    ensures
        repeated(piece, n).len() == n * piece.len(),
    decreases n,
{
    if n > 0 {
        lemma_repeated_len(piece, (n - 1) as nat);
        assert(n * piece.len() == (n - 1) * piece.len() + piece.len()) by (nonlinear_arith);
    } else {
        assert(0 * piece.len() == 0) by (nonlinear_arith);
    }
}

/// What repeating gives is the repeated text.
pub proof fn texts_are_repeated(piece: &str, n: usize, r: String)
    requires
        call_ensures(repeat_text, (piece, n), r),
    ensures
        r@ == repeated(piece@, n as nat),
        r@.len() == n * piece@.len(),
{
    lemma_repeated_len(piece@, n as nat);
}

/// The number that digits stand for.
pub open spec fn value_of(digits: Seq<char>) -> int
    decreases digits.len(),
{
    if digits.len() == 0 {
        0
    } else {
        value_of(digits.drop_last()) * 10 + (digits.last() as int - 48)
    }
}

/// The decimal form of a number is made of digits that stand for it, without a
/// zero at the front of others.
pub proof fn digits_stand_for_their_number(n: nat)
    ensures
        value_of(decimal(n)) == n,
        decimal(n).len() > 0,
        forall|i: int|
            0 <= i < decimal(n).len() ==> 48 <= (#[trigger] decimal(n)[i]) as int <= 57,
        decimal(n)[0] == '0' ==> n == 0 && decimal(n).len() == 1,
    decreases n,
{
    reveal_strlit("0123456789");
    let d = (n % 10) as int;
    let digit = "0123456789"@.subrange(d, d + 1);
    assert(digit[0] as int == 48 + d) by {
        assert(d == 0 || d == 1 || d == 2 || d == 3 || d == 4 || d == 5 || d == 6 || d == 7 || d
            == 8 || d == 9);
    }
    assert(digit.drop_last() =~= Seq::<char>::empty());
    assert(value_of(digit.drop_last()) == 0);
    if n < 10 {
        assert(decimal(n) == digit);
        assert(digit.last() == digit[0]);
        assert(value_of(digit) == d);
    } else {
        digits_stand_for_their_number(n / 10);
        let front = decimal(n / 10);
        assert(decimal(n) == front + digit);
        assert(decimal(n).drop_last() =~= front);
        assert(decimal(n).last() == digit[0]);
        assert(decimal(n)[0] == front[0]);
        assert forall|i: int| 0 <= i < decimal(n).len() implies 48 <= (
        #[trigger] decimal(n)[i]) as int <= 57 by {
            if i < front.len() {
                assert(decimal(n)[i] == front[i]);
            } else {
                assert(decimal(n)[i] == digit[0]);
            }
        }
    }
}

/// What writing a number gives is its decimal form.
pub proof fn numbers_are_written_in_digits(n: usize, r: String)
    requires
        call_ensures(decimal_text, (n,), r),
    ensures
        r@ == decimal(n as nat),
        value_of(r@) == n,
{
    digits_stand_for_their_number(n as nat);
}

} // verus!
