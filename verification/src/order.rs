//! Sorted lists without repetition.

use crate::text::{text_order, texts};
use itertools::Itertools;
use vstd::prelude::*;
use vstd::relations::{sorted_by, total_ordering};
use vstd::seq_lib::lemma_sorted_unique;

verus! {

/// `s` lists the elements of `d`, each once, in ascending order.
pub open spec fn lists_in_order<A>(s: Seq<A>, le: spec_fn(A, A) -> bool, d: Set<A>) -> bool {
    &&& s.no_duplicates()
    &&& sorted_by(s, le)
    &&& s.to_set() == d
}

/// The elements of `d`, each once, in ascending order.
pub open spec fn ordered<A>(d: Set<A>, le: spec_fn(A, A) -> bool) -> Seq<A> {
    choose|s: Seq<A>| lists_in_order(s, le, d)
}

/// Two lists of the same elements, each once, are rearrangements of one another.
pub(crate) proof fn lemma_same_multiset<A>(x: Seq<A>, y: Seq<A>)
    requires
        x.no_duplicates(),
        y.no_duplicates(),
        x.to_set() == y.to_set(),
    ensures
        x.to_multiset() == y.to_multiset(),
{
    broadcast use vstd::seq_lib::group_to_multiset_ensures;

    x.lemma_multiset_has_no_duplicates();
    y.lemma_multiset_has_no_duplicates();
    assert forall|a: A| x.to_multiset().count(a) == y.to_multiset().count(a) by {
        assert(x.contains(a) <==> x.to_set().contains(a));
        assert(y.contains(a) <==> y.to_set().contains(a));
        assert(x.to_multiset().contains(a) <==> x.contains(a));
        assert(y.to_multiset().contains(a) <==> y.contains(a));
    }
    assert(x.to_multiset() =~= y.to_multiset());
}

/// There is only one such list.
pub proof fn lemma_ordered_is_unique<A>(s: Seq<A>, le: spec_fn(A, A) -> bool, d: Set<A>)
    requires
        total_ordering(le),
        lists_in_order(s, le, d),
    ensures
        s == ordered(d, le),
{
    let t = ordered(d, le);
    assert(lists_in_order(t, le, d));
    lemma_same_multiset(s, t);
    lemma_sorted_unique(s, t, le);
}

/// A rearrangement of a list without repetition has no repetition either, and
/// holds the same elements.
pub proof fn lemma_permutation<A>(x: Seq<A>, y: Seq<A>)
    requires
        x.no_duplicates(),
        x.to_multiset() == y.to_multiset(),
    ensures
        y.no_duplicates(),
        y.to_set() == x.to_set(),
{
    broadcast use vstd::seq_lib::group_to_multiset_ensures;

    x.lemma_multiset_has_no_duplicates();
    assert forall|a: A| x.contains(a) <==> y.contains(a) by {
        assert(x.to_multiset().contains(a) <==> x.contains(a));
        assert(y.to_multiset().contains(a) <==> y.contains(a));
    }
    assert(y.to_set() =~= x.to_set());
    y.lemma_multiset_has_no_duplicates_conv();
}

/// The elements of a finite set can be listed in order.
pub proof fn lemma_an_order_exists<A>(d: Set<A>, le: spec_fn(A, A) -> bool)
    requires
        d.finite(),
        total_ordering(le),
    ensures
        lists_in_order(ordered(d, le), le, d),
    decreases d.len(),
{
    if d.len() == 0 {
        let s = Seq::<A>::empty();
        assert(s.to_set() =~= d);
        assert(lists_in_order(s, le, d));
    } else {
        let a = d.choose();
        lemma_an_order_exists(d.remove(a), le);
        let t = ordered(d.remove(a), le);
        assert(!t.to_set().contains(a));
        assert forall|i: int| 0 <= i < t.len() implies t[i] != a by {
            assert(t.contains(t[i]));
        }
        let u = t.push(a);
        assert(u.no_duplicates());
        assert(u.to_set() =~= d) by {
            assert forall|x: A| u.to_set().contains(x) <==> d.contains(x) by {
                if x == a {
                    assert(u[t.len() as int] == a);
                }
                if t.to_set().contains(x) {
                    let i = choose|i: int| 0 <= i < t.len() && t[i] == x;
                    assert(u[i] == x);
                }
                if u.contains(x) {
                    let i = choose|i: int| 0 <= i < u.len() && u[i] == x;
                    if i < t.len() {
                        assert(t[i] == x);
                        assert(t.to_set().contains(x));
                    }
                }
            }
        }
        u.lemma_sort_by_ensures(le);
        lemma_permutation(u, u.sort_by(le));
        assert(lists_in_order(u.sort_by(le), le, d));
    }
}

/// `Itertools::sorted` on strings: the same strings in ascending order, each
/// as often as before. Strings are ordered by their bytes, which is the order
/// of their code points.
#[verifier::external_body]
pub(crate) fn sorted_strings(items: Vec<String>) -> (r: Vec<String>)
    ensures
        sorted_by(texts(r@), text_order()),
        texts(r@).to_multiset() == texts(items@).to_multiset(),
{
    items.into_iter().sorted().collect()
}

} // verus!
