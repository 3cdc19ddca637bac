//! The ordering of `String` values (code-point lexicographic, which is what
//! `Ord` for `String` gives) and a verified sort of character strings.

use vstd::prelude::*;
use vstd::relations::{sorted_by, total_ordering};
use vstd::seq_lib::{lemma_sorted_unique, to_multiset_build, to_multiset_insert};
use crate::text::{chars_of, string_of, string_views};

verus! {

/// `a` sorts before or equal to `b`: compared character by character, with a
/// proper prefix first.
pub open spec fn lex_le(a: Seq<char>, b: Seq<char>) -> bool
    decreases a.len(),
{
    if a.len() == 0 {
        true
    } else if b.len() == 0 {
        false
    } else if a[0] != b[0] {
        a[0] < b[0]
    } else {
        lex_le(a.drop_first(), b.drop_first())
    }
}

/// [`lex_le`] as a relation value.
pub open spec fn lex_order() -> spec_fn(Seq<char>, Seq<char>) -> bool {
    |a: Seq<char>, b: Seq<char>| lex_le(a, b)
}

/// Every string sorts before or equal to itself.
pub proof fn lemma_lex_reflexive(a: Seq<char>)
    ensures
        lex_le(a, a),
    decreases a.len(),
{
    if a.len() > 0 {
        lemma_lex_reflexive(a.drop_first());
    }
}

/// Two strings each sorting before or equal to the other are equal.
pub proof fn lemma_lex_antisymmetric(a: Seq<char>, b: Seq<char>)
    requires
        lex_le(a, b),
        lex_le(b, a),
    ensures
        a == b,
    decreases a.len(),
{
    if a.len() > 0 && b.len() > 0 {
        lemma_lex_antisymmetric(a.drop_first(), b.drop_first());
        assert(a =~= seq![a[0]] + a.drop_first());
        assert(b =~= seq![b[0]] + b.drop_first());
    } else {
        assert(a.len() == 0 && b.len() == 0);
        assert(a =~= b);
    }
}

/// [`lex_le`] is transitive.
pub proof fn lemma_lex_transitive(a: Seq<char>, b: Seq<char>, c: Seq<char>)
    requires
        lex_le(a, b),
        lex_le(b, c),
    ensures
        lex_le(a, c),
    decreases a.len(),
{
    if a.len() > 0 && b.len() > 0 && c.len() > 0 && a[0] == b[0] && b[0] == c[0] {
        lemma_lex_transitive(a.drop_first(), b.drop_first(), c.drop_first());
    }
}

/// Any two strings are ordered one way or the other.
pub proof fn lemma_lex_connected(a: Seq<char>, b: Seq<char>)
    ensures
        lex_le(a, b) || lex_le(b, a),
    decreases a.len(),
{
    if a.len() > 0 && b.len() > 0 {
        if a[0] == b[0] {
            lemma_lex_connected(a.drop_first(), b.drop_first());
        }
    }
}

/// [`lex_le`] is a total order.
pub proof fn lemma_lex_total()
    ensures
        total_ordering(lex_order()),
{
    let r = lex_order();
    assert forall|x: Seq<char>| #[trigger] r(x, x) by {
        lemma_lex_reflexive(x);
    }
    assert forall|x: Seq<char>, y: Seq<char>| #[trigger] r(x, y) && #[trigger] r(y, x) implies x
        == y by {
        lemma_lex_antisymmetric(x, y);
    }
    assert forall|x: Seq<char>, y: Seq<char>, z: Seq<char>| #[trigger] r(x, y) && #[trigger] r(
        y,
        z,
    ) implies r(x, z) by {
        lemma_lex_transitive(x, y, z);
    }
    assert forall|x: Seq<char>, y: Seq<char>| #[trigger] r(x, y) || #[trigger] r(y, x) by {
        lemma_lex_connected(x, y);
    }
}

/// Whether `a` sorts before or equal to `b`.
pub fn lex_le_exec(a: &[char], b: &[char]) -> (r: bool)
    ensures
        r == lex_le(a@, b@),
{
    let mut i: usize = 0;
    assert(a@.skip(0) =~= a@);
    assert(b@.skip(0) =~= b@);
    while i < a.len() && i < b.len() && a[i] == b[i]
        invariant
            i <= a@.len(),
            i <= b@.len(),
            lex_le(a@, b@) == lex_le(a@.skip(i as int), b@.skip(i as int)),
        decreases a@.len() - i,
    {
        assert(a@.skip(i as int).drop_first() =~= a@.skip(i + 1));
        assert(b@.skip(i as int).drop_first() =~= b@.skip(i + 1));
        i += 1;
    }
    if i == a.len() {
        true
    } else if i == b.len() {
        false
    } else {
        a[i] < b[i]
    }
}

/// The character strings held by a vector of character vectors.
pub open spec fn views(s: Seq<Vec<char>>) -> Seq<Seq<char>> {
    s.map_values(|v: Vec<char>| v@)
}

/// Sorts character strings in ascending [`lex_le`] order.
pub fn sort_lex(items: Vec<Vec<char>>) -> (r: Vec<Vec<char>>)
    ensures
        views(r@) == views(items@).sort_by(lex_order()),
{
    broadcast use vstd::seq_lib::group_to_multiset_ensures;
    broadcast use vstd::multiset::group_multiset_axioms;

    proof {
        lemma_lex_total();
    }
    let ghost orig = views(items@);
    let mut items = items;
    let mut r: Vec<Vec<char>> = Vec::new();
    assert(views(r@) =~= Seq::<Seq<char>>::empty());
    assert(views(r@).to_multiset() =~= vstd::multiset::Multiset::<Seq<char>>::empty());
    assert(views(r@).to_multiset().add(views(items@).to_multiset()) =~= orig.to_multiset());
    while items.len() > 0
        invariant
            total_ordering(lex_order()),
            sorted_by(views(r@), lex_order()),
            views(r@).to_multiset().add(views(items@).to_multiset()) == orig.to_multiset(),
        decreases items@.len(),
    {
        let ghost before_items = items@;
        let x = items.pop().unwrap();
        assert(views(before_items) =~= views(items@).push(x@));
        proof {
            to_multiset_build(views(items@), x@);
        }
        let mut p: usize = 0;
        while p < r.len() && lex_le_exec(r[p].as_slice(), x.as_slice())
            invariant
                p <= r@.len(),
                forall|k: int| 0 <= k < p ==> lex_le(#[trigger] views(r@)[k], x@),
            decreases r@.len() - p,
        {
            p += 1;
        }
        let ghost old_r = views(r@);
        r.insert(p, x);
        assert(views(r@) =~= old_r.insert(p as int, x@));
        proof {
            to_multiset_insert(old_r, p as int, x@);
            let vr = views(r@);
            assert forall|i: int, j: int| 0 <= i < j < vr.len() implies #[trigger] lex_order()(
                vr[i],
                vr[j],
            ) by {
                if p < old_r.len() {
                    lemma_lex_connected(old_r[p as int], x@);
                }
                if i < p && j == p {
                } else if i == p && j > p {
                    if j - 1 > p {
                        assert(lex_order()(old_r[p as int], old_r[j - 1]));
                    } else {
                        lemma_lex_reflexive(old_r[p as int]);
                    }
                    lemma_lex_transitive(x@, old_r[p as int], old_r[j - 1]);
                } else if i < p && j > p {
                    assert(lex_order()(old_r[i], old_r[j - 1]));
                } else if j < p {
                    assert(lex_order()(old_r[i], old_r[j]));
                } else {
                    assert(lex_order()(old_r[i - 1], old_r[j - 1]));
                }
            }
        }
    }
    assert(views(items@) =~= Seq::<Seq<char>>::empty());
    assert(views(items@).to_multiset() =~= vstd::multiset::Multiset::<Seq<char>>::empty());
    assert(views(r@).to_multiset() =~= orig.to_multiset());
    proof {
        orig.lemma_sort_by_ensures(lex_order());
        lemma_sorted_unique(views(r@), orig.sort_by(lex_order()), lex_order());
    }
    r
}

/// Sorts strings in the order of `Ord` for `String`.
pub fn sort_strings(items: Vec<String>) -> (r: Vec<String>)
    ensures
        string_views(r@) == string_views(items@).sort_by(lex_order()),
{
    let mut cs: Vec<Vec<char>> = Vec::new();
    let mut i: usize = 0;
    while i < items.len()
        invariant
            i <= items@.len(),
            views(cs@) == string_views(items@).take(i as int),
        decreases items@.len() - i,
    {
        cs.push(chars_of(items[i].as_str()));
        assert(string_views(items@).take(i + 1) =~= string_views(items@).take(i as int).push(items@[i as int]@));
        assert(views(cs@) =~= string_views(items@).take(i + 1));
        i += 1;
    }
    assert(string_views(items@).take(items@.len() as int) =~= string_views(items@));
    let sorted = sort_lex(cs);
    let mut out: Vec<String> = Vec::new();
    let mut k: usize = 0;
    while k < sorted.len()
        invariant
            k <= sorted@.len(),
            string_views(out@) == views(sorted@).take(k as int),
        decreases sorted@.len() - k,
    {
        let ghost before = string_views(out@);
        let s = string_of(sorted[k].as_slice());
        assert(s@ == views(sorted@)[k as int]);
        out.push(s);
        assert(string_views(out@) =~= before.push(s@));
        assert(views(sorted@).take(k + 1) =~= views(sorted@).take(k as int).push(views(sorted@)[k as int]));
        k += 1;
    }
    assert(views(sorted@).take(sorted@.len() as int) =~= views(sorted@));
    out
}

} // verus!
