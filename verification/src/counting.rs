//! Counting facts over boolean sequences, used by the retention policies.

use vstd::prelude::*;

verus! {

/// How many entries of `s` are `true`.
pub open spec fn count_true(s: Seq<bool>) -> nat
    decreases s.len(),
{
    if s.len() == 0 {
        0
    } else {
        (if s[0] {
            1nat
        } else {
            0nat
        }) + count_true(s.drop_first())
    }
}

/// The smaller of two naturals.
pub open spec fn min_nat(a: nat, b: nat) -> nat {
    if a <= b {
        a
    } else {
        b
    }
}

/// Marks the entries of `q` that are among its last `k` true entries: an
/// entry is marked when it is true and fewer than `k` true entries follow it.
pub open spec fn latest(q: Seq<bool>, k: nat) -> Seq<bool> {
    Seq::new(q.len(), |j: int| q[j] && count_true(q.subrange(j + 1, q.len() as int)) < k)
}

/// Pointwise negation.
pub open spec fn negate(q: Seq<bool>) -> Seq<bool> {
    Seq::new(q.len(), |j: int| !q[j])
}

/// Counting the true entries of `s[i..]` step by step from the front.
pub proof fn lemma_count_step(s: Seq<bool>, i: int)
    requires
        0 <= i < s.len(),
    ensures
        count_true(s.subrange(i, s.len() as int)) == (if s[i] {
            1nat
        } else {
            0nat
        }) + count_true(s.subrange(i + 1, s.len() as int)),
{
    assert(s.subrange(i, s.len() as int).drop_first() =~= s.subrange(i + 1, s.len() as int));
}

/// There are at most as many true entries as entries.
pub proof fn lemma_count_le_len(s: Seq<bool>)
    ensures
        count_true(s) <= s.len(),
    decreases s.len(),
{
    if s.len() > 0 {
        lemma_count_le_len(s.drop_first());
    }
}

/// Counting the true entries of `s` and of its negation covers every entry once.
pub proof fn lemma_count_negate(s: Seq<bool>)
    ensures
        count_true(s) + count_true(negate(s)) == s.len(),
    decreases s.len(),
{
    if s.len() > 0 {
        assert(negate(s).drop_first() =~= negate(s.drop_first()));
        lemma_count_negate(s.drop_first());
    }
}

/// The entries selected by [`latest`] number `min(k, count_true(q))`.
pub proof fn lemma_latest_count(q: Seq<bool>, k: nat)
    ensures
        count_true(latest(q, k)) == min_nat(k, count_true(q)),
    decreases q.len(),
{
    if q.len() > 0 {
        let rest = q.drop_first();
        lemma_latest_count(rest, k);
        assert forall|j: int| 0 <= j < rest.len() implies #[trigger] latest(rest, k)[j]
            == latest(q, k)[j + 1] by {
            assert(q.subrange(j + 2, q.len() as int) =~= rest.subrange(j + 1, rest.len() as int));
        }
        assert(latest(q, k).drop_first() =~= latest(rest, k));
        assert(q.subrange(1, q.len() as int) =~= rest);
    }
}

/// When `a` implies `b` pointwise, `a` has at most as many true entries.
pub proof fn lemma_count_mono(a: Seq<bool>, b: Seq<bool>)
    requires
        a.len() == b.len(),
        forall|j: int| 0 <= j < a.len() && #[trigger] a[j] ==> b[j],
    ensures
        count_true(a) <= count_true(b),
    decreases a.len(),
{
    if a.len() > 0 {
        lemma_count_mono(a.drop_first(), b.drop_first());
    }
}

/// The true entries of a pointwise disjunction of disjoint sequences add up.
pub proof fn lemma_count_disjoint_or(a: Seq<bool>, b: Seq<bool>, c: Seq<bool>)
    requires
        a.len() == b.len() == c.len(),
        forall|j: int| 0 <= j < a.len() ==> !(#[trigger] a[j] && b[j]),
        forall|j: int| 0 <= j < a.len() ==> #[trigger] c[j] == (a[j] || b[j]),
    ensures
        count_true(c) == count_true(a) + count_true(b),
    decreases a.len(),
{
    if a.len() > 0 {
        lemma_count_disjoint_or(a.drop_first(), b.drop_first(), c.drop_first());
    }
}

/// Fewer true entries follow a later position.
pub proof fn lemma_count_suffix_mono(s: Seq<bool>, i: int, j: int)
    requires
        0 <= i <= j <= s.len(),
    ensures
        count_true(s.subrange(j, s.len() as int)) <= count_true(s.subrange(i, s.len() as int)),
    decreases j - i,
{
    if i < j {
        lemma_count_step(s, i);
        lemma_count_suffix_mono(s, i + 1, j);
    }
}

/// Counting from the back gives the same count as from the front.
pub proof fn lemma_count_last(s: Seq<bool>)
    requires
        s.len() > 0,
    ensures
        count_true(s) == count_true(s.drop_last()) + (if s.last() {
            1nat
        } else {
            0nat
        }),
    decreases s.len(),
{
    if s.len() > 1 {
        lemma_count_last(s.drop_first());
        assert(s.drop_first().drop_last() =~= s.drop_last().drop_first());
        assert(s.drop_last()[0] == s[0]);
        assert(s.drop_first().last() == s.last());
        assert(count_true(s.drop_last()) == (if s[0] {
            1nat
        } else {
            0nat
        }) + count_true(s.drop_last().drop_first()));
    } else {
        assert(count_true(s.drop_first()) == 0);
        assert(count_true(s.drop_last()) == 0);
        assert(s.last() == s[0]);
    }
}

/// Marks the entries of `q` that are among its first `k` true entries: an
/// entry is marked when it is true and fewer than `k` true entries precede it.
pub open spec fn earliest(q: Seq<bool>, k: nat) -> Seq<bool> {
    Seq::new(q.len(), |j: int| q[j] && count_true(q.take(j)) < k)
}

/// The entries selected by [`earliest`] number `min(k, count_true(q))`.
pub proof fn lemma_earliest_count(q: Seq<bool>, k: nat)
    ensures
        count_true(earliest(q, k)) == min_nat(k, count_true(q)),
    decreases q.len(),
{
    if q.len() > 0 {
        let dl = q.drop_last();
        lemma_earliest_count(dl, k);
        assert forall|j: int| 0 <= j < dl.len() implies #[trigger] earliest(dl, k)[j]
            == earliest(q, k)[j] by {
            assert(q.take(j) =~= dl.take(j));
        }
        assert(earliest(q, k).drop_last() =~= earliest(dl, k));
        assert(q.take(q.len() - 1) =~= dl);
        lemma_count_last(q);
        lemma_count_last(earliest(q, k));
    }
}

} // verus!
