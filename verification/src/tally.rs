//! Counting over sequences: how many entries satisfy a predicate, and how
//! entries distribute over numbered buckets.

use vstd::prelude::*;

verus! {

/// Number of entries of `s` that satisfy `p`.
pub open spec fn count_where<A>(s: Seq<A>, p: spec_fn(A) -> bool) -> nat
    decreases s.len(),
{
    if s.len() == 0 {
        0
    } else {
        count_where(s.drop_last(), p) + if p(s.last()) {
            1nat
        } else {
            0nat
        }
    }
}

/// The predicate "the key of an entry is `k`".
pub open spec fn key_is<A>(key: spec_fn(A) -> int, k: int) -> spec_fn(A) -> bool {
    |a: A| key(a) == k
}

/// Sum, over the buckets `0..n`, of the number of entries whose key names
/// that bucket.
pub open spec fn bucket_total<A>(s: Seq<A>, key: spec_fn(A) -> int, n: nat) -> nat
    decreases n,
{
    if n == 0 {
        0
    } else {
        bucket_total(s, key, (n - 1) as nat) + count_where(s, key_is(key, n - 1))
    }
}

/// Counting a prefix one entry longer adds that entry's contribution.
pub proof fn lemma_count_where_step<A>(s: Seq<A>, p: spec_fn(A) -> bool, i: int)
    requires
        0 <= i < s.len(),
    ensures
        count_where(s.take(i + 1), p) == count_where(s.take(i), p) + if p(s[i]) {
            1nat
        } else {
            0nat
        },
{
    assert(s.take(i + 1).drop_last() =~= s.take(i));
    assert(s.take(i + 1).last() == s[i]);
}

/// The whole sequence is its prefix of full length.
pub proof fn lemma_take_full<A>(s: Seq<A>)
    ensures
        s.take(s.len() as int) == s,
{
    assert(s.take(s.len() as int) =~= s);
}

/// No more entries satisfy `p` than there are entries.
pub proof fn lemma_count_where_bounded<A>(s: Seq<A>, p: spec_fn(A) -> bool)
    ensures
        count_where(s, p) <= s.len(),
    decreases s.len(),
{
    if s.len() > 0 {
        lemma_count_where_bounded(s.drop_last(), p);
    }
}

/// Entries satisfying a stronger predicate are no more than those
/// satisfying a weaker one.
pub proof fn lemma_count_where_mono<A>(s: Seq<A>, p: spec_fn(A) -> bool, q: spec_fn(A) -> bool)
    requires
        forall|a: A| #[trigger] p(a) ==> q(a),
    ensures
        count_where(s, p) <= count_where(s, q),
    decreases s.len(),
{
    if s.len() > 0 {
        lemma_count_where_mono(s.drop_last(), p, q);
    }
}

proof fn lemma_bucket_total_drop_last<A>(s: Seq<A>, key: spec_fn(A) -> int, n: nat)
    requires
        s.len() > 0,
    ensures
        bucket_total(s, key, n) == bucket_total(s.drop_last(), key, n) + if 0 <= key(s.last())
            < n {
            1nat
        } else {
            0nat
        },
    decreases n,
{
    if n > 0 {
        lemma_bucket_total_drop_last(s, key, (n - 1) as nat);
    }
}

/// When every key names one of the buckets `0..n`, the buckets together
/// hold every entry exactly once.
pub proof fn lemma_bucket_total<A>(s: Seq<A>, key: spec_fn(A) -> int, n: nat)
    requires
        forall|i: int| 0 <= i < s.len() ==> 0 <= #[trigger] key(s[i]) < n,
    ensures
        bucket_total(s, key, n) == s.len(),
    decreases s.len(),
{
    if s.len() == 0 {
        lemma_bucket_total_empty(s, key, n);
    } else {
        let t = s.drop_last();
        assert forall|i: int| 0 <= i < t.len() implies 0 <= #[trigger] key(t[i]) < n by {
            assert(t[i] == s[i]);
        }
        lemma_bucket_total(t, key, n);
        lemma_bucket_total_drop_last(s, key, n);
        assert(key(s.last()) == key(s[s.len() - 1]));
    }
}

proof fn lemma_bucket_total_empty<A>(s: Seq<A>, key: spec_fn(A) -> int, n: nat)
    requires
        s.len() == 0,
    ensures
        bucket_total(s, key, n) == 0,
    decreases n,
{
    if n > 0 {
        lemma_bucket_total_empty(s, key, (n - 1) as nat);
    }
}

} // verus!
