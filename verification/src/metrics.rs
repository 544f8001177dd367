//! The counts behind the aggregate metrics: primary-motive counts within the
//! silent population, and per-team head counts with the number of members
//! that meet a condition (the climate of silence, voice and knowledge drain).

use vstd::prelude::*;

use crate::motives::MotiveLabel;
use crate::tally::{
    bucket_total, count_where, key_is, lemma_bucket_total, lemma_count_where_bounded,
    lemma_count_where_mono, lemma_count_where_step, lemma_take_full,
};

verus! {

/// Canonical index of a motive label, as a bucket key.
pub open spec fn motive_key() -> spec_fn(MotiveLabel) -> int {
    |m: MotiveLabel| m.spec_index() as int
}

/// Number of entries of `s` whose label sits at canonical position `k`.
pub open spec fn motive_count(s: Seq<MotiveLabel>, k: int) -> nat {
    count_where(s, key_is(motive_key(), k))
}

/// Sum of a sequence of counts.
pub open spec fn sum_counts(s: Seq<u64>) -> int
    decreases s.len(),
{
    if s.len() == 0 {
        0
    } else {
        sum_counts(s.drop_last()) + s.last()
    }
}

/// Counts of each primary motive (canonical order) among the primary
/// motives of the silent employees; dividing by their number gives the
/// motive mix.
pub fn primary_motive_counts(primaries: &[MotiveLabel]) -> (c: Vec<u64>)
    ensures
        c@.len() == 6,
        forall|k: int| 0 <= k < 6 ==> #[trigger] c@[k] == motive_count(primaries@, k),
        sum_counts(c@) == primaries@.len(),
{
    let mut c: Vec<u64> = Vec::new();
    let mut k: usize = 0;
    while k < 6
        invariant
            k <= 6,
            c@.len() == k,
            forall|j: int| 0 <= j < k ==> #[trigger] c@[j] == 0,
        decreases 6 - k,
    {
        c.push(0);
        k = k + 1;
    }
    let mut i: usize = 0;
    while i < primaries.len()
        invariant
            i <= primaries@.len(),
            c@.len() == 6,
            forall|j: int|
                0 <= j < 6 ==> #[trigger] c@[j] == count_where(
                    primaries@.take(i as int),
                    key_is(motive_key(), j),
                ),
        decreases primaries@.len() - i,
    {
        let idx = primaries[i].index();
        proof {
            assert forall|j: int| 0 <= j < 6 implies count_where(
                primaries@.take(i + 1),
                key_is(motive_key(), j),
            ) == count_where(primaries@.take(i as int), key_is(motive_key(), j)) + if j
                == idx {
                1nat
            } else {
                0nat
            } by {
                lemma_count_where_step(primaries@, key_is(motive_key(), j), i as int);
            }
            lemma_count_where_bounded(primaries@.take(i as int), key_is(motive_key(), idx as int));
        }
        let old_count = c[idx];
        c.set(idx, old_count + 1);
        i = i + 1;
    }
    proof {
        lemma_take_full(primaries@);
        assert forall|i: int| 0 <= i < primaries@.len() implies 0 <= #[trigger] motive_key()(
            primaries@[i],
        ) < 6 by {}
        lemma_bucket_total(primaries@, motive_key(), 6);
        reveal_with_fuel(bucket_total, 7);
        reveal_with_fuel(sum_counts, 7);
        assert(c@.drop_last().drop_last().drop_last().drop_last().drop_last().drop_last().len()
            == 0);
    }
    c
}

/// Team of a member record `(team, condition)`, as a bucket key.
pub open spec fn team_key() -> spec_fn((usize, bool)) -> int {
    |m: (usize, bool)| m.0 as int
}

/// The predicate "the member is in team `k` and meets the condition".
pub open spec fn hit_in_team(k: int) -> spec_fn((usize, bool)) -> bool {
    |m: (usize, bool)| m.0 as int == k && m.1
}

/// Per-team tally of `members`, each given as `(team, condition)`: the
/// number of members of each of the `n_teams` teams, and how many of them
/// meet the condition.
pub fn team_tally(members: &[(usize, bool)], n_teams: usize) -> (r: (Vec<u64>, Vec<u64>))
    requires
        forall|i: int| 0 <= i < members@.len() ==> (#[trigger] members@[i]).0 < n_teams,
    ensures
        r.0@.len() == n_teams,
        r.1@.len() == n_teams,
        forall|k: int|
            0 <= k < n_teams ==> #[trigger] r.0@[k] == count_where(members@, key_is(team_key(), k)),
        forall|k: int| 0 <= k < n_teams ==> #[trigger] r.1@[k] == count_where(members@, hit_in_team(k)),
        forall|k: int| 0 <= k < n_teams ==> #[trigger] r.1@[k] <= r.0@[k],
        sum_counts(r.0@) == members@.len(),
{
    let mut sizes: Vec<u64> = Vec::new();
    let mut hits: Vec<u64> = Vec::new();
    let mut k: usize = 0;
    while k < n_teams
        invariant
            k <= n_teams,
            sizes@.len() == k,
            hits@.len() == k,
            forall|j: int| 0 <= j < k ==> #[trigger] sizes@[j] == 0,
            forall|j: int| 0 <= j < k ==> #[trigger] hits@[j] == 0,
        decreases n_teams - k,
    {
        sizes.push(0);
        hits.push(0);
        k = k + 1;
    }
    let mut i: usize = 0;
    while i < members.len()
        invariant
            i <= members@.len(),
            sizes@.len() == n_teams,
            hits@.len() == n_teams,
            forall|i: int| 0 <= i < members@.len() ==> (#[trigger] members@[i]).0 < n_teams,
            forall|j: int|
                0 <= j < n_teams ==> #[trigger] sizes@[j] == count_where(
                    members@.take(i as int),
                    key_is(team_key(), j),
                ),
            forall|j: int|
                0 <= j < n_teams ==> #[trigger] hits@[j] == count_where(
                    members@.take(i as int),
                    hit_in_team(j),
                ),
        decreases members@.len() - i,
    {
        let (t, hit) = members[i];
        proof {
            assert forall|j: int| 0 <= j < n_teams implies count_where(
                members@.take(i + 1),
                key_is(team_key(), j),
            ) == count_where(members@.take(i as int), key_is(team_key(), j)) + if j == t {
                1nat
            } else {
                0nat
            } by {
                lemma_count_where_step(members@, key_is(team_key(), j), i as int);
            }
            assert forall|j: int| 0 <= j < n_teams implies count_where(
                members@.take(i + 1),
                hit_in_team(j),
            ) == count_where(members@.take(i as int), hit_in_team(j)) + if j == t && hit {
                1nat
            } else {
                0nat
            } by {
                lemma_count_where_step(members@, hit_in_team(j), i as int);
            }
            lemma_count_where_bounded(members@.take(i as int), key_is(team_key(), t as int));
            lemma_count_where_bounded(members@.take(i as int), hit_in_team(t as int));
        }
        let old_size = sizes[t];
        sizes.set(t, old_size + 1);
        if hit {
            let old_hits = hits[t];
            hits.set(t, old_hits + 1);
        }
        i = i + 1;
    }
    proof {
        lemma_take_full(members@);
        assert forall|k: int| 0 <= k < n_teams implies #[trigger] hits@[k] <= sizes@[k] by {
            assert forall|m: (usize, bool)| #[trigger] hit_in_team(k)(m) implies key_is(
                team_key(),
                k,
            )(m) by {}
            lemma_count_where_mono(members@, hit_in_team(k), key_is(team_key(), k));
        }
        assert forall|i: int| 0 <= i < members@.len() implies 0 <= #[trigger] team_key()(
            members@[i],
        ) < n_teams by {}
        lemma_bucket_total(members@, team_key(), n_teams as nat);
        lemma_sum_counts_bucket(sizes@, members@, n_teams as nat);
    }
    (sizes, hits)
}

proof fn lemma_sum_counts_bucket(sizes: Seq<u64>, members: Seq<(usize, bool)>, n: nat)
    requires
        sizes.len() == n,
        forall|k: int| 0 <= k < n ==> #[trigger] sizes[k] == count_where(members, key_is(team_key(), k)),
    ensures
        sum_counts(sizes) == bucket_total(members, team_key(), n),
    decreases n,
{
    if n > 0 {
        let t = sizes.drop_last();
        assert forall|k: int| 0 <= k < n - 1 implies #[trigger] t[k] == count_where(
            members,
            key_is(team_key(), k),
        ) by {
            assert(t[k] == sizes[k]);
        }
        lemma_sum_counts_bucket(t, members, (n - 1) as nat);
        assert(sizes.last() == sizes[n - 1]);
    }
}

} // verus!
