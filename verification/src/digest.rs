//! The digest builder: sorts the collected candidates by release recency,
//! deduplicates them by repository identity, and truncates the result to the
//! configured maximum.

use vstd::prelude::*;
use crate::github::{recency, repo_timestamp, spec_passes_filter, Repository};

verus! {

broadcast use vstd::seq_lib::group_to_multiset_ensures;

/// Descending order by release recency: every earlier entry is at least as
/// recent as every later one.
pub open spec fn sorted_desc(s: Seq<Repository>) -> bool {
    forall|i: int, j: int|
        0 <= i <= j < s.len() ==> repo_timestamp(s[i]) >= repo_timestamp(s[j])
}

/// No two entries share a repository identity.
pub open spec fn unique_ids(s: Seq<Repository>) -> bool {
    forall|i: int, j: int| 0 <= i < j < s.len() ==> s[i].database_id != s[j].database_id
}

/// Every entry of `digest` is at least as recent as every entry of
/// `candidates` with the same repository identity.
pub open spec fn repo_timestamps_le(candidates: Seq<Repository>, digest: Seq<Repository>) -> bool {
    forall|k: int, m: int|
        0 <= k < digest.len() && 0 <= m < candidates.len() && candidates[m].database_id
            == digest[k].database_id ==> repo_timestamp(candidates[m]) <= repo_timestamp(digest[k])
}

/// The digest keeps the most recent repositories: every candidate whose
/// repository is missing from the digest is no more recent than any digest
/// entry.
pub open spec fn keeps_most_recent(candidates: Seq<Repository>, digest: Seq<Repository>) -> bool {
    forall|k: int, m: int|
        0 <= k < digest.len() && 0 <= m < candidates.len() && !has_id(
            digest, candidates[m].database_id) ==> repo_timestamp(candidates[m])
            <= repo_timestamp(digest[k])
}

/// Whether some entry of `s` has repository identity `id`.
pub open spec fn has_id(s: Seq<Repository>, id: i64) -> bool {
    exists|k: int| 0 <= k < s.len() && s[k].database_id == id
}

/// The set of repository identities occurring in `s`.
pub open spec fn ids_of(s: Seq<Repository>) -> Set<i64>
    decreases s.len(),
{
    if s.len() == 0 {
        Set::empty()
    } else {
        ids_of(s.drop_last()).insert(s.last().database_id)
    }
}

/// `s` with every entry whose repository identity already occurred earlier
/// removed; the first occurrence of each identity is kept, in place.
pub open spec fn dedup_of(s: Seq<Repository>) -> Seq<Repository>
    decreases s.len(),
{
    if s.len() == 0 {
        Seq::empty()
    } else {
        let rest = dedup_of(s.drop_last());
        if has_id(rest, s.last().database_id) {
            rest
        } else {
            rest.push(s.last())
        }
    }
}

/// Sorts the candidates in place, most recent release first.
#[verifier::loop_isolation(false)]
pub fn sort_by_recency(v: &mut Vec<Repository>)
    ensures
        final(v)@.to_multiset() == old(v)@.to_multiset(),
        final(v)@.len() == old(v)@.len(),
        sorted_desc(final(v)@),
{
    if v.len() < 2 {
        return ;
    }
    let mut i: usize = 1;
    while i < v.len()
        invariant
            1 <= i <= v.len(),
            v@.to_multiset() == old(v)@.to_multiset(),
            v@.len() == old(v)@.len(),
            sorted_desc(v@.take(i as int)),
        decreases v@.len() - i,
    {
        let ts_i = recency(&v[i]);
        let mut j: usize = 0;
        while j < i && recency(&v[j]) >= ts_i
            invariant
                0 <= j <= i,
                forall|k: int| 0 <= k < j ==> repo_timestamp(v@[k]) >= ts_i,
            decreases i - j,
        {
            j = j + 1;
        }
        if j < i {
            let ghost pre = v@;
            let x = v.remove(i);
            v.insert(j, x);
            proof {
                assert(pre.contains(x)) by {
                    assert(pre[i as int] == x);
                }
                assert(v@.to_multiset() =~= pre.to_multiset());
                assert forall|a: int, b: int|
                    0 <= a <= b <= i implies repo_timestamp(v@[a]) >= repo_timestamp(
                    v@[b]) by {
                    assert(forall|k: int|
                        0 <= k < j ==> v@[k] == pre[k] && repo_timestamp(v@[k]) >= ts_i);
                    assert(v@[j as int] == x);
                    assert(forall|k: int| j < k <= i ==> v@[k] == pre[k - 1]);
                    assert(repo_timestamp(x) == ts_i);
                    assert(repo_timestamp(pre[j as int]) < ts_i);
                    assert forall|k: int|
                        j <= k < i implies repo_timestamp(pre[k]) <= repo_timestamp(
                        pre[j as int]) by {
                        assert(pre.take(i as int)[k] == pre[k]);
                        assert(pre.take(i as int)[j as int] == pre[j as int]);
                    }
                }
                assert(sorted_desc(v@.take(i + 1)));
            }
        } else {
            proof {
                assert(forall|k: int| 0 <= k <= i ==> v@.take(i + 1)[k] == v@[k]);
                assert(sorted_desc(v@.take(i + 1)));
            }
        }
        i = i + 1;
    }
    proof {
        assert(v@.take(v@.len() as int) =~= v@);
    }
}

/// Whether one of the first `upto` entries of `v` has identity `id`.
fn contains_id(v: &Vec<Repository>, upto: usize, id: i64) -> (r: bool)
    requires
        upto <= v.len(),
    ensures
        r == has_id(v@.take(upto as int), id),
{
    let mut j: usize = 0;
    while j < upto
        invariant
            0 <= j <= upto <= v@.len(),
            forall|k: int| 0 <= k < j ==> v@[k].database_id != id,
        decreases upto - j,
    {
        if v[j].database_id == id {
            proof {
                assert(v@.take(upto as int)[j as int].database_id == id);
            }
            return true;
        }
        j = j + 1;
    }
    proof {
        assert(forall|k: int| 0 <= k < upto ==> v@.take(upto as int)[k] == v@[k]);
    }
    false
}

/// Removes, in place, every entry whose repository identity already occurred
/// earlier, as `dedup_of` describes.
#[verifier::loop_isolation(false)]
pub fn dedup_by_id(v: &mut Vec<Repository>)
    ensures
        final(v)@ == dedup_of(old(v)@),
{
    let ghost orig = v@;
    let mut i: usize = 0;
    let ghost mut p: int = 0;
    proof {
        assert(v@ =~= dedup_of(orig.take(0)) + orig.skip(0));
    }
    while i < v.len()
        invariant
            0 <= p <= orig.len(),
            i == dedup_of(orig.take(p)).len(),
            i <= v@.len(),
            v@ == dedup_of(orig.take(p)) + orig.skip(p),
        decreases v@.len() - i,
    {
        let ghost dd = dedup_of(orig.take(p));
        proof {
            assert(orig.take(p + 1).drop_last() =~= orig.take(p));
            assert(v@[i as int] == orig.skip(p)[0]);
            assert(orig.skip(p)[0] == orig[p]);
            assert(orig.take(p + 1).last() == orig[p]);
            assert(v@.take(i as int) =~= dd);
        }
        let id = v[i].database_id;
        if contains_id(v, i, id) {
            let ghost pre = v@;
            v.remove(i);
            proof {
                p = p + 1;
                assert(dedup_of(orig.take(p)) == dd);
                assert(v@ =~= dd + orig.skip(p));
            }
        } else {
            proof {
                p = p + 1;
                assert(dedup_of(orig.take(p)) == dd.push(orig[p - 1]));
                assert(v@ =~= dedup_of(orig.take(p)) + orig.skip(p));
            }
            i = i + 1;
        }
    }
    proof {
        assert(orig.skip(p).len() == 0);
        assert(p == orig.len());
        assert(orig.take(p) =~= orig);
        assert(v@ =~= dedup_of(orig));
    }
}

/// Deduplication keeps only entries of the input.
pub proof fn lemma_dedup_subset(s: Seq<Repository>)
    ensures
        forall|x: Repository| dedup_of(s).contains(x) ==> s.contains(x),
    decreases s.len(),
{
    if s.len() > 0 {
        lemma_dedup_subset(s.drop_last());
        assert forall|x: Repository| dedup_of(s).contains(x) implies s.contains(x) by {
            let rest = dedup_of(s.drop_last());
            if rest.contains(x) {
                assert(s.drop_last().contains(x));
                let k = choose|k: int| 0 <= k < s.drop_last().len() && s.drop_last()[k] == x;
                assert(s[k] == x);
            } else {
                assert(x == s.last());
            }
        }
    }
}

/// Deduplication neither loses nor invents repository identities.
pub proof fn lemma_dedup_has_id(s: Seq<Repository>, id: i64)
    ensures
        has_id(dedup_of(s), id) == has_id(s, id),
    decreases s.len(),
{
    if s.len() > 0 {
        lemma_dedup_has_id(s.drop_last(), id);
        let rest = dedup_of(s.drop_last());
        if has_id(s, id) {
            let k = choose|k: int| 0 <= k < s.len() && s[k].database_id == id;
            if k < s.len() - 1 {
                assert(s.drop_last()[k].database_id == id);
                let m = choose|m: int| 0 <= m < rest.len() && rest[m].database_id == id;
                if has_id(rest, s.last().database_id) {
                    assert(dedup_of(s)[m].database_id == id);
                } else {
                    assert(dedup_of(s)[m].database_id == id);
                }
            } else {
                if has_id(rest, s.last().database_id) {
                    let m = choose|m: int|
                        0 <= m < rest.len() && rest[m].database_id == s.last().database_id;
                    assert(dedup_of(s)[m].database_id == id);
                } else {
                    assert(dedup_of(s).last().database_id == id);
                }
            }
        }
        if has_id(dedup_of(s), id) {
            let k = choose|k: int|
                0 <= k < dedup_of(s).len() && dedup_of(s)[k].database_id == id;
            if k < rest.len() {
                assert(rest[k].database_id == id);
                let m = choose|m: int|
                    0 <= m < s.drop_last().len() && s.drop_last()[m].database_id == id;
                assert(s[m].database_id == id);
            } else {
                assert(dedup_of(s)[k] == s.last());
                assert(s[s.len() - 1].database_id == id);
            }
        }
    }
}

/// Deduplication leaves no repeated repository identity.
pub proof fn lemma_dedup_unique(s: Seq<Repository>)
    ensures
        unique_ids(dedup_of(s)),
    decreases s.len(),
{
    if s.len() > 0 {
        lemma_dedup_unique(s.drop_last());
        let rest = dedup_of(s.drop_last());
        if !has_id(rest, s.last().database_id) {
            assert forall|a: int, b: int|
                0 <= a < b < dedup_of(s).len() implies dedup_of(s)[a].database_id != dedup_of(
                s)[b].database_id by {
                if b == dedup_of(s).len() - 1 {
                    assert(dedup_of(s)[b] == s.last());
                    assert(rest[a].database_id == s.last().database_id ==> has_id(
                        rest, s.last().database_id));
                }
            }
        }
    }
}

/// Deduplication of a recency-sorted sequence stays recency-sorted.
pub proof fn lemma_dedup_sorted(s: Seq<Repository>)
    requires
        sorted_desc(s),
    ensures
        sorted_desc(dedup_of(s)),
    decreases s.len(),
{
    if s.len() > 0 {
        assert(sorted_desc(s.drop_last()));
        lemma_dedup_sorted(s.drop_last());
        let rest = dedup_of(s.drop_last());
        if !has_id(rest, s.last().database_id) {
            lemma_dedup_subset(s.drop_last());
            assert forall|a: int, b: int|
                0 <= a <= b < dedup_of(s).len() implies repo_timestamp(dedup_of(s)[a])
                >= repo_timestamp(dedup_of(s)[b]) by {
                if b == dedup_of(s).len() - 1 && a < b {
                    let x = rest[a];
                    assert(rest.contains(x));
                    assert(s.drop_last().contains(x));
                    let m = choose|m: int|
                        0 <= m < s.drop_last().len() && s.drop_last()[m] == x;
                    assert(s[m] == x);
                    assert(repo_timestamp(s[m]) >= repo_timestamp(s.last()));
                }
            }
        }
    }
}

/// In a recency-sorted sequence, the kept first occurrence of each identity
/// is the most recent entry with that identity.
pub proof fn lemma_dedup_most_recent(s: Seq<Repository>)
    requires
        sorted_desc(s),
    ensures
        forall|k: int, m: int|
            0 <= k < dedup_of(s).len() && 0 <= m < s.len() && s[m].database_id == dedup_of(
                s)[k].database_id ==> repo_timestamp(s[m]) <= repo_timestamp(dedup_of(s)[k]),
    decreases s.len(),
{
    if s.len() > 0 {
        assert(sorted_desc(s.drop_last()));
        lemma_dedup_most_recent(s.drop_last());
        lemma_dedup_subset(s.drop_last());
        lemma_dedup_has_id(s.drop_last(), s.last().database_id);
        let d = dedup_of(s);
        let rest = dedup_of(s.drop_last());
        assert forall|k: int, m: int|
            0 <= k < d.len() && 0 <= m < s.len() && s[m].database_id == d[k].database_id
            implies repo_timestamp(s[m]) <= repo_timestamp(d[k]) by {
            if k < rest.len() {
                assert(d[k] == rest[k]);
                if m < s.len() - 1 {
                    assert(s.drop_last()[m] == s[m]);
                } else {
                    assert(rest.contains(rest[k]));
                    assert(s.drop_last().contains(rest[k]));
                    let q = choose|q: int|
                        0 <= q < s.drop_last().len() && s.drop_last()[q] == rest[k];
                    assert(s[q] == rest[k]);
                    assert(repo_timestamp(s[q]) >= repo_timestamp(s.last()));
                }
            } else {
                assert(d[k] == s.last());
                if m < s.len() - 1 {
                    assert(!has_id(rest, s.last().database_id));
                    assert(s.drop_last()[m].database_id == s.last().database_id);
                    assert(has_id(s.drop_last(), s.last().database_id));
                    assert(false);
                }
            }
        }
    }
}

/// The identity set of a sequence is finite, and under unique identities its
/// size is the sequence's length.
pub proof fn lemma_ids_len(s: Seq<Repository>)
    ensures
        ids_of(s).finite(),
        ids_of(s).len() <= s.len(),
        unique_ids(s) ==> ids_of(s).len() == s.len(),
        forall|id: i64| ids_of(s).contains(id) == has_id(s, id),
    decreases s.len(),
{
    if s.len() == 0 {
        assert(forall|id: i64| !has_id(s, id));
    } else {
        lemma_ids_len(s.drop_last());
        assert forall|id: i64| ids_of(s).contains(id) == has_id(s, id) by {
            assert(ids_of(s) == ids_of(s.drop_last()).insert(s.last().database_id));
            assert(ids_of(s.drop_last()).contains(id) == has_id(s.drop_last(), id));
            if ids_of(s).contains(id) {
                if id == s.last().database_id {
                    assert(s[s.len() - 1].database_id == id);
                    assert(has_id(s, id));
                } else {
                    assert(ids_of(s.drop_last()).contains(id));
                    assert(has_id(s.drop_last(), id));
                    let k = choose|k: int|
                        0 <= k < s.drop_last().len() && s.drop_last()[k].database_id == id;
                    assert(s[k].database_id == id);
                    assert(has_id(s, id));
                }
            }
            if has_id(s, id) {
                let k = choose|k: int| 0 <= k < s.len() && s[k].database_id == id;
                if k < s.len() - 1 {
                    assert(s.drop_last()[k].database_id == id);
                    assert(has_id(s.drop_last(), id));
                    assert(ids_of(s).contains(id));
                } else {
                    assert(id == s.last().database_id);
                    assert(ids_of(s).contains(id));
                }
            }
        }
        if unique_ids(s) {
            assert(unique_ids(s.drop_last()));
            assert(!has_id(s.drop_last(), s.last().database_id)) by {
                if has_id(s.drop_last(), s.last().database_id) {
                    let k = choose|k: int|
                        0 <= k < s.drop_last().len() && s.drop_last()[k].database_id == s.last().database_id;
                    assert(s[k].database_id == s[s.len() - 1].database_id);
                    assert(false);
                }
            }
            assert(!ids_of(s.drop_last()).contains(s.last().database_id));
        } else {
            assert(unique_ids(s.drop_last()) ==> ids_of(s.drop_last()).len() == s.drop_last().len());
        }
    }
}

/// Two sequences with the same contents hold the same repository identities.
pub proof fn lemma_has_id_permutation(s: Seq<Repository>, t: Seq<Repository>, id: i64)
    requires
        s.to_multiset() == t.to_multiset(),
    ensures
        has_id(s, id) == has_id(t, id),
{
    if has_id(s, id) {
        let k = choose|k: int| 0 <= k < s.len() && s[k].database_id == id;
        assert(s.contains(s[k]));
        assert(t.to_multiset().contains(s[k]));
        assert(t.contains(s[k]));
        let m = choose|m: int| 0 <= m < t.len() && t[m] == s[k];
        assert(t[m].database_id == id);
    }
    if has_id(t, id) {
        let k = choose|k: int| 0 <= k < t.len() && t[k].database_id == id;
        assert(t.contains(t[k]));
        assert(s.to_multiset().contains(t[k]));
        assert(s.contains(t[k]));
        let m = choose|m: int| 0 <= m < s.len() && s[m] == t[k];
        assert(s[m].database_id == id);
    }
}

/// Sequences with equal identity membership have equal identity sets.
proof fn lemma_ids_of_same(s: Seq<Repository>, t: Seq<Repository>)
    requires
        forall|id: i64| has_id(s, id) == has_id(t, id),
    ensures
        ids_of(s) == ids_of(t),
{
    lemma_ids_len(s);
    lemma_ids_len(t);
    assert forall|id: i64| ids_of(s).contains(id) == ids_of(t).contains(id) by {
        assert(ids_of(s).contains(id) == has_id(s, id));
        assert(ids_of(t).contains(id) == has_id(t, id));
        assert(has_id(s, id) == has_id(t, id));
    }
    assert(ids_of(s) =~= ids_of(t));
}

/// Builds the digest: sorts the collected candidates most recent first,
/// drops every repeated repository identity but the first, and truncates the
/// result to at most `max_digest_size` entries.
///
/// The digest is recency-sorted, has pairwise distinct repository
/// identities, holds as many entries as the bound and the number of distinct
/// identities allow, and each entry is a collected candidate at least as
/// recent as every collected candidate of the same repository.
pub fn build_digest(candidates: Vec<Repository>, max_digest_size: usize) -> (digest: Vec<
    Repository>)
    ensures
        digest@.len() <= max_digest_size,
        digest@.len() == if ids_of(candidates@).len() <= max_digest_size {
            ids_of(candidates@).len() as int
        } else {
            max_digest_size as int
        },
        sorted_desc(digest@),
        unique_ids(digest@),
        forall|k: int| 0 <= k < digest@.len() ==> candidates@.contains(digest@[k]),
        repo_timestamps_le(candidates@, digest@),
        keeps_most_recent(candidates@, digest@),
{
    let ghost input = candidates@;
    let mut v = candidates;
    sort_by_recency(&mut v);
    let ghost sorted = v@;
    dedup_by_id(&mut v);
    proof {
        lemma_dedup_unique(sorted);
        lemma_dedup_sorted(sorted);
        lemma_dedup_subset(sorted);
        lemma_dedup_most_recent(sorted);
        lemma_ids_len(v@);
        assert forall|id: i64| has_id(input, id) == has_id(v@, id) by {
            lemma_has_id_permutation(input, sorted, id);
            lemma_dedup_has_id(sorted, id);
        }
        lemma_ids_of_same(v@, input);
        assert(v@.len() == ids_of(input).len());
        // Entries of the deduplicated sequence come from the input.
        assert forall|k: int| 0 <= k < v@.len() implies input.contains(v@[k]) by {
            assert(v@.contains(v@[k]));
            assert(sorted.contains(v@[k]));
            assert(input.to_multiset().contains(v@[k]));
        }
        // Each kept entry is at least as recent as every input entry of the
        // same repository.
        assert forall|k: int, m: int|
            0 <= k < v@.len() && 0 <= m < input.len() && input[m].database_id
                == v@[k].database_id implies repo_timestamp(input[m]) <= repo_timestamp(
            v@[k]) by {
            assert(input.contains(input[m]));
            assert(sorted.to_multiset().contains(input[m]));
            assert(sorted.contains(input[m]));
            let q = choose|q: int| 0 <= q < sorted.len() && sorted[q] == input[m];
            assert(sorted[q].database_id == v@[k].database_id);
        }
    }
    let ghost deduped = v@;
    v.truncate(max_digest_size);
    proof {
        if max_digest_size <= deduped.len() {
            assert(v@ == deduped.subrange(0, max_digest_size as int));
            assert(forall|k: int| 0 <= k < v@.len() ==> v@[k] == deduped[k]);
        } else {
            assert(v@ == deduped);
        }
        assert forall|k: int, m: int|
            0 <= k < v@.len() && 0 <= m < input.len() && !has_id(
                v@, input[m].database_id) implies repo_timestamp(input[m]) <= repo_timestamp(
            v@[k]) by {
            let id = input[m].database_id;
            assert(has_id(input, id)) by {
                assert(input[m].database_id == id);
            }
            lemma_has_id_permutation(input, sorted, id);
            lemma_dedup_has_id(sorted, id);
            assert(has_id(deduped, id));
            let p = choose|p: int| 0 <= p < deduped.len() && deduped[p].database_id == id;
            assert(p >= v@.len()) by {
                if p < v@.len() {
                    assert(v@[p].database_id == id);
                    assert(has_id(v@, id));
                }
            }
            // The kept first occurrence is the most recent entry with this
            // identity, and everything past the cut is no more recent than
            // anything before it.
            assert(input.contains(input[m]));
            assert(sorted.to_multiset().contains(input[m]));
            assert(sorted.contains(input[m]));
            let q = choose|q: int| 0 <= q < sorted.len() && sorted[q] == input[m];
            assert(sorted[q].database_id == deduped[p].database_id);
            assert(repo_timestamp(sorted[q]) <= repo_timestamp(deduped[p]));
            assert(repo_timestamp(deduped[p]) <= repo_timestamp(deduped[k]));
            assert(v@[k] == deduped[k]);
        }
    }
    v
}

/// Every digest entry passes the release filter when every collected
/// candidate did: the digest never holds a prerelease or a missing release.
pub proof fn lemma_digest_filtered(candidates: Seq<Repository>, digest: Seq<Repository>)
    requires
        forall|m: int| 0 <= m < candidates.len() ==> spec_passes_filter(candidates[m]),
        forall|k: int| 0 <= k < digest.len() ==> candidates.contains(digest[k]),
    ensures
        forall|k: int| 0 <= k < digest.len() ==> spec_passes_filter(digest[k]),
{
    assert forall|k: int| 0 <= k < digest.len() implies spec_passes_filter(digest[k]) by {
        let m = choose|m: int| 0 <= m < candidates.len() && candidates[m] == digest[k];
        assert(spec_passes_filter(candidates[m]));
    }
}

} // verus!
