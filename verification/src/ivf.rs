//! The inverted lists of an IVF index: which vector ids each cluster holds,
//! and the candidates that probing a ranking of clusters yields.
//!
//! Assigning vectors to clusters and ranking clusters by distance to a query
//! are the index's floating-point work; what these functions receive is
//! their result.

use std::collections::HashMap;
use vstd::prelude::*;

verus! {

broadcast use vstd::std_specs::hash::group_hash_axioms;

/// The ids, among the first `n`, whose vector was assigned to cluster `c`,
/// in the order they were given.
pub open spec fn cluster_members(ids: Seq<u64>, assignments: Seq<usize>, n: int, c: usize) -> Seq<u64>
    decreases n,
{
    if n <= 0 {
        Seq::empty()
    } else {
        let rest = cluster_members(ids, assignments, n - 1, c);
        if assignments[n - 1] == c {
            rest.push(ids[n - 1])
        } else {
            rest
        }
    }
}

/// The number of vectors that are paired with a cluster: ids and
/// assignments are paired up to the shorter of the two.
pub open spec fn paired_len(ids: Seq<u64>, assignments: Seq<usize>) -> int {
    if ids.len() <= assignments.len() {
        ids.len() as int
    } else {
        assignments.len() as int
    }
}

/// `lists` holds, for each cluster that some of the first `n` vectors were
/// assigned to, the ids of those vectors in order, and nothing else.
pub open spec fn lists_of(
    lists: Map<usize, Vec<u64>>,
    ids: Seq<u64>,
    assignments: Seq<usize>,
    n: int,
) -> bool {
    &&& forall|c: usize|
        #[trigger] lists.contains_key(c) <==> exists|i: int| 0 <= i < n && assignments[i] == c
    &&& forall|c: usize| #[trigger]
        lists.contains_key(c) ==> lists[c]@ == cluster_members(ids, assignments, n, c)
}

proof fn lemma_no_members(ids: Seq<u64>, assignments: Seq<usize>, n: int, c: usize)
    requires
        !(exists|i: int| 0 <= i < n && assignments[i] == c),
    ensures
        cluster_members(ids, assignments, n, c) == Seq::<u64>::empty(),
    decreases n,
{
    if n > 0 {
        assert(!(0 <= n - 1 < n && assignments[n - 1] == c));
        lemma_no_members(ids, assignments, n - 1, c);
    }
}

/// The inverted lists of vectors `ids` assigned to clusters `assignments`:
/// each cluster maps to the ids assigned to it, in order.
pub fn build_inverted_lists(ids: &Vec<u64>, assignments: &Vec<usize>) -> (r: HashMap<usize, Vec<u64>>)
    ensures
        lists_of(r@, ids@, assignments@, paired_len(ids@, assignments@)),
{
    let mut lists: HashMap<usize, Vec<u64>> = HashMap::new();
    let n = if ids.len() <= assignments.len() {
        ids.len()
    } else {
        assignments.len()
    };
    let mut i: usize = 0;
    while i < n
        invariant
            0 <= i <= n,
            n == paired_len(ids@, assignments@),
            lists_of(lists@, ids@, assignments@, i as int),
        decreases n - i,
    {
        let c = assignments[i];
        let id = ids[i];
        let ghost prev = lists@;
        let mut members = match lists.remove(&c) {
            Some(v) => v,
            None => Vec::new(),
        };
        members.push(id);
        lists.insert(c, members);
        proof {
            let ni = (i + 1) as int;
            assert forall|c2: usize| #[trigger] lists@.contains_key(c2) <==> exists|j: int|
                0 <= j < ni && assignments@[j] == c2 by {
                if c2 != c && lists@.contains_key(c2) {
                    let j = choose|j: int| 0 <= j < i && assignments@[j] == c2;
                    assert(0 <= j < ni && assignments@[j] == c2);
                }
                if c2 == c {
                    assert(0 <= i < ni && assignments@[i as int] == c2);
                }
            }
            assert forall|c2: usize| #[trigger] lists@.contains_key(c2) implies lists@[c2]@
                == cluster_members(ids@, assignments@, ni, c2) by {
                if c2 == c {
                    if !prev.contains_key(c) {
                        lemma_no_members(ids@, assignments@, i as int, c);
                    }
                } else {
                    assert(prev.contains_key(c2));
                }
            }
        }
        i = i + 1;
    }
    lists
}

/// The candidates of the first `k` clusters of `ranked`: their lists
/// concatenated in ranking order, clusters without a list adding nothing.
pub open spec fn probed(lists: Map<usize, Vec<u64>>, ranked: Seq<usize>, k: int) -> Seq<u64>
    decreases k,
{
    if k <= 0 {
        Seq::empty()
    } else {
        let before = probed(lists, ranked, k - 1);
        if lists.contains_key(ranked[k - 1]) {
            before + lists[ranked[k - 1]]@
        } else {
            before
        }
    }
}

/// The number of clusters probed: `nprobe`, or all of the ranking when it
/// is shorter.
pub open spec fn probe_count(ranked: Seq<usize>, nprobe: usize) -> int {
    if nprobe <= ranked.len() {
        nprobe as int
    } else {
        ranked.len() as int
    }
}

/// The candidate ids of a search: the lists of the `nprobe` best-ranked
/// clusters, in ranking order.
pub fn gather_candidates(lists: &HashMap<usize, Vec<u64>>, ranked: &Vec<usize>, nprobe: usize) -> (r: Vec<u64>)
    ensures
        r@ == probed(lists@, ranked@, probe_count(ranked@, nprobe)),
{
    let k = if nprobe <= ranked.len() {
        nprobe
    } else {
        ranked.len()
    };
    let mut out: Vec<u64> = Vec::new();
    let mut i: usize = 0;
    while i < k
        invariant
            0 <= i <= k,
            k == probe_count(ranked@, nprobe),
            k <= ranked@.len(),
            out@ == probed(lists@, ranked@, i as int),
        decreases k - i,
    {
        let c = ranked[i];
        match lists.get(&c) {
            Some(members) => {
                let ghost before = out@;
                let mut j: usize = 0;
                while j < members.len()
                    invariant
                        0 <= j <= members@.len(),
                        out@ == before + members@.take(j as int),
                    decreases members@.len() - j,
                {
                    out.push(members[j]);
                    j = j + 1;
                    assert(out@ =~= before + members@.take(j as int));
                }
                assert(members@.take(members@.len() as int) =~= members@);
            },
            None => {},
        }
        i = i + 1;
    }
    out
}

/// Every vector lands in the list of the cluster it was assigned to.
pub proof fn lemma_member_in_own_list(ids: Seq<u64>, assignments: Seq<usize>, n: int, i: int)
    requires
        0 <= i < n <= ids.len(),
        n <= assignments.len(),
    ensures
        cluster_members(ids, assignments, n, assignments[i]).contains(ids[i]),
    decreases n,
{
    if i == n - 1 {
        let m = cluster_members(ids, assignments, n, assignments[i]);
        assert(m[m.len() - 1] == ids[i]);
    } else {
        lemma_member_in_own_list(ids, assignments, n - 1, i);
        let m = cluster_members(ids, assignments, n - 1, assignments[i]);
        let j = choose|j: int| 0 <= j < m.len() && m[j] == ids[i];
        let m2 = cluster_members(ids, assignments, n, assignments[i]);
        assert(m2[j] == ids[i]);
    }
}

/// A search finds every indexed vector whose cluster is among the probed
/// ones: probing a ranking whose first `k` clusters include the cluster of
/// vector `i` yields that vector's id as a candidate.
pub proof fn lemma_probe_finds_member(
    lists: Map<usize, Vec<u64>>,
    ids: Seq<u64>,
    assignments: Seq<usize>,
    n: int,
    ranked: Seq<usize>,
    k: int,
    i: int,
    j: int,
)
    requires
        lists_of(lists, ids, assignments, n),
        0 <= i < n <= ids.len(),
        n <= assignments.len(),
        0 <= j < k <= ranked.len(),
        ranked[j] == assignments[i],
    ensures
        probed(lists, ranked, k).contains(ids[i]),
    decreases k,
{
    if j == k - 1 {
        let c = assignments[i];
        assert(lists.contains_key(c));
        lemma_member_in_own_list(ids, assignments, n, i);
        let m = lists[c]@;
        let p = m.index_of(ids[i]);
        let before = probed(lists, ranked, k - 1);
        assert((before + m)[before.len() + p] == ids[i]);
    } else {
        lemma_probe_finds_member(lists, ids, assignments, n, ranked, k - 1, i, j);
        let before = probed(lists, ranked, k - 1);
        let p = before.index_of(ids[i]);
        assert(probed(lists, ranked, k)[p] == ids[i]);
    }
}

} // verus!
