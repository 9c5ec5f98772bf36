//! Hand abstraction settings and the sizes of the clusters found.
use vstd::prelude::*;

verus! {

/// Configuration for hand abstraction.
pub struct AbstractionConfig {
    /// Number of buckets (clusters) per player.
    pub num_buckets: usize,
    /// Maximum k-means iterations.
    pub max_iterations: usize,
}

impl Default for AbstractionConfig {
    fn default() -> (r: Self)
        ensures
            r.num_buckets == 50,
            r.max_iterations == 100,
    {
        AbstractionConfig { num_buckets: 50, max_iterations: 100 }
    }
}

/// Number of entries of `s` equal to `c`.
pub open spec fn count_value(s: Seq<u16>, c: int) -> nat
    decreases s.len(),
{
    if s.len() == 0 {
        0
    } else {
        count_value(s.drop_last(), c) + if s.last() == c { 1nat } else { 0nat }
    }
}

proof fn lemma_count_value_bound(s: Seq<u16>, c: int)
    ensures
        count_value(s, c) <= s.len(),
    decreases s.len(),
{
    if s.len() > 0 {
        lemma_count_value_bound(s.drop_last(), c);
    }
}

/// Number of hands assigned to each of the `k` clusters; assignments outside `0..k`
/// are ignored.
pub fn cluster_sizes(assignments: &[u16], k: usize) -> (sizes: Vec<usize>)
    ensures
        sizes.len() == k,
        forall|c: int| 0 <= c < k ==> #[trigger] sizes@[c] == count_value(assignments@, c),
{
    let mut sizes: Vec<usize> = Vec::new();
    let mut j: usize = 0;
    while j < k
        invariant
            j <= k,
            sizes.len() == j,
            forall|c: int| 0 <= c < j ==> #[trigger] sizes@[c] == 0,
        decreases k - j,
    {
        sizes.push(0);
        j += 1;
    }
    let mut i: usize = 0;
    while i < assignments.len()
        invariant
            i <= assignments.len(),
            sizes.len() == k,
            forall|c: int| 0 <= c < k ==> #[trigger] sizes@[c] == count_value(assignments@.take(i as int), c),
        decreases assignments.len() - i,
    {
        assert(assignments@.take(i + 1).drop_last() =~= assignments@.take(i as int));
        let c = assignments[i] as usize;
        if c < k {
            proof {
                lemma_count_value_bound(assignments@.take(i as int), c as int);
            }
            let v = sizes[c] + 1;
            sizes.set(c, v);
        }
        i += 1;
    }
    assert(assignments@.take(assignments.len() as int) =~= assignments@);
    sizes
}

} // verus!
