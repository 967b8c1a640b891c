//! The convergence check: after recentering, find the largest squared
//! displacement between any cluster's current and previous centroid, and
//! stop the loop when the (Euclidean) displacement of every centroid is
//! strictly below the cluster count. The comparison is done on squares —
//! `sqrt(d) < k` exactly when `d < k*k` — so no square root is taken.

use vstd::prelude::*;

use crate::cluster::Cluster;
use crate::color::lemma_shift_sq_bounds;
use crate::color::shift_sq;
use crate::color::spec_shift_sq;

verus! {

/// The largest squared centroid displacement across a cluster list (zero
/// for an empty list).
pub open spec fn max_shift_sq(cs: Seq<Cluster>) -> int
    decreases cs.len(),
{
    if cs.len() == 0 {
        0
    } else {
        let rest = max_shift_sq(cs.drop_last());
        let last = spec_shift_sq(cs.last().center, cs.last().prev_center);
        if last > rest {
            last
        } else {
            rest
        }
    }
}

/// The maximum displacement is nonnegative, dominates every cluster's own
/// displacement, and never exceeds the largest squared color distance.
pub proof fn lemma_max_shift_sq_dominates(cs: Seq<Cluster>)
    ensures
        0 <= max_shift_sq(cs) <= 195075,
        forall|i: int|
            0 <= i < cs.len() ==> #[trigger] spec_shift_sq(cs[i].center, cs[i].prev_center)
                <= max_shift_sq(cs),
    decreases cs.len(),
{
    if cs.len() > 0 {
        lemma_max_shift_sq_dominates(cs.drop_last());
        lemma_shift_sq_bounds(cs.last().center, cs.last().prev_center);
        assert(forall|i: int| 0 <= i < cs.len() - 1 ==> cs.drop_last()[i] == cs[i]);
    }
}

/// The stopping rule: every centroid moved strictly less than the cluster
/// count (in Euclidean distance), stated on squares.
pub open spec fn is_converged(cs: Seq<Cluster>) -> bool {
    max_shift_sq(cs) < cs.len() * cs.len()
}

/// The largest squared centroid displacement across the cluster list.
pub fn max_center_shift_sq(clusters: &Vec<Cluster>) -> (m: u32)
    ensures
        m == max_shift_sq(clusters@),
{
    let mut m: u32 = 0;
    let mut i: usize = 0;
    while i < clusters.len()
        invariant
            i <= clusters@.len(),
            m == max_shift_sq(clusters@.take(i as int)),
        decreases clusters@.len() - i,
    {
        let cl = &clusters[i];
        let d = shift_sq(cl.center, cl.prev_center);
        proof {
            assert(clusters@.take(i as int + 1).drop_last() =~= clusters@.take(i as int));
            assert(clusters@.take(i as int + 1).last() == clusters@[i as int]);
        }
        if d > m {
            m = d;
        }
        i += 1;
    }
    proof {
        assert(clusters@.take(clusters@.len() as int) =~= clusters@);
    }
    m
}

/// Whether the loop may stop: the largest centroid displacement is
/// strictly below the cluster count.
pub fn check_convergence(clusters: &Vec<Cluster>) -> (c: bool)
    ensures
        c == is_converged(clusters@),
{
    let m = max_center_shift_sq(clusters);
    proof {
        lemma_max_shift_sq_dominates(clusters@);
    }
    let k = clusters.len();
    match k.checked_mul(k) {
        Some(kk) => (m as usize) < kk,
        None => true,
    }
}

} // verus!
