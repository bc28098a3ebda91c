//! Retention policies for run artifacts: prune old failure bundles and
//! checkpoints while keeping the latest failures and the most advanced
//! checkpoints.
//!
//! An item is kept when fewer than the allowed number of items rank above it;
//! that is what keeping the first items of a stable sort by rank gives.
use vstd::prelude::*;

use crate::bundle_persist::CaseBundleDocument;
use crate::checkpoint::RunCheckpoint;

verus! {

/// Configuration for artifact retention.
#[derive(Debug, Clone, Copy, PartialEq, Eq, Structural)]
pub struct RetentionPolicy {
    /// Maximum number of failure bundles to retain (the highest seed IDs).
    pub max_failure_bundles: usize,
    /// Maximum number of checkpoints to retain per campaign (the most advanced).
    pub max_checkpoints_per_campaign: usize,
}

impl Default for RetentionPolicy {
    fn default() -> (r: Self)
        ensures
            r.max_failure_bundles == 100,
            r.max_checkpoints_per_campaign == 5,
    {
        RetentionPolicy { max_failure_bundles: 100, max_checkpoints_per_campaign: 5 }
    }
}

/// The number of positions `k < n` that rank above position `i` under `above`.
pub open spec fn spec_count_above(above: spec_fn(int, int) -> bool, i: int, n: int) -> nat
    decreases n,
{
    if n <= 0 {
        0
    } else {
        spec_count_above(above, i, n - 1) + if above(n - 1, i) {
            1nat
        } else {
            0nat
        }
    }
}

/// Bundle `j` ranks above bundle `i`: a higher seed ID, or the same ID and an
/// earlier position.
pub open spec fn spec_bundle_above(ids: Seq<u64>, j: int, i: int) -> bool {
    ids[j] > ids[i] || (ids[j] == ids[i] && j < i)
}

/// The seed IDs of bundle documents.
pub open spec fn spec_bundle_ids(bundles: Seq<CaseBundleDocument>) -> Seq<u64> {
    bundles.map_values(|b: CaseBundleDocument| b.seed.id)
}

/// Which bundles are kept: those with fewer than `max` bundles above them.
pub open spec fn spec_keep_bundles(ids: Seq<u64>, max: usize) -> Seq<bool> {
    Seq::new(
        ids.len(),
        |i: int| spec_count_above(|j: int, k: int| spec_bundle_above(ids, j, k), i, ids.len() as int) < max,
    )
}

/// Checkpoint `j` ranks above checkpoint `i`: the same campaign and either a
/// higher `next_seed_index`, or the same index and an earlier position.
pub open spec fn spec_checkpoint_above(cks: Seq<RunCheckpoint>, j: int, i: int) -> bool {
    &&& cks[j].campaign_id@ == cks[i].campaign_id@
    &&& (cks[j].next_seed_index > cks[i].next_seed_index || (cks[j].next_seed_index
        == cks[i].next_seed_index && j < i))
}

/// Which checkpoints are kept: those with fewer than `max` checkpoints of their
/// campaign above them.
pub open spec fn spec_keep_checkpoints(cks: Seq<RunCheckpoint>, max: usize) -> Seq<bool> {
    Seq::new(
        cks.len(),
        |i: int|
            spec_count_above(|j: int, k: int| spec_checkpoint_above(cks, j, k), i, cks.len() as int)
                < max,
    )
}

impl RetentionPolicy {
    /// Which bundles to retain (true = keep): the `max_failure_bundles` with the
    /// highest seed IDs, earlier positions first among equal IDs.
    pub fn retain_failure_bundles(&self, bundles: &[CaseBundleDocument]) -> (r: Vec<bool>)
        ensures
            r@ == spec_keep_bundles(spec_bundle_ids(bundles@), self.max_failure_bundles),
    {
        let ghost ids = spec_bundle_ids(bundles@);
        let ghost above = |j: int, k: int| spec_bundle_above(ids, j, k);
        let n = bundles.len();
        let mut keep: Vec<bool> = Vec::new();
        let mut i: usize = 0;
        while i < n
            invariant
                i <= n,
                n == bundles@.len(),
                ids == spec_bundle_ids(bundles@),
                above == (|j: int, k: int| spec_bundle_above(ids, j, k)),
                keep@.len() == i,
                forall|k: int|
                    0 <= k < i ==> keep@[k] == (spec_count_above(above, k, n as int)
                        < self.max_failure_bundles),
            decreases n - i,
        {
            let mut count: usize = 0;
            let mut j: usize = 0;
            while j < n
                invariant
                    j <= n,
                    i < n,
                    n == bundles@.len(),
                    ids == spec_bundle_ids(bundles@),
                    above == (|j: int, k: int| spec_bundle_above(ids, j, k)),
                    count == spec_count_above(above, i as int, j as int),
                    count <= j,
                decreases n - j,
            {
                let a = bundles[j].seed.id;
                let b = bundles[i].seed.id;
                if a > b || (a == b && j < i) {
                    count = count + 1;
                }
                j = j + 1;
            }
            keep.push(count < self.max_failure_bundles);
            i = i + 1;
        }
        assert(keep@ =~= spec_keep_bundles(ids, self.max_failure_bundles));
        keep
    }

    /// Which checkpoints to retain (true = keep): for each campaign, the
    /// `max_checkpoints_per_campaign` with the highest `next_seed_index`,
    /// earlier positions first among equal indices.
    pub fn retain_checkpoints(&self, checkpoints: &[RunCheckpoint]) -> (r: Vec<bool>)
        ensures
            r@ == spec_keep_checkpoints(checkpoints@, self.max_checkpoints_per_campaign),
    {
        let ghost cks = checkpoints@;
        let ghost above = |j: int, k: int| spec_checkpoint_above(cks, j, k);
        let n = checkpoints.len();
        let mut keep: Vec<bool> = Vec::new();
        let mut i: usize = 0;
        while i < n
            invariant
                i <= n,
                n == checkpoints@.len(),
                cks == checkpoints@,
                above == (|j: int, k: int| spec_checkpoint_above(cks, j, k)),
                keep@.len() == i,
                forall|k: int|
                    0 <= k < i ==> keep@[k] == (spec_count_above(above, k, n as int)
                        < self.max_checkpoints_per_campaign),
            decreases n - i,
        {
            let mut count: usize = 0;
            let mut j: usize = 0;
            while j < n
                invariant
                    j <= n,
                    i < n,
                    n == checkpoints@.len(),
                    cks == checkpoints@,
                    above == (|j: int, k: int| spec_checkpoint_above(cks, j, k)),
                    count == spec_count_above(above, i as int, j as int),
                    count <= j,
                decreases n - j,
            {
                let cj = &checkpoints[j];
                let ci = &checkpoints[i];
                if cj.campaign_id == ci.campaign_id && (cj.next_seed_index > ci.next_seed_index || (
                cj.next_seed_index == ci.next_seed_index && j < i)) {
                    count = count + 1;
                }
                j = j + 1;
            }
            keep.push(count < self.max_checkpoints_per_campaign);
            i = i + 1;
        }
        assert(keep@ =~= spec_keep_checkpoints(cks, self.max_checkpoints_per_campaign));
        keep
    }
}

/// If every position above `j` is above `i`, and `j` itself is above `i` but
/// not above itself, then more positions are above `i` than above `j`.
proof fn lemma_count_above_more(above: spec_fn(int, int) -> bool, i: int, j: int, n: int)
    requires
        forall|k: int| 0 <= k < n && #[trigger] above(k, j) ==> above(k, i),
        above(j, i),
        !above(j, j),
        0 <= j < n,
    ensures
        spec_count_above(above, i, n) >= spec_count_above(above, j, n) + 1,
    decreases n,
{
    if n - 1 > j {
        lemma_count_above_more(above, i, j, n - 1);
    } else {
        lemma_count_above_le(above, i, j, n - 1);
    }
}

/// If every position above `j` is above `i`, no fewer positions are above `i`.
proof fn lemma_count_above_le(above: spec_fn(int, int) -> bool, i: int, j: int, n: int)
    requires
        forall|k: int| 0 <= k < n && #[trigger] above(k, j) ==> above(k, i),
    ensures
        spec_count_above(above, i, n) >= spec_count_above(above, j, n),
    decreases n,
{
    if n > 0 {
        lemma_count_above_le(above, i, j, n - 1);
    }
}

/// Retention keeps the latest failures: a dropped bundle never has a higher
/// seed ID than a kept one.
pub proof fn law_kept_bundles_are_the_latest(ids: Seq<u64>, max: usize, i: int, j: int)
    requires
        0 <= i < ids.len(),
        0 <= j < ids.len(),
        spec_keep_bundles(ids, max)[i],
        !spec_keep_bundles(ids, max)[j],
    ensures
        ids[j] <= ids[i],
{
    let above = |a: int, b: int| spec_bundle_above(ids, a, b);
    if ids[j] > ids[i] {
        assert forall|k: int| 0 <= k < ids.len() && #[trigger] above(k, j) implies above(k, i) by {}
        lemma_count_above_more(above, i, j, ids.len() as int);
    }
}

/// Retention keeps the most advanced checkpoints: within a campaign, a dropped
/// checkpoint never has a higher `next_seed_index` than a kept one.
pub proof fn law_kept_checkpoints_are_the_most_advanced(
    cks: Seq<RunCheckpoint>,
    max: usize,
    i: int,
    j: int,
)
    requires
        0 <= i < cks.len(),
        0 <= j < cks.len(),
        cks[i].campaign_id@ == cks[j].campaign_id@,
        spec_keep_checkpoints(cks, max)[i],
        !spec_keep_checkpoints(cks, max)[j],
    ensures
        cks[j].next_seed_index <= cks[i].next_seed_index,
{
    let above = |a: int, b: int| spec_checkpoint_above(cks, a, b);
    if cks[j].next_seed_index > cks[i].next_seed_index {
        assert forall|k: int| 0 <= k < cks.len() && #[trigger] above(k, j) implies above(k, i) by {}
        lemma_count_above_more(above, i, j, cks.len() as int);
    }
}

} // verus!
