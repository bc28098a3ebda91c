//! Deterministic assignment of global seed indices to parallel workers.
//!
//! Worker `w` of `num_workers` runs seed index `i` iff `i % num_workers == w`.
//! The global order `0..total_seeds` is fixed, so replay can merge worker-local
//! results sorted by index and match a single-threaded run.
use vstd::prelude::*;

use crate::text::push_decimal;
use vstd::string::StringExecFns;

verus! {

/// Identifies one worker in a fixed-size pool using modulo partitioning.
#[derive(Debug, Clone, Copy, PartialEq, Eq)]
pub struct WorkerPartition {
    worker_index: u32,
    num_workers: u32,
}

/// Invalid [`WorkerPartition`] configuration.
#[derive(Debug, Clone, PartialEq, Eq, Structural)]
pub enum WorkerPartitionError {
    /// `num_workers` must be positive.
    ZeroWorkers,
    /// `worker_index` must be strictly less than `num_workers`.
    WorkerIndexOutOfRange { worker_index: u32, num_workers: u32 },
}

impl WorkerPartitionError {
    /// The error message.
    pub open spec fn spec_message(self) -> Seq<char> {
        match self {
            WorkerPartitionError::ZeroWorkers => "num_workers must be at least 1"@,
            WorkerPartitionError::WorkerIndexOutOfRange { worker_index, num_workers } => "worker_index "@
                + crate::text::spec_decimal(worker_index as nat) + " must be less than num_workers "@
                + crate::text::spec_decimal(num_workers as nat),
        }
    }

    /// Human-readable description of the error.
    pub fn message(&self) -> (r: String)
        ensures
            r@ == self.spec_message(),
    {
        match self {
            WorkerPartitionError::ZeroWorkers => String::from_str("num_workers must be at least 1"),
            WorkerPartitionError::WorkerIndexOutOfRange { worker_index, num_workers } => {
                let mut s = String::from_str("worker_index ");
                push_decimal(&mut s, *worker_index as u64);
                s.append(" must be less than num_workers ");
                push_decimal(&mut s, *num_workers as u64);
                s
            },
        }
    }
}

impl WorkerPartition {
    #[verifier::type_invariant]
    spec fn well_formed(self) -> bool {
        0 < self.num_workers && self.worker_index < self.num_workers
    }

    /// The index of this worker.
    pub closed spec fn spec_worker_index(self) -> u32 {
        self.worker_index
    }

    /// The size of the pool.
    pub closed spec fn spec_num_workers(self) -> u32 {
        self.num_workers
    }

    /// Whether the partition is valid: a non-empty pool and a worker inside it
    /// (every partition value the functions hand out is).
    pub open spec fn spec_valid(self) -> bool {
        0 < self.spec_num_workers() && self.spec_worker_index() < self.spec_num_workers()
    }

    /// Builds a partition after validating `worker_index < num_workers` and `num_workers > 0`.
    pub fn try_new(worker_index: u32, num_workers: u32) -> (r: Result<Self, WorkerPartitionError>)
        ensures
            num_workers == 0 ==> r == Err::<Self, _>(WorkerPartitionError::ZeroWorkers),
            num_workers > 0 && worker_index >= num_workers ==> r == Err::<Self, _>(
                WorkerPartitionError::WorkerIndexOutOfRange { worker_index, num_workers },
            ),
            worker_index < num_workers ==> (r matches Ok(p) && p.spec_worker_index() == worker_index
                && p.spec_num_workers() == num_workers),
            r matches Ok(p) ==> p.spec_valid(),
    {
        if num_workers == 0 {
            return Err(WorkerPartitionError::ZeroWorkers);
        }
        if worker_index >= num_workers {
            return Err(WorkerPartitionError::WorkerIndexOutOfRange { worker_index, num_workers });
        }
        Ok(WorkerPartition { worker_index, num_workers })
    }

    /// Single-worker mode: processes every index in `0..total_seeds` (same as `num_workers == 1`).
    pub fn single_worker() -> (r: Self)
        ensures
            r.spec_valid(),
            r.spec_worker_index() == 0,
            r.spec_num_workers() == 1,
    {
        WorkerPartition { worker_index: 0, num_workers: 1 }
    }

    pub fn worker_index(&self) -> (r: u32)
        ensures
            r == self.spec_worker_index(),
    {
        self.worker_index
    }

    pub fn num_workers(&self) -> (r: u32)
        ensures
            r == self.spec_num_workers(),
    {
        self.num_workers
    }

    /// Whether this worker owns `seed_index`.
    pub open spec fn spec_owns(self, seed_index: u64) -> bool {
        seed_index % (self.spec_num_workers() as u64) == self.spec_worker_index() as u64
    }

    /// Whether this worker executes the given global `seed_index`.
    pub fn owns_seed(&self, seed_index: u64) -> (r: bool)
        ensures
            r == self.spec_owns(seed_index),
    {
        proof {
            use_type_invariant(self);
        }
        seed_index % self.num_workers as u64 == self.worker_index as u64
    }

    /// The indices below `n` owned by this worker, ascending.
    pub open spec fn spec_owned_below(self, n: nat) -> Seq<u64>
        decreases n,
    {
        if n == 0 {
            seq![]
        } else {
            let prev = self.spec_owned_below((n - 1) as nat);
            if self.spec_owns((n - 1) as u64) {
                prev.push((n - 1) as u64)
            } else {
                prev
            }
        }
    }

    /// Ascending global indices in `0..total_seeds` assigned to this worker.
    pub fn seed_indices(&self, total_seeds: u64) -> (r: Vec<u64>)
        ensures
            r@ == self.spec_owned_below(total_seeds as nat),
    {
        let mut out: Vec<u64> = Vec::new();
        let mut i: u64 = 0;
        while i < total_seeds
            invariant
                i <= total_seeds,
                out@ == self.spec_owned_below(i as nat),
            decreases total_seeds - i,
        {
            if self.owns_seed(i) {
                out.push(i);
            }
            i = i + 1;
        }
        out
    }

    /// Number of seeds in `0..total_seeds` owned by this worker.
    pub fn seed_count(&self, total_seeds: u64) -> (r: u64)
        ensures
            r == self.spec_owned_below(total_seeds as nat).len(),
    {
        let mut count: u64 = 0;
        let mut i: u64 = 0;
        while i < total_seeds
            invariant
                i <= total_seeds,
                count == self.spec_owned_below(i as nat).len(),
                count <= i,
            decreases total_seeds - i,
        {
            if self.owns_seed(i) {
                count = count + 1;
            }
            i = i + 1;
        }
        count
    }
}

/// Which worker owns `seed_index` under modulo partitioning, or `None` if `num_workers == 0`.
pub fn worker_for_seed(seed_index: u64, num_workers: u32) -> (r: Option<u32>)
    ensures
        num_workers == 0 ==> r is None,
        num_workers > 0 ==> r == Some((seed_index % (num_workers as u64)) as u32),
{
    if num_workers == 0 {
        return None;
    }
    Some((seed_index % num_workers as u64) as u32)
}

/// The owned indices below `n` are exactly the indices below `n` that the
/// worker owns.
pub proof fn lemma_owned_below_members(p: WorkerPartition, n: nat, i: u64)
    ensures
        p.spec_owned_below(n).contains(i) <==> (i < n && p.spec_owns(i)),
    decreases n,
{
    if n > 0 {
        lemma_owned_below_members(p, (n - 1) as nat, i);
        let prev = p.spec_owned_below((n - 1) as nat);
        if p.spec_owns((n - 1) as u64) {
            let pushed = prev.push((n - 1) as u64);
            assert(pushed[prev.len() as int] == (n - 1) as u64);
            if pushed.contains(i) && i != (n - 1) as u64 {
                let k = choose|k: int| 0 <= k < pushed.len() && #[trigger] pushed[k] == i;
                assert(prev[k] == i);
            }
            if prev.contains(i) {
                let k = choose|k: int| 0 <= k < prev.len() && prev[k] == i;
                assert(prev.push((n - 1) as u64)[k] == i);
            }
        }
    }
}

/// The indices a worker yields below `n` are strictly ascending and all
/// below `n`.
pub proof fn law_seed_indices_ascending(p: WorkerPartition, n: nat)
    requires
        n <= u64::MAX + 1,
    ensures
        forall|i: int, j: int|
            0 <= i < j < p.spec_owned_below(n).len() ==> #[trigger] p.spec_owned_below(n)[i]
                < #[trigger] p.spec_owned_below(n)[j],
        forall|k: int| 0 <= k < p.spec_owned_below(n).len() ==> #[trigger] p.spec_owned_below(n)[k] < n,
    decreases n,
{
    if n > 0 {
        law_seed_indices_ascending(p, (n - 1) as nat);
        let prev = p.spec_owned_below((n - 1) as nat);
        let cur = p.spec_owned_below(n);
        if p.spec_owns((n - 1) as u64) {
            assert(cur == prev.push((n - 1) as u64));
            assert forall|i: int, j: int| 0 <= i < j < cur.len() implies #[trigger] cur[i] < #[trigger] cur[j] by {
                assert(cur[i] == prev[i]);
                if j < prev.len() {
                    assert(cur[j] == prev[j]);
                }
            }
            assert forall|k: int| 0 <= k < cur.len() implies #[trigger] cur[k] < n by {
                if k < prev.len() {
                    assert(cur[k] == prev[k]);
                }
            }
        }
    }
}

/// A worker of a pool of `n` runs `total / n` of the seeds below `total`, and
/// one more when its index is below `total % n`.
pub proof fn law_seed_count_closed_form(p: WorkerPartition, total: nat)
    requires
        p.spec_valid(),
        total <= u64::MAX + 1,
    ensures
        p.spec_owned_below(total).len() == total / (p.spec_num_workers() as nat) + if (
        p.spec_worker_index() as nat) < total % (p.spec_num_workers() as nat) {
            1nat
        } else {
            0nat
        },
    decreases total,
{
    let n = p.spec_num_workers() as int;
    let w = p.spec_worker_index() as int;
    if total > 0 {
        let t = total - 1;
        law_seed_count_closed_form(p, t as nat);
        vstd::arithmetic::div_mod::lemma_fundamental_div_mod(t, n);
        let q = t / n;
        let r = t % n;
        assert(n * q == q * n) by (nonlinear_arith);
        assert((q + 1) * n == q * n + n) by (nonlinear_arith);
        assert(0 <= r < n);
        assert(p.spec_owned_below(t as nat).len() == q + if w < r {
            1int
        } else {
            0int
        });
        if r + 1 < n {
            vstd::arithmetic::div_mod::lemma_fundamental_div_mod_converse(t + 1, n, q, r + 1);
            assert(total / (n as nat) == q && total % (n as nat) == r + 1);
        } else {
            vstd::arithmetic::div_mod::lemma_fundamental_div_mod_converse(t + 1, n, q + 1, 0);
            assert(total / (n as nat) == q + 1 && total % (n as nat) == 0);
        }
        assert(p.spec_owns(t as u64) <==> r == w);
        assert(p.spec_owned_below(total).len() == p.spec_owned_below(t as nat).len() + if r == w {
            1nat
        } else {
            0nat
        });
    } else {
        vstd::arithmetic::div_mod::lemma_fundamental_div_mod_converse(0, n, 0, 0);
    }
}

/// In a whole pool, each index below `total` is yielded by exactly one worker:
/// the one at position `i % pool.len()`, which [`worker_for_seed`] names.
pub proof fn law_each_index_yielded_by_one_worker(pool: Seq<WorkerPartition>, total: nat, i: u64)
    requires
        spec_is_pool(pool),
        pool.len() > 0,
        i < total,
    ensures
        pool[(i % (pool.len() as u64)) as int].spec_owned_below(total).contains(i),
        forall|w: int|
            0 <= w < pool.len() && w != (i % (pool.len() as u64)) as int
                ==> !(#[trigger] pool[w]).spec_owned_below(total).contains(i),
{
    assert(pool[0].spec_valid());
    let len = pool.len() as u64;
    assert(len == pool.len());
    assert(i % len < len);
    let owner = (i % len) as int;
    assert(pool[owner].spec_valid());
    lemma_owned_below_members(pool[owner], total, i);
    assert forall|w: int| 0 <= w < pool.len() && w != owner
        implies !(#[trigger] pool[w]).spec_owned_below(total).contains(i) by {
        assert(pool[w].spec_valid());
        lemma_owned_below_members(pool[w], total, i);
    }
}

/// Every index is owned by exactly one worker of a pool: the worker that
/// [`worker_for_seed`] names, so partitions are disjoint and cover all indices.
pub proof fn law_partitions_disjoint_and_cover(a: WorkerPartition, b: WorkerPartition, i: u64)
    requires
        a.spec_valid(),
        b.spec_valid(),
        a.spec_num_workers() == b.spec_num_workers(),
    ensures
        a.spec_owns(i) <==> a.spec_worker_index() as u64 == i % (a.spec_num_workers() as u64),
        a.spec_owns(i) && b.spec_owns(i) ==> a.spec_worker_index() == b.spec_worker_index(),
{
}

/// The single worker owns every index.
pub proof fn law_single_worker_owns_all(p: WorkerPartition, i: u64)
    requires
        p.spec_valid(),
        p.spec_num_workers() == 1,
    ensures
        p.spec_owns(i),
{
}

/// `pool` is a whole pool of `pool.len()` workers, worker `w` at position `w`.
pub open spec fn spec_is_pool(pool: Seq<WorkerPartition>) -> bool {
    forall|w: int|
        0 <= w < pool.len() ==> #[trigger] pool[w].spec_valid() && pool[w].spec_worker_index() == w
            && pool[w].spec_num_workers() == pool.len()
}

/// The seeds below `total` owned by the first `k` workers of `pool`, counted.
pub open spec fn spec_pool_count(pool: Seq<WorkerPartition>, total: nat, k: nat) -> nat
    decreases k,
{
    if k == 0 {
        0
    } else {
        spec_pool_count(pool, total, (k - 1) as nat) + pool[k - 1].spec_owned_below(total).len()
    }
}

/// The first `k` workers of a pool own index `t` once between them when `t`
/// falls to one of them, and not at all otherwise.
proof fn lemma_pool_step(pool: Seq<WorkerPartition>, t: nat, k: nat)
    requires
        spec_is_pool(pool),
        pool.len() > 0,
        k <= pool.len(),
        t <= u64::MAX,
    ensures
        spec_pool_count(pool, t + 1, k) == spec_pool_count(pool, t, k) + if (t % (pool.len() as nat))
            < k {
            1nat
        } else {
            0nat
        },
    decreases k,
{
    if k > 0 {
        lemma_pool_step(pool, t, (k - 1) as nat);
        let p = pool[k - 1];
        assert(p.spec_valid());
        assert(p.spec_owned_below(t + 1) == if p.spec_owns(t as u64) {
            p.spec_owned_below(t).push(t as u64)
        } else {
            p.spec_owned_below(t)
        });
        assert(p.spec_owns(t as u64) <==> t % (pool.len() as nat) == k - 1);
    }
}

/// The seed counts of a whole pool sum to the number of seeds: every index is
/// run by exactly one worker.
pub proof fn law_pool_counts_sum_to_total(pool: Seq<WorkerPartition>, total: nat)
    requires
        spec_is_pool(pool),
        pool.len() > 0,
        total <= u64::MAX + 1,
    ensures
        spec_pool_count(pool, total, pool.len()) == total,
    decreases total,
{
    if total == 0 {
        lemma_pool_empty(pool, pool.len());
    } else {
        law_pool_counts_sum_to_total(pool, (total - 1) as nat);
        lemma_pool_step(pool, (total - 1) as nat, pool.len());
    }
}

/// No worker owns an index below zero.
proof fn lemma_pool_empty(pool: Seq<WorkerPartition>, k: nat)
    requires
        k <= pool.len(),
    ensures
        spec_pool_count(pool, 0, k) == 0,
    decreases k,
{
    if k > 0 {
        lemma_pool_empty(pool, (k - 1) as nat);
    }
}

} // verus!
