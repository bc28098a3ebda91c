use crashlab_core::worker_partition::{worker_for_seed, WorkerPartition, WorkerPartitionError};
use crashlab_core::{classify, mutate_seed, CaseSeed};

#[test]
fn try_new_rejects_zero_workers() {
    assert_eq!(
        WorkerPartition::try_new(0, 0).err(),
        Some(WorkerPartitionError::ZeroWorkers)
    );
}

#[test]
fn try_new_rejects_worker_index_out_of_range() {
    assert_eq!(
        WorkerPartition::try_new(3, 3).err(),
        Some(WorkerPartitionError::WorkerIndexOutOfRange {
            worker_index: 3,
            num_workers: 3,
        })
    );
}

#[test]
fn partitions_are_disjoint_and_cover_all_indices() {
    let total = 100u64;
    let n = 7u32;
    let mut seen = vec![false; total as usize];
    for w in 0..n {
        let p = WorkerPartition::try_new(w, n).expect("partition");
        for i in p.seed_indices(total) {
            assert!(!seen[i as usize], "index {i} assigned twice");
            seen[i as usize] = true;
            assert_eq!(worker_for_seed(i, n), Some(w));
        }
    }
    assert!(seen.iter().all(|&b| b));
}

#[test]
fn single_worker_owns_every_index() {
    let p = WorkerPartition::single_worker();
    assert_eq!(p.num_workers(), 1);
    for i in 0..20u64 {
        assert!(p.owns_seed(i));
    }
}

#[test]
fn seed_counts_sum_to_total() {
    let total = 50u64;
    let n = 6u32;
    let sum: u64 = (0..n)
        .map(|w| {
            WorkerPartition::try_new(w, n)
                .expect("partition")
                .seed_count(total)
        })
        .sum();
    assert_eq!(sum, total);
}

#[test]
fn merged_partition_results_match_sequential_replay() {
    let total = 40u64;
    let n = 5u32;

    let sequential: Vec<u64> = (0..total)
        .map(|i| {
            let seed = CaseSeed {
                id: i,
                payload: vec![i as u8; 3],
            };
            classify(&mutate_seed(&seed)).signature_hash
        })
        .collect();

    let mut parallel: Vec<(u64, u64)> = Vec::new();
    for w in 0..n {
        let p = WorkerPartition::try_new(w, n).expect("partition");
        for i in p.seed_indices(total) {
            let seed = CaseSeed {
                id: i,
                payload: vec![i as u8; 3],
            };
            let h = classify(&mutate_seed(&seed)).signature_hash;
            parallel.push((i, h));
        }
    }
    parallel.sort_by_key(|x| x.0);
    let merged: Vec<u64> = parallel.into_iter().map(|(_, h)| h).collect();

    assert_eq!(merged, sequential);
}

#[test]
fn seed_indices_ascend_and_each_index_has_one_worker() {
    let n = 4u32;
    let total = 23u64;
    let parts: Vec<WorkerPartition> = (0..n).map(|w| WorkerPartition::try_new(w, n).unwrap()).collect();
    for p in &parts {
        let idx = p.seed_indices(total);
        assert!(idx.windows(2).all(|w| w[0] < w[1]));
        assert!(idx.iter().all(|&i| i < total));
    }
    for i in 0..total {
        let owners: Vec<u32> = parts
            .iter()
            .filter(|p| p.seed_indices(total).contains(&i))
            .map(|p| p.worker_index())
            .collect();
        assert_eq!(owners, vec![worker_for_seed(i, n).unwrap()]);
    }
}

#[test]
fn seed_count_is_quotient_plus_one_for_low_workers() {
    let (n, total) = (6u32, 50u64);
    for w in 0..n {
        let p = WorkerPartition::try_new(w, n).unwrap();
        let expected = total / n as u64 + if (w as u64) < total % n as u64 { 1 } else { 0 };
        assert_eq!(p.seed_count(total), expected);
        assert_eq!(p.seed_indices(total).len() as u64, expected);
    }
}
