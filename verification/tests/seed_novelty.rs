use crashlab_core::seed_novelty::{
    benchmark_novelty_discovery, NoveltyPrioritizer, SeedNoveltyCandidate,
};
use crashlab_core::CaseSeed;

fn candidate(id: u64, sig: u64, diff: Option<u64>) -> SeedNoveltyCandidate {
    SeedNoveltyCandidate {
        seed: CaseSeed {
            id,
            payload: vec![id as u8],
        },
        signature_hash: sig,
        state_diff_hash: diff,
    }
}

#[test]
fn prioritizer_prefers_unseen_signature() {
    let mut p = NoveltyPrioritizer::new();
    p.record_observation(10, Some(1));
    assert!(p.novelty_score(11, Some(1)) > p.novelty_score(10, Some(1)));
}

#[test]
fn prioritizer_uses_state_diff_as_secondary_signal() {
    let mut p = NoveltyPrioritizer::new();
    p.record_observation(10, Some(1));
    assert!(p.novelty_score(10, Some(2)) > p.novelty_score(10, Some(1)));
}

#[test]
fn benchmark_improves_unique_signature_discovery() {
    let candidates = vec![
        candidate(1, 100, Some(1)),
        candidate(2, 100, Some(2)),
        candidate(3, 100, Some(3)),
        candidate(4, 200, Some(4)),
        candidate(5, 300, Some(5)),
        candidate(6, 400, Some(6)),
    ];

    let result = benchmark_novelty_discovery(&candidates, 3);
    assert!(result.prioritized_unique_signatures >= result.baseline_unique_signatures);
    assert!(result.improvement() >= 1);
}

#[test]
fn prioritize_indices_is_stable_under_ties_by_seed_id() {
    let p = NoveltyPrioritizer::new();
    let c = vec![
        candidate(3, 10, None),
        candidate(1, 11, None),
        candidate(2, 12, None),
    ];
    let idx = p.prioritize_indices(&c);
    let ordered_ids: Vec<u64> = idx.into_iter().map(|i| c[i].seed.id).collect();
    assert_eq!(ordered_ids, vec![1, 2, 3]);
}

// Own checks of the scores, the order and the benchmark.

#[test]
fn novelty_score_values() {
    let mut p = NoveltyPrioritizer::new();
    assert_eq!(p.novelty_score(1, Some(2)), 3);
    assert_eq!(p.novelty_score(1, None), 2);
    p.record_observation(1, Some(2));
    assert_eq!(p.novelty_score(1, Some(2)), 0);
    assert_eq!(p.novelty_score(1, Some(3)), 1);
    assert_eq!(p.unique_signatures_seen(), 1);
}

#[test]
fn prioritize_puts_higher_scores_first_and_keeps_ties_in_input_order() {
    let mut p = NoveltyPrioritizer::new();
    p.record_observation(10, Some(1));
    let c = vec![
        candidate(5, 10, Some(1)),
        candidate(4, 11, Some(1)),
        candidate(5, 10, Some(1)),
        candidate(3, 10, Some(9)),
    ];
    assert_eq!(p.prioritize_indices(&c), vec![1, 3, 0, 2]);
}

#[test]
fn benchmark_counts_distinct_signatures_exactly() {
    let candidates = vec![
        candidate(1, 100, Some(1)),
        candidate(2, 100, Some(2)),
        candidate(3, 100, Some(3)),
        candidate(4, 200, Some(4)),
        candidate(5, 300, Some(5)),
        candidate(6, 400, Some(6)),
    ];
    let result = benchmark_novelty_discovery(&candidates, 3);
    assert_eq!(result.baseline_unique_signatures, 1);
    assert_eq!(result.prioritized_unique_signatures, 3);
    assert_eq!(result.improvement(), 2);
    let all = benchmark_novelty_discovery(&candidates, 100);
    assert_eq!(all.baseline_unique_signatures, 4);
    assert_eq!(all.prioritized_unique_signatures, 4);
}

#[test]
fn score_after_several_observations() {
    let mut p = NoveltyPrioritizer::new();
    p.record_observation(10, Some(1));
    p.record_observation(20, None);
    p.record_observation(30, Some(5));
    assert_eq!(p.novelty_score(11, Some(1)), 2);
    assert_eq!(p.novelty_score(10, Some(2)), 1);
    assert_eq!(p.novelty_score(10, Some(1)), 0);
    assert_eq!(p.novelty_score(20, Some(5)), 0);
    assert_eq!(p.novelty_score(40, Some(6)), 3);
    assert_eq!(p.novelty_score(40, None), 2);
}
