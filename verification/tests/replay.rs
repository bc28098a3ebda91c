use crashlab_core::replay::replay_seed_bundle;
use crashlab_core::{to_bundle, CaseSeed};

#[test]
fn replay_matches_original_bundle_signature() {
    let bundle = to_bundle(CaseSeed {
        id: 42,
        payload: vec![1, 2, 3, 4],
    });
    let result = replay_seed_bundle(&bundle);
    assert!(result.matches);
    assert_eq!(result.expected, result.actual);
}

#[test]
fn replay_detects_mismatched_signature() {
    let mut bundle = to_bundle(CaseSeed {
        id: 42,
        payload: vec![1, 2, 3, 4],
    });
    bundle.signature.digest = bundle.signature.digest.wrapping_add(1);
    let result = replay_seed_bundle(&bundle);
    assert!(!result.matches);
    assert_ne!(result.expected, result.actual);
}

#[test]
fn replay_reports_expected_and_recomputed_signatures() {
    let bundle = to_bundle(CaseSeed { id: 3, payload: vec![] });
    let result = replay_seed_bundle(&bundle);
    assert_eq!(result.actual.category, "empty-input");
    assert_eq!(result.expected, bundle.signature);
}
