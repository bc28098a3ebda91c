use crashlab_core::bundle_persist::CaseBundleDocument;
use crashlab_core::checkpoint::RunCheckpoint;
use crashlab_core::retention::RetentionPolicy;
use crashlab_core::taxonomy::FailureClass;
use crashlab_core::{CaseSeed, CrashSignature};

#[test]
fn test_retain_failure_bundles() {
    let policy = RetentionPolicy {
        max_failure_bundles: 2,
        max_checkpoints_per_campaign: 1,
    };

    let bundles = vec![
        CaseBundleDocument {
            schema: 1,
            seed: CaseSeed {
                id: 1,
                payload: vec![1],
            },
            signature: CrashSignature {
                category: FailureClass::Auth.to_string(),
                digest: 1,
                signature_hash: 1,
            },
            environment: None,
            failure_payload: vec![],
            rpc_envelope: None,
        },
        CaseBundleDocument {
            schema: 1,
            seed: CaseSeed {
                id: 3,
                payload: vec![3],
            },
            signature: CrashSignature {
                category: FailureClass::Budget.to_string(),
                digest: 3,
                signature_hash: 3,
            },
            environment: None,
            failure_payload: vec![],
            rpc_envelope: None,
        },
        CaseBundleDocument {
            schema: 1,
            seed: CaseSeed {
                id: 2,
                payload: vec![2],
            },
            signature: CrashSignature {
                category: FailureClass::State.to_string(),
                digest: 2,
                signature_hash: 2,
            },
            environment: None,
            failure_payload: vec![],
            rpc_envelope: None,
        },
    ];

    let keep = policy.retain_failure_bundles(&bundles);
    assert_eq!(keep, vec![false, true, true]); // keep id 3 and 2 (highest), not 1
}

#[test]
fn test_retain_checkpoints() {
    let policy = RetentionPolicy {
        max_failure_bundles: 1,
        max_checkpoints_per_campaign: 1,
    };

    let checkpoints = vec![
        RunCheckpoint {
            schema: 1,
            campaign_id: "camp1".to_string(),
            next_seed_index: 10,
            total_seeds: 100,
        },
        RunCheckpoint {
            schema: 1,
            campaign_id: "camp1".to_string(),
            next_seed_index: 20,
            total_seeds: 100,
        },
        RunCheckpoint {
            schema: 1,
            campaign_id: "camp2".to_string(),
            next_seed_index: 5,
            total_seeds: 50,
        },
    ];

    let keep = policy.retain_checkpoints(&checkpoints);
    assert_eq!(keep, vec![false, true, true]); // keep the highest for camp1 (index 1), and for camp2 (index 2)
}

// Own checks of the retention windows.

#[test]
fn retention_keeps_earlier_positions_among_equal_ids() {
    let policy = RetentionPolicy { max_failure_bundles: 1, max_checkpoints_per_campaign: 1 };
    let doc = |id: u64| CaseBundleDocument {
        schema: 2,
        seed: CaseSeed { id, payload: vec![] },
        signature: CrashSignature { category: "x".to_string(), digest: 0, signature_hash: 0 },
        environment: None,
        failure_payload: vec![],
        rpc_envelope: None,
    };
    let bundles = vec![doc(4), doc(4), doc(1)];
    assert_eq!(policy.retain_failure_bundles(&bundles), vec![true, false, false]);
}

#[test]
fn retention_default_policy_windows() {
    let policy = RetentionPolicy::default();
    assert_eq!(policy.max_failure_bundles, 100);
    assert_eq!(policy.max_checkpoints_per_campaign, 5);
}

#[test]
fn retention_with_zero_window_keeps_nothing() {
    let policy = RetentionPolicy { max_failure_bundles: 0, max_checkpoints_per_campaign: 0 };
    let cks = vec![RunCheckpoint {
        schema: 1,
        campaign_id: "a".to_string(),
        next_seed_index: 1,
        total_seeds: 2,
    }];
    assert_eq!(policy.retain_checkpoints(&cks), vec![false]);
}
