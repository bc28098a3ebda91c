use crashlab_core::{
    check_bundle_replay_environment, check_replay_environment, CaseBundle, CaseSeed,
    CrashSignature, EnvironmentFingerprint,
};

#[test]
fn no_recorded_fingerprint_yields_no_warnings() {
    let current = EnvironmentFingerprint::new("linux", "x86_64", "unix", "0.1.0");
    let report = check_replay_environment(None, &current);
    assert!(!report.material_mismatch);
    assert!(report.warnings.is_empty());
}

#[test]
fn identical_recorded_and_current_is_clean() {
    let fp = EnvironmentFingerprint::new("linux", "x86_64", "unix", "0.1.0");
    let report = check_replay_environment(Some(&fp), &fp.clone());
    assert!(!report.material_mismatch);
    assert!(report.warnings.is_empty());
}

#[test]
fn os_mismatch_is_material_and_warns() {
    let recorded = EnvironmentFingerprint::new("linux", "x86_64", "unix", "0.1.0");
    let current = EnvironmentFingerprint::new("windows", "x86_64", "windows", "0.1.0");
    let report = check_replay_environment(Some(&recorded), &current);
    assert!(report.material_mismatch);
    assert!(report.warnings.iter().any(|w| w.contains("os")));
    assert!(report
        .warnings
        .iter()
        .any(|w| w.contains("linux") && w.contains("windows")));
}

#[test]
fn arch_mismatch_is_material_and_warns() {
    let recorded = EnvironmentFingerprint::new("linux", "x86_64", "unix", "0.1.0");
    let current = EnvironmentFingerprint::new("linux", "aarch64", "unix", "0.1.0");
    let report = check_replay_environment(Some(&recorded), &current);
    assert!(report.material_mismatch);
    assert!(report.warnings.iter().any(|w| w.contains("arch")));
}

#[test]
fn family_mismatch_is_material_and_warns() {
    let recorded = EnvironmentFingerprint::new("linux", "x86_64", "unix", "0.1.0");
    let current = EnvironmentFingerprint::new("linux", "x86_64", "windows", "0.1.0");
    let report = check_replay_environment(Some(&recorded), &current);
    assert!(report.material_mismatch);
    assert!(report.warnings.iter().any(|w| w.contains("family")));
}

#[test]
fn tool_version_only_difference_is_not_material() {
    let recorded = EnvironmentFingerprint::new("linux", "x86_64", "unix", "0.1.0");
    let current = EnvironmentFingerprint::new("linux", "x86_64", "unix", "9.9.9");
    let report = check_replay_environment(Some(&recorded), &current);
    assert!(!report.material_mismatch);
    assert!(report.warnings.is_empty());
}

#[test]
fn multiple_material_fields_produce_multiple_warnings() {
    let recorded = EnvironmentFingerprint::new("linux", "x86_64", "unix", "0.1.0");
    let current = EnvironmentFingerprint::new("macos", "aarch64", "unix", "0.1.0");
    let report = check_replay_environment(Some(&recorded), &current);
    assert!(report.material_mismatch);
    assert!(report.warnings.len() >= 2);
}

#[test]
fn check_bundle_delegates_to_recorded_environment() {
    let seed = CaseSeed {
        id: 1,
        payload: vec![1],
    };
    let recorded_fp = EnvironmentFingerprint::new("linux", "x86_64", "unix", "0.1.0");
    let bundle = CaseBundle {
        seed,
        signature: CrashSignature {
            category: "runtime-failure".to_string(),
            digest: 0,
            signature_hash: 0,
        },
        environment: Some(recorded_fp.clone()),
        failure_payload: Vec::new(),
        rpc_envelope: None,
    };

    let current = EnvironmentFingerprint::new("windows", "x86_64", "windows", "0.1.0");
    let report = check_bundle_replay_environment(&bundle, &current);
    assert!(report.material_mismatch);
    assert!(!report.warnings.is_empty());
}

#[test]
fn bundle_without_environment_behaves_like_none() {
    let bundle = CaseBundle {
        seed: CaseSeed {
            id: 1,
            payload: vec![1],
        },
        signature: CrashSignature {
            category: "runtime-failure".to_string(),
            digest: 0,
            signature_hash: 0,
        },
        environment: None,
        failure_payload: Vec::new(),
        rpc_envelope: None,
    };
    let current = EnvironmentFingerprint::new("linux", "x86_64", "unix", "0.1.0");
    let report = check_bundle_replay_environment(&bundle, &current);
    assert!(!report.material_mismatch);
    assert!(report.warnings.is_empty());
}
