use crashlab_core::scenario_export::{
    export_crash_report_markdown, export_rust_regression_fixture, suite_scenarios, FailureScenario,
};
use crashlab_core::{to_bundle, CaseBundle, CaseSeed, CrashSignature};

#[test]
fn scenario_contains_all_required_fields() {
    let bundle = to_bundle(CaseSeed {
        id: 123,
        payload: vec![0xAA, 0xBB, 0xCC],
    });

    let scenario = FailureScenario::from_bundle(&bundle, "invoker");

    assert_eq!(scenario.seed_id, 123);
    assert!(!scenario.input_payload.is_empty());
    assert_eq!(scenario.mode, "invoker");
    assert!(!scenario.failure_class.is_empty());
}

#[test]
fn payload_is_hex_encoded() {
    let bundle = to_bundle(CaseSeed {
        id: 1,
        payload: vec![0x01, 0x02, 0x03],
    });

    let scenario = FailureScenario::from_bundle(&bundle, "contract");

    // After mutation, payload will be different, but should still be valid hex
    assert!(
        scenario
            .input_payload
            .chars()
            .all(|c| c.is_ascii_hexdigit())
    );
    assert_eq!(scenario.input_payload.len() % 2, 0); // Even length for hex
}



#[test]
fn empty_payload_exports_successfully() {
    let bundle = to_bundle(CaseSeed {
        id: 7,
        payload: vec![],
    });

    let scenario = FailureScenario::from_bundle(&bundle, "contract");

    assert_eq!(scenario.seed_id, 7);
    assert_eq!(scenario.input_payload, ""); // Empty hex string
    assert_eq!(scenario.failure_class, "empty-input");
}

#[test]
fn different_modes_are_preserved() {
    let bundle = to_bundle(CaseSeed {
        id: 1,
        payload: vec![1],
    });

    let scenario_invoker = FailureScenario::from_bundle(&bundle, "invoker");
    let scenario_contract = FailureScenario::from_bundle(&bundle, "contract");
    let scenario_none = FailureScenario::from_bundle(&bundle, "none");

    assert_eq!(scenario_invoker.mode, "invoker");
    assert_eq!(scenario_contract.mode, "contract");
    assert_eq!(scenario_none.mode, "none");
}




#[test]
fn failure_class_matches_bundle_signature() {
    let bundle = to_bundle(CaseSeed {
        id: 50,
        payload: vec![1; 100], // Oversized
    });

    let scenario = FailureScenario::from_bundle(&bundle, "invoker");

    assert_eq!(scenario.failure_class, bundle.signature.category);
}

#[test]
fn rust_fixture_export_contains_regression_test_shape() {
    let bundle = to_bundle(CaseSeed {
        id: 42,
        payload: vec![0x0A, 0x0B, 0x0C],
    });

    let fixture = export_rust_regression_fixture(&bundle, "seed_42_runtime").unwrap();

    assert!(fixture.contains("fn seed_42_runtime()"));
    assert!(fixture.contains("CaseSeed"));
    assert!(fixture.contains("replay_seed_bundle"));
    assert!(fixture.contains("assert_eq!(result.actual.category"));
    assert!(fixture.contains("runtime-failure"));
}

#[test]
fn rust_fixture_sets_every_bundle_field() {
    let bundle = to_bundle(CaseSeed { id: 42, payload: vec![0x0A, 0x0B, 0x0C] });
    let fixture = export_rust_regression_fixture(&bundle, "seed_42_runtime").unwrap();
    for field in ["seed:", "signature:", "environment: None", "failure_payload:", "rpc_envelope: None"] {
        assert!(fixture.contains(field), "missing {}", field);
    }
}

#[test]
fn rust_fixture_export_rejects_invalid_test_name() {
    let bundle = to_bundle(CaseSeed {
        id: 8,
        payload: vec![1, 2, 3],
    });

    let err = export_rust_regression_fixture(&bundle, "seed 8 bad name").unwrap_err();
    assert!(err.contains("test name"));
}

#[test]
fn markdown_export_contains_signature_context_and_replay_command() {
    let bundle = to_bundle(CaseSeed {
        id: 77,
        payload: vec![0xAA, 0xBB],
    });

    let md = export_crash_report_markdown(
        &bundle,
        "invoker",
        "cargo run --bin replay-single-seed ./bundle.json",
    );

    assert!(md.contains("Signature Context"));
    assert!(md.contains(&bundle.signature.category));
    assert!(md.contains(&bundle.signature.digest.to_string()));
    assert!(md.contains(&bundle.signature.signature_hash.to_string()));
    assert!(md.contains("cargo run --bin replay-single-seed"));
}

// Own checks of suite ordering, hex rendering and the exported texts.

#[test]
fn suite_scenarios_are_deterministic_regardless_of_input_order() {
    let b1 = to_bundle(CaseSeed { id: 2, payload: vec![0xA0] });
    let b2 = to_bundle(CaseSeed { id: 1, payload: vec![1, 2, 3] });
    let forward = suite_scenarios(&[b1.clone(), b2.clone()], "invoker");
    let reverse = suite_scenarios(&[b2, b1], "invoker");
    assert_eq!(forward, reverse);
}

#[test]
fn suite_scenarios_order_by_seed_id_ascending() {
    let b1 = to_bundle(CaseSeed { id: 10, payload: vec![1] });
    let b2 = to_bundle(CaseSeed { id: 5, payload: vec![1] });
    let b3 = to_bundle(CaseSeed { id: 1, payload: vec![1] });
    let s = suite_scenarios(&[b1, b2, b3], "none");
    assert_eq!(s[0].seed_id, 1);
    assert_eq!(s[1].seed_id, 5);
    assert_eq!(s[2].seed_id, 10);
}

#[test]
fn suite_scenarios_of_empty_slice_is_empty() {
    assert!(suite_scenarios(&[], "invoker").is_empty());
}

#[test]
fn suite_scenarios_order_equal_ids_by_failure_class() {
    let mut a = to_bundle(CaseSeed { id: 3, payload: vec![1] });
    a.signature.category = "runtime-failure".to_string();
    let mut b = to_bundle(CaseSeed { id: 3, payload: vec![2] });
    b.signature.category = "empty-input".to_string();
    let s = suite_scenarios(&[a, b], "none");
    assert_eq!(s[0].failure_class, "empty-input");
    assert_eq!(s[1].failure_class, "runtime-failure");
}

#[test]
fn scenario_payload_is_lowercase_hex_of_the_bundle_payload() {
    let bundle = CaseBundle {
        seed: CaseSeed { id: 1, payload: vec![0x00, 0x0f, 0xab, 0xff] },
        signature: CrashSignature { category: "c".to_string(), digest: 0, signature_hash: 0 },
        environment: None,
        failure_payload: vec![],
        rpc_envelope: None,
    };
    let scenario = FailureScenario::from_bundle(&bundle, "m");
    assert_eq!(scenario.input_payload, "000fabff");
}

#[test]
fn markdown_export_exact_text() {
    let bundle = CaseBundle {
        seed: CaseSeed { id: 7, payload: vec![0xAB] },
        signature: CrashSignature { category: "auth".to_string(), digest: 12, signature_hash: 34 },
        environment: None,
        failure_payload: vec![],
        rpc_envelope: None,
    };
    let md = export_crash_report_markdown(&bundle, "invoker", "run it");
    assert_eq!(
        md,
        "# Crash Report\n\n## Signature Context\n- Category: `auth`\n- Digest: `12`\n- Signature Hash: `34`\n- Mode: `invoker`\n\n## Seed\n- Seed ID: `7`\n- Payload (hex): `ab`\n\n## Replay Command\n```bash\nrun it\n```\n"
    );
}

#[test]
fn rust_fixture_lists_payload_bytes_and_quotes_category() {
    let bundle = CaseBundle {
        seed: CaseSeed { id: 3, payload: vec![0x01, 0xfe] },
        signature: CrashSignature { category: "a\"b".to_string(), digest: 5, signature_hash: 6 },
        environment: None,
        failure_payload: vec![],
        rpc_envelope: None,
    };
    let fixture = export_rust_regression_fixture(&bundle, "_t1").unwrap();
    assert!(fixture.starts_with("#[test]\nfn _t1() {\n"));
    assert!(fixture.contains("payload: vec![0x01, 0xfe],"));
    assert!(fixture.contains("category: \"a\\\"b\".to_string(),"));
    assert!(fixture.contains("digest: 5,"));
    assert!(fixture.contains("signature_hash: 6,"));
}

#[test]
fn rust_fixture_with_empty_payload_has_empty_vec() {
    let bundle = to_bundle(CaseSeed { id: 1, payload: vec![] });
    let fixture = export_rust_regression_fixture(&bundle, "empty").unwrap();
    assert!(fixture.contains("payload: vec![],"));
}

#[test]
fn rust_fixture_rejects_names_starting_with_a_digit_or_empty() {
    let bundle = to_bundle(CaseSeed { id: 1, payload: vec![1] });
    assert!(export_rust_regression_fixture(&bundle, "1abc").is_err());
    assert_eq!(
        export_rust_regression_fixture(&bundle, "").unwrap_err(),
        "invalid test name: must be a non-empty Rust identifier (a-z, A-Z, 0-9, _)"
    );
}
