use crashlab_core::bundle_persist::{CaseBundleDocument, CASE_BUNDLE_SCHEMA_VERSION};
use crashlab_core::fixture_compat::{check_bundle_fixtures, check_seed_fixtures};
use crashlab_core::{to_bundle, CaseSeed, CrashSignature, SeedSchema};

fn make_seed(id: u64, len: usize) -> CaseSeed {
    CaseSeed {
        id,
        payload: vec![1u8; len],
    }
}

fn make_doc(schema: u32, seed: CaseSeed) -> CaseBundleDocument {
    let sig = CrashSignature {
        category: "runtime-failure".to_string(),
        digest: 0,
        signature_hash: 0,
    };
    CaseBundleDocument {
        schema,
        seed,
        signature: sig,
        environment: None,
        failure_payload: vec![],
        rpc_envelope: None,
    }
}

#[test]
fn compatible_seeds_produce_no_warnings() {
    let seeds = vec![make_seed(1, 4), make_seed(2, 8)];
    let report = check_seed_fixtures(&seeds, &SeedSchema::default());
    assert!(report.is_compatible());
    assert!(report.warnings.is_empty());
}

#[test]
fn seed_too_short_produces_warning() {
    let seeds = vec![make_seed(1, 0)];
    let report = check_seed_fixtures(&seeds, &SeedSchema::default());
    assert!(!report.is_compatible());
    assert_eq!(report.warnings.len(), 1);
    assert_eq!(report.warnings[0].fixture_index, 0);
    assert!(report.warnings[0].message.contains("payload too short"));
}

#[test]
fn seed_too_long_produces_warning() {
    let seeds = vec![make_seed(1, 65)];
    let report = check_seed_fixtures(&seeds, &SeedSchema::default());
    assert!(!report.is_compatible());
    assert!(report.warnings[0].message.contains("payload too long"));
}

#[test]
fn multiple_invalid_seeds_all_reported() {
    let seeds = vec![make_seed(1, 0), make_seed(2, 4), make_seed(3, 65)];
    let report = check_seed_fixtures(&seeds, &SeedSchema::default());
    assert_eq!(report.warnings.len(), 2);
    assert_eq!(report.warnings[0].fixture_index, 0);
    assert_eq!(report.warnings[1].fixture_index, 2);
}

#[test]
fn warning_message_includes_fixture_index_and_seed_id() {
    let seeds = vec![make_seed(42, 0)];
    let report = check_seed_fixtures(&seeds, &SeedSchema::default());
    let msg = &report.warnings[0].message;
    assert!(msg.contains("seed[0]"));
    assert!(msg.contains("id=42"));
}

#[test]
fn compatible_bundles_produce_no_warnings() {
    let bundle = to_bundle(make_seed(1, 4));
    let doc = make_doc(CASE_BUNDLE_SCHEMA_VERSION, bundle.seed);
    let report = check_bundle_fixtures(&[doc], &SeedSchema::default());
    assert!(report.is_compatible());
}

#[test]
fn unsupported_bundle_schema_produces_warning() {
    let doc = make_doc(999, make_seed(1, 4));
    let report = check_bundle_fixtures(&[doc], &SeedSchema::default());
    assert!(!report.is_compatible());
    assert_eq!(report.warnings[0].fixture_index, 0);
    assert!(report.warnings[0].message.contains("schema version 999"));
    assert!(report.warnings[0].message.contains("re-export"));
}

#[test]
fn bundle_with_invalid_seed_produces_warning() {
    let doc = make_doc(CASE_BUNDLE_SCHEMA_VERSION, make_seed(1, 0));
    let report = check_bundle_fixtures(&[doc], &SeedSchema::default());
    assert!(!report.is_compatible());
    assert!(report.warnings[0].message.contains("payload too short"));
}

#[test]
fn bundle_with_bad_schema_and_bad_seed_produces_two_warnings() {
    let doc = make_doc(999, make_seed(1, 0));
    let report = check_bundle_fixtures(&[doc], &SeedSchema::default());
    assert_eq!(report.warnings.len(), 2);
}

#[test]
fn empty_fixture_set_is_compatible() {
    let seed_report = check_seed_fixtures(&[], &SeedSchema::default());
    let bundle_report = check_bundle_fixtures(&[], &SeedSchema::default());
    assert!(seed_report.is_compatible());
    assert!(bundle_report.is_compatible());
}

// Own checks of the exact warning texts.

#[test]
fn seed_warning_text_is_exact() {
    let report = check_seed_fixtures(&[make_seed(5, 4), make_seed(9, 70)], &SeedSchema::default());
    assert_eq!(report.warnings.len(), 1);
    assert_eq!(report.warnings[0].fixture_index, 1);
    assert_eq!(
        report.warnings[0].message,
        "seed[1] id=9: payload too long: 70 bytes (maximum 64)"
    );
}

#[test]
fn bundle_warning_texts_are_exact_and_in_order() {
    let doc = make_doc(7, make_seed(3, 0));
    let report = check_bundle_fixtures(&[doc], &SeedSchema::default());
    let messages: Vec<&str> = report.warnings.iter().map(|w| w.message.as_str()).collect();
    assert_eq!(
        messages,
        vec![
            "bundle[0] schema version 7 is not supported (supported: [1, 2]); re-export this bundle with the current engine",
            "bundle[0] seed id=3: payload too short: 0 bytes (minimum 1)",
        ]
    );
}

#[test]
fn a_schema_with_crossed_bounds_reports_both_errors() {
    let schema = SeedSchema { min_payload_len: 10, max_payload_len: 2 };
    let report = check_seed_fixtures(&[make_seed(1, 5)], &schema);
    assert_eq!(report.warnings.len(), 2);
    assert!(report.warnings[0].message.contains("payload too short"));
    assert!(report.warnings[1].message.contains("payload too long"));
}
