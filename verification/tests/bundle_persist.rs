use crashlab_core::bundle_persist::{
    is_supported_schema, BundlePersistError, CaseBundleDocument, CASE_BUNDLE_SCHEMA_VERSION,
};
use crashlab_core::{to_bundle, CaseSeed, CrashSignature, EnvironmentFingerprint};

fn doc(schema: u32) -> CaseBundleDocument {
    CaseBundleDocument {
        schema,
        seed: CaseSeed { id: 1, payload: vec![] },
        signature: CrashSignature {
            category: "empty-input".to_string(),
            digest: 0,
            signature_hash: 0,
        },
        environment: None,
        failure_payload: vec![],
        rpc_envelope: None,
    }
}

#[test]
fn document_with_unsupported_schema_is_rejected() {
    match doc(999).into_bundle() {
        Err(BundlePersistError::UnsupportedSchema { found }) => assert_eq!(found, 999),
        _ => panic!("expected UnsupportedSchema"),
    }
    assert_eq!(
        BundlePersistError::UnsupportedSchema { found: 999 }.message(),
        "unsupported bundle schema version 999 (supported: [1, 2])"
    );
}

#[test]
fn document_with_schema_one_is_still_accepted() {
    let bundle = doc(1).into_bundle().expect("schema 1 loads");
    assert_eq!(bundle.seed.id, 1);
    assert!(bundle.rpc_envelope.is_none());
}

#[test]
fn document_round_trip_keeps_the_bundle() {
    let mut bundle = to_bundle(CaseSeed { id: 42, payload: vec![1, 2, 3] });
    bundle.failure_payload = b"panic: trap".to_vec();
    bundle.environment = Some(EnvironmentFingerprint::new("linux", "x86_64", "unix", "0.1.0"));
    let d = CaseBundleDocument::from_bundle(&bundle);
    assert_eq!(d.schema, CASE_BUNDLE_SCHEMA_VERSION);
    let back = d.into_bundle().expect("current schema loads");
    assert_eq!(back, bundle);
}

#[test]
fn supported_schemas_are_one_and_two() {
    assert!(is_supported_schema(1));
    assert!(is_supported_schema(2));
    assert!(!is_supported_schema(0));
    assert!(!is_supported_schema(3));
}
