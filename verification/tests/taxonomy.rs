use crashlab_core::taxonomy::{classify_failure, group_by_class, FailureClass};
use crashlab_core::CaseSeed;

fn seed(payload: Vec<u8>) -> CaseSeed {
    CaseSeed { id: 0, payload }
}

// ── classify_failure: structural rules ───────────────────────────────────

#[test]
fn empty_payload_is_empty_input() {
    assert_eq!(classify_failure(&seed(vec![])), FailureClass::EmptyInput);
}

#[test]
fn payload_of_65_bytes_is_oversized() {
    assert_eq!(
        classify_failure(&seed(vec![0x00; 65])),
        FailureClass::OversizedInput
    );
}

#[test]
fn payload_of_exactly_64_bytes_uses_byte_discriminant() {
    // 64-byte payload with first byte 0xA0 → Auth, not OversizedInput
    let p: Vec<u8> = std::iter::once(0xA0).chain(vec![0x01; 63]).collect();
    assert_eq!(classify_failure(&seed(p)), FailureClass::Auth);
}

// ── classify_failure: byte discriminant boundaries ───────────────────────

#[test]
fn first_byte_0x00_is_xdr() {
    assert_eq!(classify_failure(&seed(vec![0x00])), FailureClass::Xdr);
}

#[test]
fn first_byte_0x1f_is_xdr() {
    assert_eq!(classify_failure(&seed(vec![0x1F])), FailureClass::Xdr);
}

#[test]
fn first_byte_0x20_is_state() {
    assert_eq!(classify_failure(&seed(vec![0x20])), FailureClass::State);
}

#[test]
fn first_byte_0x5f_is_state() {
    assert_eq!(classify_failure(&seed(vec![0x5F])), FailureClass::State);
}

#[test]
fn first_byte_0x60_is_budget() {
    assert_eq!(classify_failure(&seed(vec![0x60])), FailureClass::Budget);
}

#[test]
fn first_byte_0x9f_is_budget() {
    assert_eq!(classify_failure(&seed(vec![0x9F])), FailureClass::Budget);
}

#[test]
fn first_byte_0xa0_is_auth() {
    assert_eq!(classify_failure(&seed(vec![0xA0])), FailureClass::Auth);
}

#[test]
fn first_byte_0xff_is_auth() {
    assert_eq!(classify_failure(&seed(vec![0xFF])), FailureClass::Auth);
}

// ── classify_failure: classification is stable across calls ──────────────

#[test]
fn same_seed_always_maps_to_same_class() {
    let s = seed(vec![0x70, 0x01, 0x02]);
    assert_eq!(classify_failure(&s), classify_failure(&s));
}

// ── FailureClass::as_str ─────────────────────────────────────────────────

#[test]
fn as_str_returns_stable_labels() {
    assert_eq!(FailureClass::Auth.as_str(), "auth");
    assert_eq!(FailureClass::Budget.as_str(), "budget");
    assert_eq!(FailureClass::State.as_str(), "state");
    assert_eq!(FailureClass::Xdr.as_str(), "xdr");
    assert_eq!(FailureClass::InvalidEnumTag.as_str(), "invalid-enum-tag");
    assert_eq!(FailureClass::EmptyInput.as_str(), "empty-input");
    assert_eq!(FailureClass::OversizedInput.as_str(), "oversized-input");
    assert_eq!(FailureClass::Unknown.as_str(), "unknown");
}

#[test]
fn taxonomy_display_matches_as_str() {
    for class in FailureClass::ALL {
        assert_eq!(class.to_string(), class.as_str());
    }
}

#[test]
fn all_contains_seven_variants() {
    assert_eq!(FailureClass::ALL.len(), 8);
}

#[test]
fn invalid_enum_tag_is_classified_distinctly() {
    let seed = CaseSeed {
        id: 0,
        payload: vec![0xE0, 0xFF],
    };
    assert_eq!(classify_failure(&seed), FailureClass::InvalidEnumTag);
}

// ── group_by_class ───────────────────────────────────────────────────────

#[test]
fn groups_seeds_into_correct_classes() {
    let seeds = vec![
        seed(vec![]),     // EmptyInput
        seed(vec![0xA0]), // Auth
        seed(vec![0xB5]), // Auth
        seed(vec![0x10]), // Xdr
        seed(vec![0x30]), // State
        seed(vec![0x70]), // Budget
    ];
    let groups = group_by_class(&seeds);

    assert_eq!(groups.get(&FailureClass::EmptyInput).unwrap().len(), 1);
    assert_eq!(groups.get(&FailureClass::Auth).unwrap().len(), 2);
    assert_eq!(groups.get(&FailureClass::Xdr).unwrap().len(), 1);
    assert_eq!(groups.get(&FailureClass::State).unwrap().len(), 1);
    assert_eq!(groups.get(&FailureClass::Budget).unwrap().len(), 1);
}

#[test]
fn absent_classes_not_in_map() {
    let seeds = vec![seed(vec![0xA0])]; // Auth only
    let groups = group_by_class(&seeds);

    assert!(groups.contains_key(&FailureClass::Auth));
    assert!(!groups.contains_key(&FailureClass::EmptyInput));
    assert!(!groups.contains_key(&FailureClass::Budget));
}

#[test]
fn empty_input_returns_empty_map() {
    let groups = group_by_class(&[]);
    assert!(groups.is_empty());
}

#[test]
fn group_preserves_seed_order_within_class() {
    let s1 = CaseSeed {
        id: 1,
        payload: vec![0xA1],
    };
    let s2 = CaseSeed {
        id: 2,
        payload: vec![0xA2],
    };
    let s3 = CaseSeed {
        id: 3,
        payload: vec![0xA3],
    };
    let seeds = vec![s1.clone(), s2.clone(), s3.clone()];

    let groups = group_by_class(&seeds);
    let auth = groups.get(&FailureClass::Auth).unwrap();

    assert_eq!(auth[0].id, 1);
    assert_eq!(auth[1].id, 2);
    assert_eq!(auth[2].id, 3);
}

#[test]
fn oversized_seeds_grouped_separately_from_byte_classes() {
    let oversized = seed(vec![0xA0; 65]); // would be Auth if not oversized
    let normal_auth = seed(vec![0xA0]);

    let seeds = vec![oversized, normal_auth];
    let groups = group_by_class(&seeds);

    assert_eq!(groups.get(&FailureClass::OversizedInput).unwrap().len(), 1);
    assert_eq!(groups.get(&FailureClass::Auth).unwrap().len(), 1);
}
