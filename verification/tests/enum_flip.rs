use crashlab_core::enum_flip::{is_invalid_enum_tag_payload, EnumVariantFlipMutator, ENUM_MARKER};
use crashlab_core::{CaseSeed, Mutator};

#[test]
fn mutator_name_is_enum_variant_flip() {
    assert_eq!(EnumVariantFlipMutator.name(), "enum-variant-flip");
}

#[test]
fn mutator_enforces_enum_marker_layout() {
    let seed = CaseSeed {
        id: 1,
        payload: vec![1],
    };
    let out = EnumVariantFlipMutator.mutate(&seed, &mut 1u64);
    assert_eq!(out.payload[0], ENUM_MARKER);
    assert!(out.payload.len() >= 3);
}

#[test]
fn invalid_tag_detection_only_flags_enum_layout() {
    assert!(!is_invalid_enum_tag_payload(&[0x00, 0xFF]));
    assert!(!is_invalid_enum_tag_payload(&[ENUM_MARKER, 0x01]));
    assert!(is_invalid_enum_tag_payload(&[ENUM_MARKER, 0xFE]));
}

#[test]
fn deterministic_for_same_seed_and_rng() {
    let seed = CaseSeed {
        id: 9,
        payload: vec![0xE0, 0x00, 0xAA, 0xBB],
    };
    let a = EnumVariantFlipMutator.mutate(&seed, &mut 42u64);
    let b = EnumVariantFlipMutator.mutate(&seed, &mut 42u64);
    assert_eq!(a, b);
}

#[test]
fn mutator_can_generate_invalid_tag() {
    let seed = CaseSeed {
        id: 2,
        payload: vec![0xE0, 0x00, 0x01],
    };
    let mut seen_invalid = false;
    for r in 0..128u64 {
        let out = EnumVariantFlipMutator.mutate(&seed, &mut r.clone());
        if is_invalid_enum_tag_payload(&out.payload) {
            seen_invalid = true;
            break;
        }
    }
    assert!(seen_invalid);
}
