use crashlab_core::decimal_precision::{
    decimal_boundary_cases, encode_decimal_case, generate_decimal_precision_vectors,
    DecimalBoundaryCase, DecimalPrecisionMutator, DECIMAL_MARKER,
};
use crashlab_core::{CaseSeed, Mutator};

#[test]
fn mutator_name_is_decimal_precision() {
    assert_eq!(DecimalPrecisionMutator.name(), "decimal-precision");
}

#[test]
fn boundaries_include_rounding_traps() {
    let cases = decimal_boundary_cases();
    assert!(cases.iter().any(|c| c.rounding_trap));
}

#[test]
fn boundaries_include_near_overflow_coefficients() {
    let cases = decimal_boundary_cases();
    assert!(cases.iter().any(|c| c.coefficient == i128::MAX));
    assert!(cases.iter().any(|c| c.coefficient == i128::MAX - 1));
    assert!(cases.iter().any(|c| c.coefficient == i128::MIN + 1));
}

#[test]
fn encode_decimal_case_layout_is_stable() {
    let encoded = encode_decimal_case(DecimalBoundaryCase {
        precision: 9,
        scale: 2,
        coefficient: 12345,
        rounding_trap: true,
    });
    assert_eq!(encoded.len(), 24);
    assert_eq!(encoded[0], DECIMAL_MARKER);
    assert_eq!(encoded[1], 9);
    assert_eq!(encoded[2], 2);
    assert_eq!(encoded[3], 1);
}

#[test]
fn mutator_is_deterministic() {
    let seed = CaseSeed {
        id: 5,
        payload: vec![1, 2, 3],
    };
    let a = DecimalPrecisionMutator.mutate(&seed, &mut 77u64);
    let b = DecimalPrecisionMutator.mutate(&seed, &mut 77u64);
    assert_eq!(a, b);
}

#[test]
fn generated_vectors_cover_all_boundaries() {
    let vectors = generate_decimal_precision_vectors(100);
    assert_eq!(vectors.len(), decimal_boundary_cases().len());
    assert_eq!(vectors[0].id, 100);
}
