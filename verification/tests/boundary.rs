use crashlab_core::boundary::{
    all_boundary_payloads, boundary_values_i128, boundary_values_u128, generate_boundary_vectors,
    BoundaryMutator,
};
use crashlab_core::{CaseSeed, Mutator};

// ── boundary value sets ──────────────────────────────────────────────────

#[test]
fn i128_boundaries_include_min_and_max() {
    let vals = boundary_values_i128();
    assert!(vals.contains(&i128::MIN));
    assert!(vals.contains(&i128::MAX));
}

#[test]
fn i128_boundaries_include_min_max_neighbors() {
    let vals = boundary_values_i128();
    assert!(vals.contains(&(i128::MIN + 1)));
    assert!(vals.contains(&(i128::MAX - 1)));
}

#[test]
fn i128_boundaries_include_zero_crossing() {
    let vals = boundary_values_i128();
    assert!(vals.contains(&-1));
    assert!(vals.contains(&0));
    assert!(vals.contains(&1));
}

#[test]
fn u128_boundaries_include_min_and_max() {
    let vals = boundary_values_u128();
    assert!(vals.contains(&u128::MIN));
    assert!(vals.contains(&u128::MAX));
}

#[test]
fn u128_boundaries_include_min_max_neighbors() {
    let vals = boundary_values_u128();
    assert!(vals.contains(&(u128::MIN + 1)));
    assert!(vals.contains(&(u128::MAX - 1)));
}

#[test]
fn all_boundary_payloads_are_16_bytes() {
    for payload in all_boundary_payloads() {
        assert_eq!(payload.len(), 16);
    }
}

#[test]
fn all_boundary_payloads_are_deduplicated() {
    let payloads = all_boundary_payloads();
    for (i, a) in payloads.iter().enumerate() {
        for (j, b) in payloads.iter().enumerate() {
            if i != j {
                assert_ne!(a, b, "duplicate payload at indices {} and {}", i, j);
            }
        }
    }
}

#[test]
fn all_boundary_payloads_contain_i128_min_encoding() {
    let expected = i128::MIN.to_le_bytes();
    assert!(all_boundary_payloads().contains(&expected));
}

#[test]
fn all_boundary_payloads_contain_i128_max_encoding() {
    let expected = i128::MAX.to_le_bytes();
    assert!(all_boundary_payloads().contains(&expected));
}

#[test]
fn all_boundary_payloads_contain_u128_max_encoding() {
    let expected = u128::MAX.to_le_bytes();
    assert!(all_boundary_payloads().contains(&expected));
}

// ── BoundaryMutator ──────────────────────────────────────────────────────

#[test]
fn mutator_name_is_numeric_boundary() {
    assert_eq!(BoundaryMutator.name(), "numeric-boundary");
}

#[test]
fn mutator_produces_16_byte_payload_from_short_seed() {
    let seed = CaseSeed {
        id: 1,
        payload: vec![0xAA],
    };
    let mut rng = 42u64;
    let result = BoundaryMutator.mutate(&seed, &mut rng);
    assert!(result.payload.len() >= 16);
}

#[test]
fn mutator_preserves_trailing_bytes_beyond_16() {
    let seed = CaseSeed {
        id: 1,
        payload: vec![0xFF; 20],
    };
    let mut rng = 99u64;
    let result = BoundaryMutator.mutate(&seed, &mut rng);
    assert_eq!(result.payload.len(), 20);
    assert_eq!(&result.payload[16..], &[0xFF; 4]);
}

#[test]
fn mutator_preserves_seed_id() {
    let seed = CaseSeed {
        id: 777,
        payload: vec![0; 16],
    };
    let mut rng = 0u64;
    let result = BoundaryMutator.mutate(&seed, &mut rng);
    assert_eq!(result.id, 777);
}

#[test]
fn mutator_is_deterministic_for_same_rng() {
    let seed = CaseSeed {
        id: 1,
        payload: vec![0; 16],
    };
    let result_a = BoundaryMutator.mutate(&seed, &mut 42u64);
    let result_b = BoundaryMutator.mutate(&seed, &mut 42u64);
    assert_eq!(result_a, result_b);
}

#[test]
fn mutator_output_is_a_known_boundary_value() {
    let seed = CaseSeed {
        id: 1,
        payload: vec![0; 16],
    };
    let known = all_boundary_payloads();
    let mut rng = 42u64;

    let result = BoundaryMutator.mutate(&seed, &mut rng);
    let first_16: [u8; 16] = result.payload[..16].try_into().unwrap();
    assert!(
        known.contains(&first_16),
        "mutator output is not a recognized boundary value"
    );
}

#[test]
fn mutator_advances_rng_state() {
    let seed = CaseSeed {
        id: 1,
        payload: vec![0; 16],
    };
    let mut rng = 42u64;
    BoundaryMutator.mutate(&seed, &mut rng);
    assert_ne!(rng, 42, "rng_state must advance after mutation");
}

#[test]
fn different_rng_seeds_can_produce_different_boundaries() {
    let seed = CaseSeed {
        id: 1,
        payload: vec![0; 16],
    };
    let payloads: Vec<Vec<u8>> = (0..100u64)
        .map(|r| BoundaryMutator.mutate(&seed, &mut r.clone()).payload)
        .collect();

    let unique: std::collections::HashSet<&Vec<u8>> = payloads.iter().collect();
    assert!(
        unique.len() > 1,
        "expected multiple distinct boundary values across different rng seeds"
    );
}

// ── generate_boundary_vectors ────────────────────────────────────────────

#[test]
fn vectors_start_at_base_id() {
    let vectors = generate_boundary_vectors(100);
    assert_eq!(vectors[0].id, 100);
}

#[test]
fn vectors_have_sequential_ids() {
    let vectors = generate_boundary_vectors(0);
    for (i, v) in vectors.iter().enumerate() {
        assert_eq!(v.id, i as u64);
    }
}

#[test]
fn vectors_cover_all_boundary_payloads() {
    let vectors = generate_boundary_vectors(0);
    let expected = all_boundary_payloads();
    assert_eq!(vectors.len(), expected.len());

    for (vec, exp) in vectors.iter().zip(expected.iter()) {
        assert_eq!(vec.payload.as_slice(), exp.as_slice());
    }
}

#[test]
fn vectors_all_have_16_byte_payloads() {
    for v in generate_boundary_vectors(0) {
        assert_eq!(v.payload.len(), 16);
    }
}

#[test]
fn vectors_include_i128_min_payload() {
    let expected = i128::MIN.to_le_bytes().to_vec();
    let vectors = generate_boundary_vectors(0);
    assert!(
        vectors.iter().any(|v| v.payload == expected),
        "boundary vectors must include i128::MIN"
    );
}

#[test]
fn vectors_include_i128_max_payload() {
    let expected = i128::MAX.to_le_bytes().to_vec();
    let vectors = generate_boundary_vectors(0);
    assert!(
        vectors.iter().any(|v| v.payload == expected),
        "boundary vectors must include i128::MAX"
    );
}

#[test]
fn vectors_include_u128_max_payload() {
    let expected = u128::MAX.to_le_bytes().to_vec();
    let vectors = generate_boundary_vectors(0);
    assert!(
        vectors.iter().any(|v| v.payload == expected),
        "boundary vectors must include u128::MAX"
    );
}

#[test]
fn vectors_include_i128_min_neighbor_payload() {
    let expected = (i128::MIN + 1).to_le_bytes().to_vec();
    let vectors = generate_boundary_vectors(0);
    assert!(
        vectors.iter().any(|v| v.payload == expected),
        "boundary vectors must include i128::MIN + 1"
    );
}

#[test]
fn vectors_include_i128_max_neighbor_payload() {
    let expected = (i128::MAX - 1).to_le_bytes().to_vec();
    let vectors = generate_boundary_vectors(0);
    assert!(
        vectors.iter().any(|v| v.payload == expected),
        "boundary vectors must include i128::MAX - 1"
    );
}

#[test]
fn vectors_include_u128_max_neighbor_payload() {
    let expected = (u128::MAX - 1).to_le_bytes().to_vec();
    let vectors = generate_boundary_vectors(0);
    assert!(
        vectors.iter().any(|v| v.payload == expected),
        "boundary vectors must include u128::MAX - 1"
    );
}

#[test]
fn vectors_are_deterministic() {
    let a = generate_boundary_vectors(0);
    let b = generate_boundary_vectors(0);
    assert_eq!(a, b);
}

// ── round-trip verification ──────────────────────────────────────────────

#[test]
fn i128_min_round_trips_through_le_bytes() {
    let bytes = i128::MIN.to_le_bytes();
    assert_eq!(i128::from_le_bytes(bytes), i128::MIN);
}

#[test]
fn i128_max_round_trips_through_le_bytes() {
    let bytes = i128::MAX.to_le_bytes();
    assert_eq!(i128::from_le_bytes(bytes), i128::MAX);
}

#[test]
fn u128_max_round_trips_through_le_bytes() {
    let bytes = u128::MAX.to_le_bytes();
    assert_eq!(u128::from_le_bytes(bytes), u128::MAX);
}

// ── Mutator trait compliance ─────────────────────────────────────────────

#[test]
fn boundary_mutator_is_send_and_sync() {
    fn assert_send_sync<T: Send + Sync>() {}
    assert_send_sync::<BoundaryMutator>();
}
