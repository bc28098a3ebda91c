use crashlab_core::prng::SeededPrng;
use crashlab_core::{
    classify, compute_signature_hash, mutate_seed, signatures_match, to_bundle, CaseSeed,
    CrashSignature, DefaultMutator, Mutator,
};

#[test]
fn mutation_is_deterministic() {
    let seed = CaseSeed { id: 42, payload: vec![1, 2, 3, 4] };
    let a = mutate_seed(&seed);
    let b = mutate_seed(&seed);
    assert_eq!(a, b);
}

#[test]
fn classification_detects_empty_input() {
    let seed = CaseSeed { id: 7, payload: vec![] };
    let sig = classify(&seed);
    assert_eq!(sig.category, "empty-input");
}

#[test]
fn bundle_contains_signature() {
    let seed = CaseSeed { id: 9, payload: vec![9, 9, 9] };
    let bundle = to_bundle(seed);
    assert!(!bundle.signature.category.is_empty());
}

#[test]
fn to_bundle_has_no_environment_by_default() {
    let bundle = to_bundle(CaseSeed { id: 1, payload: vec![1] });
    assert!(bundle.environment.is_none());
}

#[test]
fn equivalent_failures_produce_identical_signature_hash() {
    let seed_a = CaseSeed { id: 1, payload: vec![1, 2, 3] };
    let seed_b = CaseSeed { id: 99, payload: vec![1, 2, 3] };
    let sig_a = classify(&seed_a);
    let sig_b = classify(&seed_b);
    assert_eq!(sig_a.category, sig_b.category);
    assert_eq!(sig_a.signature_hash, sig_b.signature_hash);
}

#[test]
fn signature_hash_differs_across_categories() {
    let empty = CaseSeed { id: 0, payload: vec![] };
    let normal = CaseSeed { id: 0, payload: vec![1] };
    let sig_empty = classify(&empty);
    let sig_normal = classify(&normal);
    assert_ne!(sig_empty.signature_hash, sig_normal.signature_hash);
}

#[test]
fn signature_hash_is_deterministic() {
    let hash_a = compute_signature_hash("runtime-failure", &[10, 20, 30]);
    let hash_b = compute_signature_hash("runtime-failure", &[10, 20, 30]);
    assert_eq!(hash_a, hash_b);
}

#[test]
fn different_payloads_produce_different_signature_hash() {
    let hash_a = compute_signature_hash("runtime-failure", &[1, 2, 3]);
    let hash_b = compute_signature_hash("runtime-failure", &[3, 2, 1]);
    assert_ne!(hash_a, hash_b);
}

#[test]
fn signatures_match_requires_category_digest_and_signature_hash() {
    let expected = CrashSignature {
        category: "runtime-failure".to_string(),
        digest: 11,
        signature_hash: 22,
    };
    let same = CrashSignature {
        category: "runtime-failure".to_string(),
        digest: 11,
        signature_hash: 22,
    };
    let different_digest = CrashSignature {
        category: "runtime-failure".to_string(),
        digest: 99,
        signature_hash: 22,
    };
    assert!(signatures_match(&expected, &same));
    assert!(!signatures_match(&expected, &different_digest));
}

#[test]
fn same_seed_produces_same_stream() {
    let mut a = SeededPrng::new(7);
    let mut b = SeededPrng::new(7);
    assert_eq!(a.mutation_stream(32), b.mutation_stream(32));
}

#[test]
fn different_seeds_produce_different_streams() {
    let mut a = SeededPrng::new(1);
    let mut b = SeededPrng::new(2);
    assert_ne!(a.mutation_stream(16), b.mutation_stream(16));
}

#[test]
fn zero_seed_does_not_produce_all_zeros() {
    let mut rng = SeededPrng::new(0);
    let stream = rng.mutation_stream(16);
    assert!(stream.iter().any(|&b| b != 0));
}

#[test]
fn stream_is_stable_across_independent_instances() {
    let mut rng1 = SeededPrng::new(99);
    let mut rng2 = SeededPrng::new(99);
    for _ in 0..64 {
        assert_eq!(rng1.next_byte(), rng2.next_byte());
    }
}

#[test]
fn large_seed_is_handled() {
    let mut a = SeededPrng::new(u64::MAX);
    let mut b = SeededPrng::new(u64::MAX);
    assert_eq!(a.mutation_stream(20), b.mutation_stream(20));
}

// Exact values of the FNV-1a signature hash and of the xorshift64* stream.

#[test]
fn signature_hash_of_empty_category_and_payload_is_the_offset_basis() {
    assert_eq!(compute_signature_hash("", &[]), 14695981039346656037);
}

#[test]
fn signature_hash_matches_fnv1a_of_category_then_payload() {
    // FNV-1a over the bytes "a", 0x01.
    let mut h: u64 = 14695981039346656037;
    for b in [b'a', 1u8] {
        h ^= b as u64;
        h = h.wrapping_mul(1099511628211);
    }
    assert_eq!(compute_signature_hash("a", &[1]), h);
}

#[test]
fn first_draw_of_seed_zero_matches_xorshift64_star() {
    let mut x: u64 = 1u64.wrapping_mul(0x9E3779B97F4A7C15);
    x ^= x >> 12;
    x ^= x << 25;
    x ^= x >> 27;
    let expected = x.wrapping_mul(0x2545F4914F6CDD1D);
    let mut rng = SeededPrng::new(0);
    assert_eq!(rng.next_u64(), expected);
}

#[test]
fn mutation_keeps_id_and_length_and_twice_restores_payload() {
    let seed = CaseSeed { id: 5, payload: vec![10, 20, 30, 40, 50] };
    let once = mutate_seed(&seed);
    assert_eq!(once.id, 5);
    assert_eq!(once.payload.len(), 5);
    let twice = mutate_seed(&once);
    assert_eq!(twice, seed);
}

#[test]
fn replay_environment_report_warns_when_recorded_os_differs_from_given_host() {
    let mut bundle = to_bundle(CaseSeed { id: 1, payload: vec![1] });
    bundle.environment = Some(crashlab_core::EnvironmentFingerprint::new(
        "fictional-os",
        "x86_64",
        "unix",
        "0.0.0",
    ));
    let host = crashlab_core::EnvironmentFingerprint::new("linux", "x86_64", "unix", "0.1.0");
    let report = bundle.replay_environment_report(&host);
    assert!(report.material_mismatch);
    assert!(report.warnings.iter().any(|w| w.contains("os")));
}

#[test]
fn largest_seed_never_draws_zero() {
    let mut rng = SeededPrng::new(u64::MAX);
    for _ in 0..1000 {
        assert_ne!(rng.next_u64(), 0);
    }
    let stream = SeededPrng::new(u64::MAX).mutation_stream(32);
    assert!(stream.iter().any(|&b| b != 0));
}

#[test]
fn default_mutator_is_the_bit_flipper() {
    let m = DefaultMutator;
    assert_eq!(m.name(), "bit-flipper");
    let seed = CaseSeed { id: 42, payload: vec![1, 2, 3, 4] };
    let mut state = 77u64;
    let out = m.mutate(&seed, &mut state);
    assert_eq!(out, mutate_seed(&seed));
    assert_eq!(state, 77);
    assert_ne!(out.payload, seed.payload);
}
