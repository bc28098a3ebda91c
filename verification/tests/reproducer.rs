use crashlab_core::reproducer::{shrink_bundle_payload, shrink_seed_preserving_signature};
use crashlab_core::retry::SimulationError;
use crashlab_core::{CaseBundle, CaseSeed, CrashSignature};

fn anchor_signature(seed: &CaseSeed) -> Result<CrashSignature, SimulationError> {
    let has_anchor = seed.payload.windows(2).any(|w| w == [0xAA, 0xBB]);
    if has_anchor {
        Ok(CrashSignature {
            category: "runtime-failure".to_string(),
            digest: 0x1234,
            signature_hash: 0x7777,
        })
    } else {
        Ok(CrashSignature {
            category: "runtime-failure".to_string(),
            digest: 0x9999,
            signature_hash: 0xEEEE,
        })
    }
}

#[test]
fn shrink_seed_reduces_size_and_preserves_signature() {
    let seed = CaseSeed {
        id: 77,
        payload: vec![0, 1, 2, 0xAA, 0xBB, 3, 4, 5, 6],
    };
    let expected = anchor_signature(&seed).unwrap();

    let shrunk = shrink_seed_preserving_signature(&seed, &expected, anchor_signature).unwrap();

    assert!(shrunk.payload.len() < seed.payload.len());
    assert_eq!(anchor_signature(&shrunk).unwrap(), expected);
}

#[test]
fn shrink_seed_keeps_minimal_reproducer_unchanged() {
    let seed = CaseSeed {
        id: 88,
        payload: vec![0xAA, 0xBB],
    };
    let expected = anchor_signature(&seed).unwrap();

    let shrunk = shrink_seed_preserving_signature(&seed, &expected, anchor_signature).unwrap();

    assert_eq!(shrunk.payload, seed.payload);
    assert_eq!(anchor_signature(&shrunk).unwrap(), expected);
}

#[test]
fn shrink_bundle_payload_preserves_bundle_signature() {
    let seed = CaseSeed {
        id: 42,
        payload: vec![9, 9, 0xAA, 0xBB, 9, 9],
    };
    let bundle = CaseBundle {
        seed: seed.clone(),
        signature: anchor_signature(&seed).unwrap(),
        environment: None,
        failure_payload: vec![],
        rpc_envelope: None,
    };

    let shrunk = shrink_bundle_payload(&bundle, anchor_signature).unwrap();

    assert!(shrunk.seed.payload.len() <= bundle.seed.payload.len());
    assert_eq!(anchor_signature(&shrunk.seed).unwrap(), bundle.signature);
}

// Own checks of the shrinker.

#[test]
fn shrink_reaches_the_anchor_alone() {
    let seed = CaseSeed { id: 5, payload: vec![1, 2, 3, 0xAA, 0xBB, 4, 5, 6, 7, 8] };
    let expected = anchor_signature(&seed).unwrap();
    let shrunk = shrink_seed_preserving_signature(&seed, &expected, anchor_signature).unwrap();
    assert_eq!(shrunk.id, 5);
    assert_eq!(shrunk.payload, vec![0xAA, 0xBB]);
}

#[test]
fn shrink_of_empty_payload_returns_it() {
    let seed = CaseSeed { id: 6, payload: vec![] };
    let expected = anchor_signature(&seed).unwrap();
    let shrunk = shrink_seed_preserving_signature(&seed, &expected, anchor_signature).unwrap();
    assert_eq!(shrunk, seed);
}

#[test]
fn shrink_returns_a_non_transient_error() {
    let seed = CaseSeed { id: 7, payload: vec![1, 2, 3] };
    let expected = anchor_signature(&seed).unwrap();
    let result = shrink_seed_preserving_signature(&seed, &expected, |_s: &CaseSeed| {
        Err(SimulationError::NonTransient("broken".to_string()))
    });
    assert_eq!(result, Err(SimulationError::NonTransient("broken".to_string())));
}

#[test]
fn shrink_retries_transient_errors_then_gives_up() {
    let seed = CaseSeed { id: 8, payload: vec![1, 2] };
    let expected = anchor_signature(&seed).unwrap();
    let calls = std::cell::Cell::new(0u32);
    let result = shrink_seed_preserving_signature(&seed, &expected, |_s: &CaseSeed| {
        calls.set(calls.get() + 1);
        Err(SimulationError::Transient("timeout".to_string()))
    });
    assert_eq!(result, Err(SimulationError::Transient("timeout".to_string())));
    assert_eq!(calls.get(), 5);
}

fn contains_seven(seed: &CaseSeed) -> Result<CrashSignature, SimulationError> {
    Ok(CrashSignature {
        category: "runtime-failure".to_string(),
        digest: if seed.payload.contains(&7) { 1 } else { 2 },
        signature_hash: 3,
    })
}

#[test]
fn shrink_removes_a_last_byte_that_is_not_needed() {
    // Every payload reproduces the signature, so even the last byte goes.
    let seed = CaseSeed { id: 9, payload: vec![5] };
    let expected = contains_seven(&seed).unwrap();
    let shrunk = shrink_seed_preserving_signature(&seed, &expected, contains_seven).unwrap();
    assert_eq!(shrunk.payload, Vec::<u8>::new());
    assert_eq!(shrunk.id, 9);
}

#[test]
fn shrink_keeps_a_single_needed_byte_and_only_removes_bytes() {
    let seed = CaseSeed { id: 10, payload: vec![1, 7, 2, 3] };
    let expected = contains_seven(&seed).unwrap();
    let shrunk = shrink_seed_preserving_signature(&seed, &expected, contains_seven).unwrap();
    assert_eq!(shrunk.payload, vec![7]);
    for i in 0..shrunk.payload.len() {
        let mut smaller = shrunk.payload.clone();
        smaller.remove(i);
        let probe = CaseSeed { id: shrunk.id, payload: smaller };
        assert_ne!(contains_seven(&probe).unwrap(), expected);
    }
}

fn is_subsequence(a: &[u8], b: &[u8]) -> bool {
    let mut it = b.iter();
    a.iter().all(|x| it.any(|y| y == x))
}

#[test]
fn reproducer_only_sees_shorter_subsequences_with_the_seed_id() {
    let seed = CaseSeed { id: 31, payload: vec![1, 2, 0xAA, 0xBB, 3, 4, 5] };
    let expected = anchor_signature(&seed).unwrap();
    let seen = std::cell::RefCell::new(Vec::new());
    let shrunk = shrink_seed_preserving_signature(&seed, &expected, |c: &CaseSeed| {
        seen.borrow_mut().push(c.clone());
        anchor_signature(c)
    })
    .unwrap();
    assert_eq!(shrunk.payload, vec![0xAA, 0xBB]);
    let seen = seen.into_inner();
    assert!(!seen.is_empty());
    for c in &seen {
        assert_eq!(c.id, 31);
        assert!(c.payload.len() < seed.payload.len());
        assert!(is_subsequence(&c.payload, &seed.payload));
    }
}

#[test]
fn reproducer_is_not_called_on_an_empty_payload() {
    let seed = CaseSeed { id: 3, payload: vec![] };
    let expected = anchor_signature(&seed).unwrap();
    let calls = std::cell::Cell::new(0u32);
    let shrunk = shrink_seed_preserving_signature(&seed, &expected, |c: &CaseSeed| {
        calls.set(calls.get() + 1);
        anchor_signature(c)
    })
    .unwrap();
    assert_eq!(shrunk, seed);
    assert_eq!(calls.get(), 0);
}
