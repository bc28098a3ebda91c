use crashlab_core::stellar_address::{
    base32_char, generate_address_vectors, generate_valid_account_address,
    generate_valid_contract_address, generate_valid_muxed_address, AddressMutatorConfig,
    AddressType, StellarAddressMutator,
};
use crashlab_core::{CaseSeed, Mutator};

#[test]
fn stellar_address_mutator_name() {
    assert_eq!(
        StellarAddressMutator::default_mutator().name(),
        "stellar-address"
    );
}

#[test]
fn stellar_address_deterministic_for_same_inputs() {
    let m = StellarAddressMutator::default_mutator();
    let seed = CaseSeed {
        id: 10,
        payload: vec![1, 2, 3],
    };
    let a = m.mutate(&seed, &mut 99u64);
    let b = m.mutate(&seed, &mut 99u64);
    assert_eq!(a, b);
}

#[test]
fn valid_only_mutator_generates_valid_length_addresses() {
    let m = StellarAddressMutator::valid_only();
    let seed = CaseSeed {
        id: 1,
        payload: vec![0xFF; 40],
    };

    for r in 0..100u64 {
        let mut rng = r;
        let out = m.mutate(&seed, &mut rng);
        let addr = String::from_utf8(out.payload).unwrap();
        assert!(
            addr.len() == 56 || addr.len() == 69,
            "Expected valid address length, got {} for address: {}",
            addr.len(),
            addr
        );
    }
}

#[test]
fn invalid_only_mutator_generates_invalid_addresses() {
    let m = StellarAddressMutator::invalid_only();
    let seed = CaseSeed {
        id: 1,
        payload: vec![0xFF; 40],
    };

    let mut found_invalid = false;
    for r in 0..200u64 {
        let mut rng = r;
        let out = m.mutate(&seed, &mut rng);
        let addr = String::from_utf8(out.payload.clone()).unwrap();

        if !is_valid_stellar_address(&addr) {
            found_invalid = true;
            break;
        }
    }
    assert!(
        found_invalid,
        "Expected to find at least one invalid address"
    );
}

#[test]
fn account_address_starts_with_g() {
    let addr = generate_valid_account_address(
        &CaseSeed {
            id: 1,
            payload: vec![],
        },
        &mut 42u64,
    );
    assert!(addr.starts_with('G'));
    assert_eq!(addr.len(), 56);
}

#[test]
fn contract_address_starts_with_c() {
    let addr = generate_valid_contract_address(
        &CaseSeed {
            id: 1,
            payload: vec![],
        },
        &mut 42u64,
    );
    assert!(addr.starts_with('C'));
    assert_eq!(addr.len(), 56);
}

#[test]
fn muxed_address_starts_with_m() {
    let addr = generate_valid_muxed_address(
        &CaseSeed {
            id: 1,
            payload: vec![],
        },
        &mut 42u64,
    );
    assert!(addr.starts_with('M'));
    assert_eq!(addr.len(), 69);
}

#[test]
fn address_type_prefixes() {
    assert_eq!(AddressType::Account.prefix(), 'G');
    assert_eq!(AddressType::Contract.prefix(), 'C');
    assert_eq!(AddressType::Muxed.prefix(), 'M');
}

#[test]
fn address_type_lengths() {
    assert_eq!(AddressType::Account.valid_length(), 56);
    assert_eq!(AddressType::Contract.valid_length(), 56);
    assert_eq!(AddressType::Muxed.valid_length(), 69);
}

#[test]
fn generate_vectors_creates_multiple_seeds() {
    let config = AddressMutatorConfig::mixed();
    let vectors = generate_address_vectors(100, &config);
    assert!(!vectors.is_empty());
    assert_eq!(vectors[0].id, 100);
}

#[test]
fn empty_address_is_invalid() {
    assert!(!is_valid_stellar_address(""));
}

#[test]
fn wrong_prefix_is_invalid() {
    assert!(!is_valid_stellar_address("XABC123"));
}

#[test]
fn truncated_address_is_invalid() {
    // Valid G-address should be 56 chars
    let truncated = "GABC".to_string();
    assert!(!is_valid_stellar_address(&truncated));
}

#[test]
fn extended_address_is_invalid() {
    let mut extended = String::with_capacity(60);
    extended.push('G');
    for _ in 0..59 {
        extended.push('A');
    }
    assert!(!is_valid_stellar_address(&extended));
}

#[test]
fn invalid_charset_is_invalid() {
    // Contains '0' which is not in base32 alphabet
    let invalid = "G0000000000000000000000000000000000000000000000000000";
    assert!(!is_valid_stellar_address(invalid));
}

#[test]
fn base32_char_produces_valid_chars() {
    for i in 0..=255u8 {
        let ch = base32_char(i);
        assert!(
            ch.is_ascii_uppercase() || ('2'..='7').contains(&ch),
            "Invalid base32 char: {}",
            ch
        );
    }
}

/// Helper to check if an address appears valid (basic checks).
fn is_valid_stellar_address(addr: &str) -> bool {
    if addr.is_empty() {
        return false;
    }

    let first_char = addr.chars().next().unwrap();
    if !['G', 'C', 'M'].contains(&first_char) {
        return false;
    }

    let expected_len = match first_char {
        'G' | 'C' => 56,
        'M' => 69,
        _ => return false,
    };

    if addr.len() != expected_len {
        return false;
    }

    // Check all characters are valid base32
    for ch in addr.chars().skip(1) {
        if !ch.is_ascii_uppercase() && !('2'..='7').contains(&ch) {
            return false;
        }
    }

    true
}

#[test]
fn invalid_charset_kind_always_holds_an_outside_character() {
    // From this state the invalid-charset draws all land in the base32
    // alphabet, so the generator forces the last character outside it.
    let mut state = 633891u64;
    let addr = crashlab_core::stellar_address::generate_invalid_address(
        AddressType::Account,
        &CaseSeed { id: 0, payload: vec![] },
        &mut state,
    );
    assert!(!is_valid_stellar_address(&addr));
}

#[test]
fn invalid_only_mutator_never_yields_a_well_formed_address() {
    let m = StellarAddressMutator::invalid_only();
    let seed = CaseSeed {
        id: 1,
        payload: vec![0xFF; 40],
    };
    for r in 0..2000u64 {
        let mut rng = r;
        let out = m.mutate(&seed, &mut rng);
        let addr = String::from_utf8(out.payload).unwrap();
        assert!(!is_valid_stellar_address(&addr), "state {} gave {}", r, addr);
    }
}

#[test]
fn vectors_lead_each_type_with_its_valid_address_whatever_the_config() {
    for (config, per) in [
        (AddressMutatorConfig::invalid_only(), 3usize),
        (AddressMutatorConfig::mixed(), 3),
        (AddressMutatorConfig::valid_only(), 1),
    ] {
        let vectors = generate_address_vectors(7, &config);
        assert_eq!(vectors.len(), 3 * per);
        for (k, v) in vectors.iter().enumerate() {
            assert_eq!(v.id, 7 + k as u64);
        }
        for (t, prefix) in ['G', 'C', 'M'].iter().enumerate() {
            let addr = String::from_utf8(vectors[t * per].payload.clone()).unwrap();
            assert!(is_valid_stellar_address(&addr), "{}", addr);
            assert!(addr.starts_with(*prefix));
        }
    }
}
