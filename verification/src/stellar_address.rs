//! Stellar address mutation strategy for account, contract, and muxed address formats.
//!
//! This module provides mutators for generating valid and invalid Stellar addresses:
//! - Account IDs (G-addresses): 56-character base32 encoded ed25519 public keys
//! - Contract IDs (C-addresses): 56-character base32 encoded contract hashes
//! - Muxed accounts (M-addresses): 69-character base32 with 64-bit memo ID
//!
//! The mutator supports toggling between valid and invalid address generation
//! to test both parsing success and error handling paths.
use vstd::prelude::*;
use vstd::utf8::encode_utf8;

use crate::mutator::Mutator;
use crate::splitmix::{GOLDEN_GAMMA, MIX_MUL_1, MIX_MUL_2, spec_advance_n, spec_draw};
use crate::text::{string_into_bytes, string_push};
use crate::CaseSeed;

verus! {

/// Stellar address type variants.
#[derive(Debug, Clone, Copy, PartialEq, Eq)]
pub enum AddressType {
    /// Standard account address (starts with 'G')
    Account,
    /// Contract address (starts with 'C')
    Contract,
    /// Muxed account address (starts with 'M')
    Muxed,
}

/// The address types in the order in which the generators draw them.
pub open spec fn spec_address_type_at(i: int) -> AddressType {
    if i == 0 {
        AddressType::Account
    } else if i == 1 {
        AddressType::Contract
    } else {
        AddressType::Muxed
    }
}

/// The address type at position `i` of [`AddressType::ALL`].
pub fn address_type_at(i: usize) -> (r: AddressType)
    requires
        i < 3,
    ensures
        r == spec_address_type_at(i as int),
{
    if i == 0 {
        AddressType::Account
    } else if i == 1 {
        AddressType::Contract
    } else {
        AddressType::Muxed
    }
}

impl AddressType {
    /// All supported address types.
    pub const ALL: [AddressType; 3] = [AddressType::Account, AddressType::Contract, AddressType::Muxed];

    /// The prefix character of the type.
    pub open spec fn spec_prefix(self) -> char {
        match self {
            AddressType::Account => 'G',
            AddressType::Contract => 'C',
            AddressType::Muxed => 'M',
        }
    }

    /// The length of a valid address of the type.
    pub open spec fn spec_valid_length(self) -> nat {
        match self {
            AddressType::Account => 56,
            AddressType::Contract => 56,
            AddressType::Muxed => 69,
        }
    }

    /// Returns the character prefix for this address type.
    pub fn prefix(&self) -> (r: char)
        ensures
            r == self.spec_prefix(),
    {
        match self {
            AddressType::Account => 'G',
            AddressType::Contract => 'C',
            AddressType::Muxed => 'M',
        }
    }

    /// Returns the expected length of a valid address of this type.
    pub fn valid_length(&self) -> (r: usize)
        ensures
            r == self.spec_valid_length(),
    {
        match self {
            AddressType::Account => 56,
            AddressType::Contract => 56,
            AddressType::Muxed => 69,
        }
    }
}

/// Configuration for address mutation behavior.
#[derive(Debug, Clone, Copy, PartialEq, Eq)]
pub struct AddressMutatorConfig {
    /// If true, generate only valid addresses. If false, may generate invalid ones.
    pub valid_only: bool,
    /// If true, include invalid addresses in the mutation pool.
    pub include_invalid: bool,
    /// If true (and invalid addresses are included), the mutator leaves valid
    /// addresses out of its draws, so every address it generates is invalid.
    /// The test vectors of [`generate_address_vectors`] do not depend on it:
    /// each address type starts with its valid address.
    pub exclude_valid: bool,
}

impl Default for AddressMutatorConfig {
    fn default() -> (r: Self)
        ensures
            !r.valid_only,
            r.include_invalid,
            !r.exclude_valid,
    {
        AddressMutatorConfig { valid_only: false, include_invalid: true, exclude_valid: false }
    }
}

impl AddressMutatorConfig {
    /// Create a config that generates only valid addresses.
    pub fn valid_only() -> (r: Self)
        ensures
            r.valid_only,
            !r.include_invalid,
            !r.exclude_valid,
    {
        AddressMutatorConfig { valid_only: true, include_invalid: false, exclude_valid: false }
    }

    /// Create a config that generates only invalid addresses.
    pub fn invalid_only() -> (r: Self)
        ensures
            !r.valid_only,
            r.include_invalid,
            r.exclude_valid,
    {
        AddressMutatorConfig { valid_only: false, include_invalid: true, exclude_valid: true }
    }

    /// Create a config with both valid and invalid addresses.
    pub fn mixed() -> (r: Self)
        ensures
            !r.valid_only,
            r.include_invalid,
            !r.exclude_valid,
    {
        AddressMutatorConfig { valid_only: false, include_invalid: true, exclude_valid: false }
    }
}

/// Mutator for Stellar addresses (account, contract, muxed).
pub struct StellarAddressMutator {
    pub config: AddressMutatorConfig,
}

impl StellarAddressMutator {
    /// Create a new mutator with the given configuration.
    pub fn new(config: AddressMutatorConfig) -> (r: Self)
        ensures
            r.config == config,
    {
        StellarAddressMutator { config }
    }

    /// Create a default mutator with mixed valid/invalid addresses.
    pub fn default_mutator() -> (r: Self)
        ensures
            !r.config.valid_only,
            r.config.include_invalid,
            !r.config.exclude_valid,
    {
        Self::new(AddressMutatorConfig::default())
    }

    /// Create a mutator that only generates valid addresses.
    pub fn valid_only() -> (r: Self)
        ensures
            r.config.valid_only,
            !r.config.include_invalid,
            !r.config.exclude_valid,
    {
        Self::new(AddressMutatorConfig::valid_only())
    }

    /// Create a mutator that only generates invalid addresses.
    pub fn invalid_only() -> (r: Self)
        ensures
            !r.config.valid_only,
            r.config.include_invalid,
            r.config.exclude_valid,
    {
        Self::new(AddressMutatorConfig::invalid_only())
    }
}

impl Mutator for StellarAddressMutator {
    open spec fn is_runnable(&self) -> bool {
        true
    }

    fn name(&self) -> (r: &'static str)
        ensures
            r@ == "stellar-address"@,
    {
        "stellar-address"
    }

    /// Replaces the payload with the UTF-8 bytes of a generated address.
    fn mutate(&self, seed: &CaseSeed, rng_state: &mut u64) -> (r: CaseSeed)
        ensures
            r.id == seed.id,
            r.payload@ == encode_utf8(spec_generate_address(seed.id, *old(rng_state), self.config).0),
            *final(rng_state) == spec_generate_address(seed.id, *old(rng_state), self.config).1,
    {
        let address = generate_address(seed, rng_state, &self.config);
        CaseSeed { id: seed.id, payload: string_into_bytes(address) }
    }
}

/// The RFC 4648 base32 alphabet.
pub const BASE32_ALPHABET: [char; 32] = [
    'A', 'B', 'C', 'D', 'E', 'F', 'G', 'H', 'I', 'J', 'K', 'L', 'M', 'N', 'O', 'P',
    'Q', 'R', 'S', 'T', 'U', 'V', 'W', 'X', 'Y', 'Z', '2', '3', '4', '5', '6', '7',
];

/// The base32 character for the low five bits of `byte`.
pub open spec fn spec_base32(byte: u8) -> char {
    BASE32_ALPHABET@[(byte % 32) as int]
}

/// Convert a byte to a base32 character (RFC 4648 alphabet).
pub fn base32_char(byte: u8) -> (r: char)
    ensures
        r == spec_base32(byte),
{
    BASE32_ALPHABET[(byte % 32) as usize]
}

/// Advance the RNG state using splitmix64.
pub fn advance_rng(state: &mut u64)
    ensures
        *final(state) == spec_draw(*old(state)),
{
    *state = state.wrapping_add(GOLDEN_GAMMA);
    let mut z = *state;
    z = (z ^ (z >> 30u64)).wrapping_mul(MIX_MUL_1);
    z = (z ^ (z >> 27u64)).wrapping_mul(MIX_MUL_2);
    *state = z ^ (z >> 31u64);
}

/// `n` characters where character `i` is the base32 character of the low byte
/// of `(i + 1)` draws from `state` XOR `id + offset + i` (wrapping).
pub open spec fn spec_keyed_chars(state: u64, id: u64, offset: u64, n: nat) -> Seq<char> {
    Seq::new(
        n,
        |i: int| spec_base32((spec_advance_n(state, (i + 1) as nat) ^ id.wrapping_add((i + offset) as u64)) as u8),
    )
}

/// `n` characters where character `i` is the base32 character of the low byte
/// of `(i + 1)` draws from `state`.
pub open spec fn spec_plain_chars(state: u64, n: nat) -> Seq<char> {
    Seq::new(n, |i: int| spec_base32(spec_advance_n(state, (i + 1) as nat) as u8))
}

/// A valid-looking address: `prefix` followed by `n` keyed characters, and the state after.
pub open spec fn spec_keyed_address(prefix: char, state: u64, id: u64, offset: u64, n: nat) -> (
    Seq<char>,
    u64,
) {
    (seq![prefix] + spec_keyed_chars(state, id, offset, n), spec_advance_n(state, n))
}

/// The valid address of `address_type` generated from `state` for seed `id`.
pub open spec fn spec_valid_address(address_type: AddressType, id: u64, state: u64) -> (
    Seq<char>,
    u64,
) {
    match address_type {
        AddressType::Account => spec_keyed_address('G', state, id, 0, 55),
        AddressType::Contract => spec_keyed_address('C', state, id, 1000, 55),
        AddressType::Muxed => spec_keyed_address('M', state, id, 2000, 68),
    }
}

/// Appends `n` keyed characters to `result`, drawing from `rng_state`.
fn push_keyed_chars(result: &mut String, id: u64, offset: u64, n: u64, rng_state: &mut u64)
    requires
        offset + n <= u64::MAX,
    ensures
        final(result)@ == old(result)@ + spec_keyed_chars(*old(rng_state), id, offset, n as nat),
        *final(rng_state) == spec_advance_n(*old(rng_state), n as nat),
{
    let ghost start = *rng_state;
    let ghost before = result@;
    let mut i: u64 = 0;
    while i < n
        invariant
            i <= n,
            offset + n <= u64::MAX,
            result@ =~= before + spec_keyed_chars(start, id, offset, i as nat),
            *rng_state == spec_advance_n(start, i as nat),
        decreases n - i,
    {
        advance_rng(rng_state);
        let byte = (*rng_state ^ id.wrapping_add(i + offset)) as u8;
        string_push(result, base32_char(byte));
        i = i + 1;
    }
}

/// Generate a valid account address (G-address).
/// Format: 'G' + 55 base32 characters (encoding 32 bytes + 2 byte CRC)
pub fn generate_valid_account_address(seed: &CaseSeed, rng_state: &mut u64) -> (r: String)
    ensures
        (r@, *final(rng_state)) == spec_valid_address(AddressType::Account, seed.id, *old(rng_state)),
{
    let mut result = String::new();
    string_push(&mut result, 'G');
    push_keyed_chars(&mut result, seed.id, 0, 55, rng_state);
    result
}

/// Generate a valid contract address (C-address).
/// Format: 'C' + 55 base32 characters (encoding 32 bytes + 2 byte CRC)
pub fn generate_valid_contract_address(seed: &CaseSeed, rng_state: &mut u64) -> (r: String)
    ensures
        (r@, *final(rng_state)) == spec_valid_address(AddressType::Contract, seed.id, *old(rng_state)),
{
    let mut result = String::new();
    string_push(&mut result, 'C');
    push_keyed_chars(&mut result, seed.id, 1000, 55, rng_state);
    result
}

/// Generate a valid muxed address (M-address).
/// Format: 'M' + 68 base32 characters (encoding 32 bytes pubkey + 8 bytes ID + 2 byte CRC)
pub fn generate_valid_muxed_address(seed: &CaseSeed, rng_state: &mut u64) -> (r: String)
    ensures
        (r@, *final(rng_state)) == spec_valid_address(AddressType::Muxed, seed.id, *old(rng_state)),
{
    let mut result = String::new();
    string_push(&mut result, 'M');
    push_keyed_chars(&mut result, seed.id, 2000, 68, rng_state);
    result
}

/// Generate a valid Stellar address of the given type.
pub fn generate_valid_address(address_type: AddressType, seed: &CaseSeed, rng_state: &mut u64) -> (r:
    String)
    ensures
        (r@, *final(rng_state)) == spec_valid_address(address_type, seed.id, *old(rng_state)),
{
    match address_type {
        AddressType::Account => generate_valid_account_address(seed, rng_state),
        AddressType::Contract => generate_valid_contract_address(seed, rng_state),
        AddressType::Muxed => generate_valid_muxed_address(seed, rng_state),
    }
}

/// Appends `n` plain base32 characters to `result`, drawing from `rng_state`.
fn push_plain_chars(result: &mut String, n: usize, rng_state: &mut u64)
    ensures
        final(result)@ == old(result)@ + spec_plain_chars(*old(rng_state), n as nat),
        *final(rng_state) == spec_advance_n(*old(rng_state), n as nat),
{
    let ghost start = *rng_state;
    let ghost before = result@;
    let mut i: usize = 0;
    while i < n
        invariant
            i <= n,
            result@ =~= before + spec_plain_chars(start, i as nat),
            *rng_state == spec_advance_n(start, i as nat),
        decreases n - i,
    {
        advance_rng(rng_state);
        string_push(result, base32_char(*rng_state as u8));
        i = i + 1;
    }
}

/// The wrong prefix drawn from a state: 'X', 'Y' or 'Z'.
pub open spec fn spec_wrong_prefix(state: u64) -> char {
    let k = (state as usize) % 3;
    if k == 0 {
        'X'
    } else if k == 1 {
        'Y'
    } else {
        'Z'
    }
}

/// A full-length address whose prefix is none of 'G', 'C', 'M'.
pub open spec fn spec_wrong_prefix_address(address_type: AddressType, state: u64) -> (
    Seq<char>,
    u64,
) {
    let s1 = spec_draw(state);
    let n = (address_type.spec_valid_length() - 1) as nat;
    (seq![spec_wrong_prefix(s1)] + spec_plain_chars(s1, n), spec_advance_n(s1, n))
}

/// Generate an address with wrong prefix.
pub fn generate_wrong_prefix_address(address_type: AddressType, _seed: &CaseSeed, rng_state: &mut u64) -> (r:
    String)
    ensures
        (r@, *final(rng_state)) == spec_wrong_prefix_address(address_type, *old(rng_state)),
{
    advance_rng(rng_state);
    let k = (*rng_state as usize) % 3;
    let wrong_prefix = if k == 0 {
        'X'
    } else if k == 1 {
        'Y'
    } else {
        'Z'
    };
    let mut result = String::new();
    string_push(&mut result, wrong_prefix);
    push_plain_chars(&mut result, address_type.valid_length() - 1, rng_state);
    result
}

/// Length of a truncated address: the valid length minus a drawn amount in
/// `1..valid_length / 2`.
pub open spec fn spec_truncate_len(address_type: AddressType, state: u64) -> nat {
    let valid_len = address_type.spec_valid_length();
    let cut = (state as usize) % ((valid_len / 2) as usize);
    if valid_len > 10 {
        (valid_len - (if cut >= 1 { cut as nat } else { 1nat })) as nat
    } else {
        valid_len / 2
    }
}

/// A too-short address with the right prefix (the state is not advanced before
/// the length is chosen).
pub open spec fn spec_truncated_address(address_type: AddressType, state: u64) -> (Seq<char>, u64) {
    let n = (spec_truncate_len(address_type, state) - 1) as nat;
    (seq![address_type.spec_prefix()] + spec_plain_chars(state, n), spec_advance_n(state, n))
}

/// Generate a truncated address (too short).
pub fn generate_truncated_address(address_type: AddressType, _seed: &CaseSeed, rng_state: &mut u64) -> (r:
    String)
    ensures
        (r@, *final(rng_state)) == spec_truncated_address(address_type, *old(rng_state)),
{
    let valid_len = address_type.valid_length();
    let truncate_len = if valid_len > 10 {
        let cut = *rng_state as usize % (valid_len / 2);
        valid_len - (if cut >= 1 { cut } else { 1 })
    } else {
        valid_len / 2
    };
    let mut result = String::new();
    string_push(&mut result, address_type.prefix());
    push_plain_chars(&mut result, truncate_len - 1, rng_state);
    result
}

/// Length of an extended address: the valid length plus a drawn amount in `1..10`.
pub open spec fn spec_extend_len(address_type: AddressType, state: u64) -> nat {
    let extra = (state as usize) % 10;
    address_type.spec_valid_length() + (if extra >= 1 { extra as nat } else { 1nat })
}

/// A too-long address with the right prefix.
pub open spec fn spec_extended_address(address_type: AddressType, state: u64) -> (Seq<char>, u64) {
    let n = (spec_extend_len(address_type, state) - 1) as nat;
    (seq![address_type.spec_prefix()] + spec_plain_chars(state, n), spec_advance_n(state, n))
}

/// Generate an extended address (too long).
pub fn generate_extended_address(address_type: AddressType, _seed: &CaseSeed, rng_state: &mut u64) -> (r:
    String)
    ensures
        (r@, *final(rng_state)) == spec_extended_address(address_type, *old(rng_state)),
{
    let valid_len = address_type.valid_length();
    let extra = *rng_state as usize % 10;
    let extended_len = valid_len + (if extra >= 1 { extra } else { 1 });
    let mut result = String::new();
    string_push(&mut result, address_type.prefix());
    push_plain_chars(&mut result, extended_len - 1, rng_state);
    result
}

/// Characters outside the base32 alphabet mixed into invalid-charset addresses.
pub const INVALID_CHARS: [char; 9] = ['0', '1', '8', '9', '!', '@', '#', '$', '%'];

/// Whether a draw puts a character outside the alphabet into an
/// invalid-charset address: one time in five, by the state modulo 5.
pub open spec fn spec_draws_outside(state: u64) -> bool {
    (state as usize) % 5 == 0
}

/// The character outside the alphabet that a draw picks.
pub open spec fn spec_outside_char(state: u64) -> char {
    INVALID_CHARS@[(((state as usize) >> 4usize) % 9) as int]
}

/// The character drawn from a state for an invalid-charset address: a
/// character outside the alphabet when the draw says so, otherwise base32.
pub open spec fn spec_charset_char(state: u64) -> char {
    if spec_draws_outside(state) {
        spec_outside_char(state)
    } else {
        spec_base32(state as u8)
    }
}

/// Some of the first `k` draws from `state` put a character outside the alphabet.
pub open spec fn spec_some_outside_draw(state: u64, k: nat) -> bool {
    exists|j: int| 0 <= j < k && spec_draws_outside(#[trigger] spec_advance_n(state, (j + 1) as nat))
}

/// `n` characters of an invalid-charset address, drawing from `state`; when no
/// draw before the last put a character outside the alphabet, the last
/// character is taken from outside it, so the address always holds one.
pub open spec fn spec_charset_chars(state: u64, n: nat) -> Seq<char> {
    Seq::new(
        n,
        |i: int|
            if i == n - 1 && !spec_some_outside_draw(state, (n - 1) as nat) {
                spec_outside_char(spec_advance_n(state, (i + 1) as nat))
            } else {
                spec_charset_char(spec_advance_n(state, (i + 1) as nat))
            },
    )
}

/// A full-length address with the right prefix that holds at least one
/// character outside the base32 alphabet.
pub open spec fn spec_invalid_charset_address(address_type: AddressType, state: u64) -> (
    Seq<char>,
    u64,
) {
    let n = (address_type.spec_valid_length() - 1) as nat;
    (seq![address_type.spec_prefix()] + spec_charset_chars(state, n), spec_advance_n(state, n))
}

/// Generate an address with invalid charset characters.
pub fn generate_invalid_charset_address(
    address_type: AddressType,
    _seed: &CaseSeed,
    rng_state: &mut u64,
) -> (r: String)
    ensures
        (r@, *final(rng_state)) == spec_invalid_charset_address(address_type, *old(rng_state)),
{
    let ghost start = *rng_state;
    let n = address_type.valid_length() - 1;
    let ghost all = spec_charset_chars(start, n as nat);
    let mut result = String::new();
    string_push(&mut result, address_type.prefix());
    let mut seen_outside = false;
    let mut i: usize = 0;
    while i < n
        invariant
            i <= n,
            n == address_type.spec_valid_length() - 1,
            all == spec_charset_chars(start, n as nat),
            result@ =~= seq![address_type.spec_prefix()] + all.subrange(0, i as int),
            *rng_state == spec_advance_n(start, i as nat),
            seen_outside == spec_some_outside_draw(start, i as nat),
        decreases n - i,
    {
        advance_rng(rng_state);
        let outside = (*rng_state as usize) % 5 == 0;
        let ch = if outside || (i + 1 == n && !seen_outside) {
            INVALID_CHARS[((*rng_state as usize) >> 4usize) % 9]
        } else {
            base32_char(*rng_state as u8)
        };
        string_push(&mut result, ch);
        proof {
            assert(*rng_state == spec_advance_n(start, (i + 1) as nat));
            assert(all[i as int] == ch);
            if outside {
                assert(spec_draws_outside(spec_advance_n(start, (i + 1) as nat)));
                assert(spec_some_outside_draw(start, (i + 1) as nat));
            } else {
                if spec_some_outside_draw(start, (i + 1) as nat) {
                    let j = choose|j: int|
                        0 <= j < i + 1 && spec_draws_outside(
                            #[trigger] spec_advance_n(start, (j + 1) as nat),
                        );
                    assert(j < i);
                }
                if seen_outside {
                    let j = choose|j: int|
                        0 <= j < i && spec_draws_outside(
                            #[trigger] spec_advance_n(start, (j + 1) as nat),
                        );
                    assert(0 <= j < i + 1);
                }
            }
            assert(all.subrange(0, i + 1) =~= all.subrange(0, i as int).push(ch));
        }
        seen_outside = seen_outside || outside;
        i = i + 1;
    }
    assert(all.subrange(0, n as int) =~= all);
    result
}

/// Generate an empty address.
pub fn generate_empty_address() -> (r: String)
    ensures
        r@ == Seq::<char>::empty(),
{
    String::new()
}

/// The invalid address of `address_type` generated from `state`: one draw picks
/// one of five kinds by the state modulo 5 — wrong prefix, truncated, extended,
/// invalid charset, or empty.
pub open spec fn spec_invalid_address(address_type: AddressType, state: u64) -> (Seq<char>, u64) {
    let s1 = spec_draw(state);
    let variant = (s1 as usize) % 5;
    if variant == 0 {
        spec_wrong_prefix_address(address_type, s1)
    } else if variant == 1 {
        spec_truncated_address(address_type, s1)
    } else if variant == 2 {
        spec_extended_address(address_type, s1)
    } else if variant == 3 {
        spec_invalid_charset_address(address_type, s1)
    } else {
        (Seq::empty(), s1)
    }
}

/// Generate an invalid Stellar address of the given type.
pub fn generate_invalid_address(address_type: AddressType, seed: &CaseSeed, rng_state: &mut u64) -> (r:
    String)
    ensures
        (r@, *final(rng_state)) == spec_invalid_address(address_type, *old(rng_state)),
{
    advance_rng(rng_state);
    let invalid_variant = (*rng_state as usize) % 5;
    if invalid_variant == 0 {
        generate_wrong_prefix_address(address_type, seed, rng_state)
    } else if invalid_variant == 1 {
        generate_truncated_address(address_type, seed, rng_state)
    } else if invalid_variant == 2 {
        generate_extended_address(address_type, seed, rng_state)
    } else if invalid_variant == 3 {
        generate_invalid_charset_address(address_type, seed, rng_state)
    } else {
        generate_empty_address()
    }
}

/// The address the mutator generates: one draw picks the type (state modulo 3),
/// a second draw decides validity (valid when the configuration allows only
/// valid addresses, invalid when it leaves valid ones out, otherwise valid when
/// the low bit is 0).
pub open spec fn spec_generate_address(id: u64, state: u64, config: AddressMutatorConfig) -> (
    Seq<char>,
    u64,
) {
    let s1 = spec_draw(state);
    let address_type = spec_address_type_at(((s1 as usize) % 3) as int);
    let s2 = spec_draw(s1);
    let valid = config.valid_only || !config.include_invalid || (!config.exclude_valid && (s2 & 1)
        == 0);
    if valid {
        spec_valid_address(address_type, id, s2)
    } else {
        spec_invalid_address(address_type, s2)
    }
}

/// Generate a Stellar address based on seed and RNG state.
pub fn generate_address(seed: &CaseSeed, rng_state: &mut u64, config: &AddressMutatorConfig) -> (r:
    String)
    ensures
        (r@, *final(rng_state)) == spec_generate_address(seed.id, *old(rng_state), *config),
{
    advance_rng(rng_state);
    let type_index = (*rng_state as usize) % 3;
    let address_type = address_type_at(type_index);
    advance_rng(rng_state);
    let generate_valid = if config.valid_only {
        true
    } else if !config.include_invalid {
        true
    } else if config.exclude_valid {
        false
    } else {
        (*rng_state & 1) == 0
    };
    if generate_valid {
        generate_valid_address(address_type, seed, rng_state)
    } else {
        generate_invalid_address(address_type, seed, rng_state)
    }
}

/// The seeds of one address type in [`generate_address_vectors`]: a valid
/// address, then (when invalid addresses are allowed) two invalid ones, with consecutive IDs from `id`; and
/// the generator state after them.
pub open spec fn spec_type_vectors(
    address_type: AddressType,
    id: u64,
    state: u64,
    config: AddressMutatorConfig,
) -> (Seq<crate::SeedView>, u64) {
    let (v, s1) = spec_valid_address(address_type, 0, state);
    let first = crate::SeedView { id, payload: encode_utf8(v) };
    if config.include_invalid && !config.valid_only {
        let (a, s2) = spec_invalid_address(address_type, s1);
        let (b, s3) = spec_invalid_address(address_type, s2);
        (
            seq![
                first,
                crate::SeedView { id: (id + 1) as u64, payload: encode_utf8(a) },
                crate::SeedView { id: (id + 2) as u64, payload: encode_utf8(b) },
            ],
            s3,
        )
    } else {
        (seq![first], s1)
    }
}

/// Number of seeds per address type in [`generate_address_vectors`].
pub open spec fn spec_vectors_per_type(config: AddressMutatorConfig) -> nat {
    if config.include_invalid && !config.valid_only {
        3
    } else {
        1
    }
}

/// The seeds for the first `n` address types, and the generator state after them.
/// The generator state starts at `base_id`.
pub open spec fn spec_address_vectors_upto(n: nat, base_id: u64, config: AddressMutatorConfig) -> (
    Seq<crate::SeedView>,
    u64,
)
    decreases n,
{
    if n == 0 {
        (seq![], base_id)
    } else {
        let (prev, state) = spec_address_vectors_upto((n - 1) as nat, base_id, config);
        let (group, next) = spec_type_vectors(
            spec_address_type_at(n - 1),
            (base_id + prev.len()) as u64,
            state,
            config,
        );
        (prev + group, next)
    }
}

/// Appends the seeds of one address type, from `id` on, drawing from `rng`.
fn push_type_vectors(
    seeds: &mut Vec<CaseSeed>,
    addr_type: AddressType,
    id: u64,
    rng: &mut u64,
    config: &AddressMutatorConfig,
)
    requires
        id + spec_vectors_per_type(*config) <= u64::MAX,
    ensures
        final(seeds)@.map_values(|s: CaseSeed| s@) == old(seeds)@.map_values(|s: CaseSeed| s@)
            + spec_type_vectors(addr_type, id, *old(rng), *config).0,
        *final(rng) == spec_type_vectors(addr_type, id, *old(rng), *config).1,
        spec_type_vectors(addr_type, id, *old(rng), *config).0.len() == spec_vectors_per_type(*config),
        final(seeds)@.len() == old(seeds)@.len() + spec_vectors_per_type(*config),
{
    let ghost before = seeds@.map_values(|s: CaseSeed| s@);
    let ghost group = spec_type_vectors(addr_type, id, *rng, *config);
    let empty = CaseSeed { id: 0, payload: Vec::new() };
    if config.include_invalid && !config.valid_only {
        let valid_addr = generate_valid_address(addr_type, &empty, rng);
        seeds.push(CaseSeed { id, payload: string_into_bytes(valid_addr) });
        let invalid_a = generate_invalid_address(addr_type, &empty, rng);
        seeds.push(CaseSeed { id: id + 1, payload: string_into_bytes(invalid_a) });
        let invalid_b = generate_invalid_address(addr_type, &empty, rng);
        seeds.push(CaseSeed { id: id + 2, payload: string_into_bytes(invalid_b) });
        assert(seeds@.map_values(|s: CaseSeed| s@) =~= before + group.0);
    } else {
        let valid_addr = generate_valid_address(addr_type, &empty, rng);
        seeds.push(CaseSeed { id, payload: string_into_bytes(valid_addr) });
        assert(seeds@.map_values(|s: CaseSeed| s@) =~= before + group.0);
    }
}

/// Generate a deterministic set of address test vectors.
pub fn generate_address_vectors(base_id: u64, config: &AddressMutatorConfig) -> (r: Vec<CaseSeed>)
    requires
        base_id + 3 * spec_vectors_per_type(*config) <= u64::MAX,
    ensures
        r@.map_values(|s: CaseSeed| s@) == spec_address_vectors_upto(3, base_id, *config).0,
{
    let mut seeds: Vec<CaseSeed> = Vec::new();
    let mut id = base_id;
    let mut rng = base_id;
    let ghost per = spec_vectors_per_type(*config);
    let mut k: usize = 0;
    while k < 3
        invariant
            k <= 3,
            per == spec_vectors_per_type(*config),
            base_id + 3 * per <= u64::MAX,
            seeds@.map_values(|s: CaseSeed| s@) =~= spec_address_vectors_upto(k as nat, base_id, *config).0,
            rng == spec_address_vectors_upto(k as nat, base_id, *config).1,
            seeds@.len() == k * per,
            id == base_id + seeds@.len(),
        decreases 3 - k,
    {
        let addr_type = address_type_at(k);
        let ghost prev = seeds@.map_values(|s: CaseSeed| s@);
        let ghost state = rng;
        let before_len = seeds.len();
        proof {
            assert(k * per + per == (k + 1) * per) by (nonlinear_arith);
            assert((k + 1) * per <= 3 * per) by (nonlinear_arith)
                requires k < 3;
        }
        push_type_vectors(&mut seeds, addr_type, id, &mut rng, config);
        id = id + (seeds.len() - before_len) as u64;
        proof {
            let group = spec_type_vectors(addr_type, (base_id + prev.len()) as u64, state, *config);
            assert(seeds@.map_values(|s: CaseSeed| s@) =~= prev + group.0);
        }
        k = k + 1;
    }
    seeds
}

/// Whether `c` is in the base32 alphabet.
pub open spec fn spec_is_base32(c: char) -> bool {
    BASE32_ALPHABET@.contains(c)
}

/// The shape check of a Stellar address: prefix 'G' or 'C' with 56 characters,
/// or 'M' with 69, and every other character in the base32 alphabet.
pub open spec fn spec_is_well_formed_address(a: Seq<char>) -> bool {
    &&& a.len() > 0
    &&& (a[0] == 'G' || a[0] == 'C') ==> a.len() == 56
    &&& a[0] == 'M' ==> a.len() == 69
    &&& (a[0] == 'G' || a[0] == 'C' || a[0] == 'M')
    &&& forall|i: int| 1 <= i < a.len() ==> spec_is_base32(#[trigger] a[i])
}

proof fn lemma_base32_in_alphabet(b: u8)
    ensures
        spec_is_base32(spec_base32(b)),
{
    assert(BASE32_ALPHABET@[(b % 32) as int] == spec_base32(b));
}

/// Every valid address that the generators produce is well formed, and its
/// prefix is that of its type.
pub proof fn law_valid_addresses_are_well_formed(address_type: AddressType, id: u64, state: u64)
    ensures
        spec_is_well_formed_address(spec_valid_address(address_type, id, state).0),
        spec_valid_address(address_type, id, state).0[0] == address_type.spec_prefix(),
        spec_valid_address(address_type, id, state).0.len() == address_type.spec_valid_length(),
{
    let a = spec_valid_address(address_type, id, state).0;
    assert forall|i: int| 1 <= i < a.len() implies spec_is_base32(#[trigger] a[i]) by {
        let offset: u64 = match address_type {
            AddressType::Account => 0,
            AddressType::Contract => 1000,
            AddressType::Muxed => 2000,
        };
        lemma_base32_in_alphabet(
            (spec_advance_n(state, i as nat) ^ id.wrapping_add((i - 1 + offset) as u64)) as u8,
        );
    }
}

/// A mutator that allows only valid addresses always produces a well-formed address.
pub proof fn law_valid_only_mutator_output_is_well_formed(
    id: u64,
    state: u64,
    config: AddressMutatorConfig,
)
    requires
        config.valid_only || !config.include_invalid,
    ensures
        spec_is_well_formed_address(spec_generate_address(id, state, config).0),
{
    let s1 = spec_draw(state);
    let address_type = spec_address_type_at(((s1 as usize) % 3) as int);
    law_valid_addresses_are_well_formed(address_type, id, spec_draw(s1));
}

/// No character outside the alphabet is a base32 character.
proof fn lemma_outside_chars_not_base32(m: int)
    requires
        0 <= m < 9,
    ensures
        !spec_is_base32(INVALID_CHARS@[m]),
{
    assert(BASE32_ALPHABET@ =~= seq![
        'A', 'B', 'C', 'D', 'E', 'F', 'G', 'H', 'I', 'J', 'K', 'L', 'M', 'N', 'O', 'P',
        'Q', 'R', 'S', 'T', 'U', 'V', 'W', 'X', 'Y', 'Z', '2', '3', '4', '5', '6', '7',
    ]);
    assert(INVALID_CHARS@ =~= seq!['0', '1', '8', '9', '!', '@', '#', '$', '%']);
    if spec_is_base32(INVALID_CHARS@[m]) {
        let k = choose|k: int| 0 <= k < 32 && BASE32_ALPHABET@[k] == INVALID_CHARS@[m];
        assert(false);
    }
}

/// An invalid-charset address always holds a character outside the alphabet.
proof fn lemma_charset_address_not_well_formed(address_type: AddressType, state: u64)
    ensures
        !spec_is_well_formed_address(spec_invalid_charset_address(address_type, state).0),
{
    let n = (address_type.spec_valid_length() - 1) as nat;
    let a = spec_invalid_charset_address(address_type, state).0;
    let chars = spec_charset_chars(state, n);
    if spec_some_outside_draw(state, (n - 1) as nat) {
        let j = choose|j: int|
            0 <= j < n - 1 && spec_draws_outside(#[trigger] spec_advance_n(state, (j + 1) as nat));
        let st = spec_advance_n(state, (j + 1) as nat);
        assert(chars[j] == spec_outside_char(st));
        assert(a[j + 1] == chars[j]);
        lemma_outside_chars_not_base32((((st as usize) >> 4usize) % 9) as int);
    } else {
        let st = spec_advance_n(state, n);
        assert(chars[n - 1] == spec_outside_char(st));
        assert(a[n as int] == chars[n - 1]);
        lemma_outside_chars_not_base32((((st as usize) >> 4usize) % 9) as int);
    }
}

/// An invalid address of every kind fails the shape check.
pub proof fn law_invalid_addresses_fail_shape_check(address_type: AddressType, state: u64)
    ensures
        !spec_is_well_formed_address(spec_invalid_address(address_type, state).0),
{
    lemma_charset_address_not_well_formed(address_type, spec_draw(state));
}

/// A mutator that leaves valid addresses out never produces a well-formed
/// address.
pub proof fn law_invalid_only_mutator_output_is_not_well_formed(
    id: u64,
    state: u64,
    config: AddressMutatorConfig,
)
    requires
        !config.valid_only,
        config.include_invalid,
        config.exclude_valid,
    ensures
        !spec_is_well_formed_address(spec_generate_address(id, state, config).0),
{
    let s1 = spec_draw(state);
    let address_type = spec_address_type_at(((s1 as usize) % 3) as int);
    law_invalid_addresses_fail_shape_check(address_type, spec_draw(s1));
}

/// A mixed mutator (invalid addresses allowed, valid ones not left out)
/// produces a well-formed address exactly when the low bit of its second draw
/// is 0, and an address that fails the shape check when that bit is 1.
pub proof fn law_mixed_mutator_validity_follows_second_draw(
    id: u64,
    state: u64,
    config: AddressMutatorConfig,
)
    requires
        !config.valid_only,
        config.include_invalid,
        !config.exclude_valid,
    ensures
        spec_is_well_formed_address(spec_generate_address(id, state, config).0) <==> (spec_draw(
            spec_draw(state),
        ) & 1) == 0,
{
    let s1 = spec_draw(state);
    let address_type = spec_address_type_at(((s1 as usize) % 3) as int);
    law_valid_addresses_are_well_formed(address_type, id, spec_draw(s1));
    law_invalid_addresses_fail_shape_check(address_type, spec_draw(s1));
}

/// The seeds for the first `n` address types have consecutive IDs from
/// `base_id`, `per` of them for each type, and type `t`'s group starts with its
/// valid address.
proof fn lemma_vectors_upto_shape(n: nat, base_id: u64, config: AddressMutatorConfig)
    requires
        n <= 3,
        base_id + 3 * spec_vectors_per_type(config) <= u64::MAX,
    ensures
        spec_address_vectors_upto(n, base_id, config).0.len() == n * spec_vectors_per_type(config),
        forall|k: int|
            0 <= k < spec_address_vectors_upto(n, base_id, config).0.len()
                ==> (#[trigger] spec_address_vectors_upto(n, base_id, config).0[k]).id == base_id + k,
        forall|t: int|
            0 <= t < n ==> #[trigger] spec_address_vectors_upto(n, base_id, config).0[t
                * spec_vectors_per_type(config)].payload == encode_utf8(
                spec_valid_address(
                    spec_address_type_at(t),
                    0,
                    spec_address_vectors_upto(t as nat, base_id, config).1,
                ).0,
            ),
    decreases n,
{
    let per = spec_vectors_per_type(config);
    if n > 0 {
        let m = (n - 1) as nat;
        lemma_vectors_upto_shape(m, base_id, config);
        let (prev, state) = spec_address_vectors_upto(m, base_id, config);
        assert(m * per + per == n * per) by (nonlinear_arith)
            requires m + 1 == n;
        assert(n * per <= 3 * per) by (nonlinear_arith)
            requires n <= 3;
        let group = spec_type_vectors(spec_address_type_at(m as int), (base_id + prev.len()) as u64, state, config).0;
        let all = spec_address_vectors_upto(n, base_id, config).0;
        assert(all == prev + group);
        assert forall|t: int| 0 <= t < n implies #[trigger] all[t * per].payload == encode_utf8(
            spec_valid_address(spec_address_type_at(t), 0, spec_address_vectors_upto(t as nat, base_id, config).1).0,
        ) by {
            if t < m {
                assert(t * per + per <= m * per) by (nonlinear_arith)
                    requires t < m, per >= 1;
                assert(all[t * per] == prev[t * per]);
            } else {
                assert(t * per == prev.len());
                assert(all[t * per] == group[0]);
            }
        }
    }
}

/// Whatever the configuration, every address type's group of test vectors
/// starts with that type's valid address, and the seeds have consecutive IDs
/// from `base_id`.
pub proof fn law_vectors_lead_with_valid_addresses(base_id: u64, config: AddressMutatorConfig, t: int)
    requires
        0 <= t < 3,
        base_id + 3 * spec_vectors_per_type(config) <= u64::MAX,
    ensures
        spec_address_vectors_upto(3, base_id, config).0.len() == 3 * spec_vectors_per_type(config),
        forall|k: int|
            0 <= k < spec_address_vectors_upto(3, base_id, config).0.len()
                ==> (#[trigger] spec_address_vectors_upto(3, base_id, config).0[k]).id == base_id + k,
        exists|a: Seq<char>|
            spec_address_vectors_upto(3, base_id, config).0[t * spec_vectors_per_type(config)].payload
                == encode_utf8(a) && spec_is_well_formed_address(a) && a[0] == spec_address_type_at(
                t,
            ).spec_prefix() && a.len() == spec_address_type_at(t).spec_valid_length(),
{
    lemma_vectors_upto_shape(3, base_id, config);
    let a = spec_valid_address(
        spec_address_type_at(t),
        0,
        spec_address_vectors_upto(t as nat, base_id, config).1,
    ).0;
    law_valid_addresses_are_well_formed(
        spec_address_type_at(t),
        0,
        spec_address_vectors_upto(t as nat, base_id, config).1,
    );
    assert(spec_address_vectors_upto(3, base_id, config).0[t * spec_vectors_per_type(config)].payload
        == encode_utf8(a));
}

} // verus!
