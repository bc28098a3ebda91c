//! Core fuzzing types for Soroban contract crash reproduction: seeds, crash
//! signatures, failing-case bundles and the deterministic pipeline that turns a
//! seed into a bundle.
use vstd::prelude::*;

pub mod prng;
pub mod splitmix;
pub mod text;
pub mod mutator;
pub mod env_fingerprint;
pub mod rpc_envelope;
pub mod stellar_address;
pub mod bytes;
pub mod boundary;
pub mod decimal_precision;
pub mod enum_flip;
pub mod container_stress;
pub mod taxonomy;
pub mod worker_partition;
pub mod checkpoint;
pub mod mutation_budget;
pub mod campaign_presets;
pub mod replay;
pub mod bundle_persist;
pub mod order;
pub mod scenario_export;
pub mod regression_suite;
pub mod seed_novelty;
pub mod retention;
pub mod corpus;
pub mod retry;
pub mod reproducer;
pub mod artifact_compress;
pub mod seed_validator;
pub mod fixture_compat;

pub use prng::SeededPrng;
pub use mutator::Mutator;
pub use seed_validator::{SeedSchema, SeedValidationError, Validate};
pub use env_fingerprint::{
    EnvironmentFingerprint, ReplayEnvironmentReport, check_bundle_replay_environment,
    check_replay_environment,
};
pub use rpc_envelope::{JsonValue, RpcEnvelopeCapture, RpcRequestEnvelope, RpcResponseEnvelope};

use crate::prng::{spec_prng_init, spec_stream};
use vstd::utf8::encode_utf8;

verus! {

/// A fuzzing input: an identifier and the payload bytes handed to the contract.
#[derive(Debug, PartialEq, Eq)]
pub struct CaseSeed {
    pub id: u64,
    pub payload: Vec<u8>,
}

/// The mathematical value of a [`CaseSeed`].
pub struct SeedView {
    pub id: u64,
    pub payload: Seq<u8>,
}

impl View for CaseSeed {
    type V = SeedView;

    open spec fn view(&self) -> SeedView {
        SeedView { id: self.id, payload: self.payload@ }
    }
}

impl Clone for CaseSeed {
    fn clone(&self) -> (r: Self)
        ensures
            r@ == self@,
    {
        let payload = self.payload.clone();
        assert(payload@ =~= self.payload@);
        CaseSeed { id: self.id, payload }
    }
}

/// Identity of a failure: its category, a digest of the seed, and a hash of
/// category and payload alone.
#[derive(Debug, PartialEq, Eq)]
pub struct CrashSignature {
    pub category: String,
    pub digest: u64,
    /// Stable hash derived solely from `category` and payload bytes.
    ///
    /// Two failures are considered equivalent when their `signature_hash` values
    /// are equal, regardless of which seed produced them.
    pub signature_hash: u64,
}

/// The mathematical value of a [`CrashSignature`].
pub struct SignatureView {
    pub category: Seq<char>,
    pub digest: u64,
    pub signature_hash: u64,
}

impl View for CrashSignature {
    type V = SignatureView;

    open spec fn view(&self) -> SignatureView {
        SignatureView {
            category: self.category@,
            digest: self.digest,
            signature_hash: self.signature_hash,
        }
    }
}

impl Clone for CrashSignature {
    fn clone(&self) -> (r: Self)
        ensures
            r@ == self@,
    {
        CrashSignature {
            category: self.category.clone(),
            digest: self.digest,
            signature_hash: self.signature_hash,
        }
    }
}

/// FNV-1a 64-bit offset basis.
pub const FNV_OFFSET: u64 = 14695981039346656037;

/// FNV-1a 64-bit prime.
pub const FNV_PRIME: u64 = 1099511628211;

/// FNV-1a over `bytes`, starting from `h`.
pub open spec fn spec_fnv1a(h: u64, bytes: Seq<u8>) -> u64
    decreases bytes.len(),
{
    if bytes.len() == 0 {
        h
    } else {
        ((spec_fnv1a(h, bytes.drop_last()) ^ (bytes.last() as u64)) as u64).wrapping_mul(
            FNV_PRIME,
        )
    }
}

/// The signature hash of a failure: FNV-1a over the UTF-8 bytes of the
/// category followed by the payload bytes.
pub open spec fn spec_signature_hash(category: Seq<char>, payload: Seq<u8>) -> u64 {
    spec_fnv1a(FNV_OFFSET, encode_utf8(category) + payload)
}

/// FNV-1a over `bytes` in one loop, from `h`.
fn fnv1a_extend(h: u64, bytes: &[u8]) -> (r: u64)
    ensures
        r == spec_fnv1a(h, bytes@),
{
    let mut hash = h;
    let mut i: usize = 0;
    while i < bytes.len()
        invariant
            i <= bytes@.len(),
            hash == spec_fnv1a(h, bytes@.subrange(0, i as int)),
        decreases bytes.len() - i,
    {
        assert(bytes@.subrange(0, i + 1).drop_last() =~= bytes@.subrange(0, i as int));
        hash = hash ^ (bytes[i] as u64);
        hash = hash.wrapping_mul(FNV_PRIME);
        i = i + 1;
    }
    assert(bytes@.subrange(0, i as int) =~= bytes@);
    hash
}

/// FNV-1a over `a` then `b` equals FNV-1a over `b` continued from the hash of `a`.
pub proof fn lemma_fnv1a_concat(h: u64, a: Seq<u8>, b: Seq<u8>)
    ensures
        spec_fnv1a(h, a + b) == spec_fnv1a(spec_fnv1a(h, a), b),
    decreases b.len(),
{
    if b.len() == 0 {
        assert(a + b =~= a);
    } else {
        lemma_fnv1a_concat(h, a, b.drop_last());
        assert((a + b).drop_last() =~= a + b.drop_last());
    }
}

/// Computes a stable FNV-1a 64-bit hash from `category` and `payload`.
///
/// The hash is deterministic and independent of any seed ID, so equivalent
/// failures always produce the same value.
pub fn compute_signature_hash(category: &str, payload: &[u8]) -> (r: u64)
    ensures
        r == spec_signature_hash(category@, payload@),
{
    let bytes = category.as_bytes();
    let h = fnv1a_extend(FNV_OFFSET, bytes);
    proof {
        lemma_fnv1a_concat(FNV_OFFSET, bytes@, payload@);
    }
    fnv1a_extend(h, payload)
}

/// A persisted failing case: the seed, its signature, and optional context.
#[derive(Debug, PartialEq, Eq)]
pub struct CaseBundle {
    pub seed: CaseSeed,
    pub signature: CrashSignature,
    /// Host environment captured when the bundle was produced, if enabled.
    pub environment: Option<EnvironmentFingerprint>,
    /// Raw failure output (stderr, host error bytes, trace snippet, etc.).
    pub failure_payload: Vec<u8>,
    /// Captured RPC request/response envelopes for reproducibility auditing.
    pub rpc_envelope: Option<RpcEnvelopeCapture>,
}

/// The mathematical value of a [`CaseBundle`].
pub struct BundleView {
    pub seed: SeedView,
    pub signature: SignatureView,
    pub environment: Option<EnvironmentFingerprint>,
    pub failure_payload: Seq<u8>,
    pub rpc_envelope: Option<rpc_envelope::CaptureView>,
}

/// The view of an optional envelope capture.
pub open spec fn envelope_view(e: Option<RpcEnvelopeCapture>) -> Option<rpc_envelope::CaptureView> {
    match e {
        Some(c) => Some(c@),
        None => None,
    }
}

impl View for CaseBundle {
    type V = BundleView;

    open spec fn view(&self) -> BundleView {
        BundleView {
            seed: self.seed@,
            signature: self.signature@,
            environment: self.environment,
            failure_payload: self.failure_payload@,
            rpc_envelope: envelope_view(self.rpc_envelope),
        }
    }
}

/// A copy of an optional fingerprint.
fn clone_environment(e: &Option<EnvironmentFingerprint>) -> (r: Option<EnvironmentFingerprint>)
    ensures
        r == *e,
{
    match e {
        Some(fp) => Some(fp.clone()),
        None => None,
    }
}

/// A copy of an optional envelope capture.
fn clone_envelope(e: &Option<RpcEnvelopeCapture>) -> (r: Option<RpcEnvelopeCapture>)
    ensures
        envelope_view(r) == envelope_view(*e),
{
    match e {
        Some(c) => Some(c.clone()),
        None => None,
    }
}

impl Clone for CaseBundle {
    fn clone(&self) -> (r: Self)
        ensures
            r@ == self@,
    {
        let failure_payload = self.failure_payload.clone();
        assert(failure_payload@ =~= self.failure_payload@);
        CaseBundle {
            seed: self.seed.clone(),
            signature: self.signature.clone(),
            environment: clone_environment(&self.environment),
            failure_payload,
            rpc_envelope: clone_envelope(&self.rpc_envelope),
        }
    }
}

impl CaseBundle {
    /// Compares the stored fingerprint (if any) with `current` for replay safety.
    pub fn replay_environment_report(&self, current: &EnvironmentFingerprint) -> (r:
        ReplayEnvironmentReport)
        ensures
            r@ == env_fingerprint::spec_replay_report(self.environment, *current),
    {
        check_replay_environment(self.environment.as_ref(), current)
    }
}

/// The payload of `seed` XORed byte by byte with the mutation stream of a
/// generator seeded by the seed ID.
pub open spec fn spec_mutated_payload(id: u64, payload: Seq<u8>) -> Seq<u8> {
    let stream = spec_stream(spec_prng_init(id), payload.len());
    Seq::new(payload.len(), |i: int| payload[i] ^ stream[i])
}

/// Deterministically mutates a seed: every payload byte is XORed with the next
/// byte of the stream of [`SeededPrng::new`]`(seed.id)`. The ID is kept.
pub fn mutate_seed(seed: &CaseSeed) -> (r: CaseSeed)
    ensures
        r.id == seed.id,
        r.payload@ == spec_mutated_payload(seed.id, seed.payload@),
{
    let mut rng = SeededPrng::new(seed.id);
    let stream = rng.mutation_stream(seed.payload.len());
    let mut payload: Vec<u8> = Vec::new();
    let mut i: usize = 0;
    while i < seed.payload.len()
        invariant
            i <= seed.payload@.len(),
            stream@ == spec_stream(spec_prng_init(seed.id), seed.payload@.len()),
            payload@ =~= spec_mutated_payload(seed.id, seed.payload@).subrange(0, i as int),
        decreases seed.payload.len() - i,
    {
        payload.push(seed.payload[i] ^ stream[i]);
        i = i + 1;
    }
    assert(spec_mutated_payload(seed.id, seed.payload@).subrange(0, i as int)
        =~= spec_mutated_payload(seed.id, seed.payload@));
    CaseSeed { id: seed.id, payload }
}

/// Strategy that applies [`mutate_seed`]: the seed's own stream flips the
/// payload bits, and the caller's random state is left as it was.
pub struct DefaultMutator;

impl Mutator for DefaultMutator {
    open spec fn is_runnable(&self) -> bool {
        true
    }

    fn name(&self) -> (r: &'static str)
        ensures
            r@ == "bit-flipper"@,
    {
        "bit-flipper"
    }

    fn mutate(&self, seed: &CaseSeed, rng_state: &mut u64) -> (r: CaseSeed)
        ensures
            r.id == seed.id,
            r.payload@ == spec_mutated_payload(seed.id, seed.payload@),
            *final(rng_state) == *old(rng_state),
    {
        mutate_seed(seed)
    }
}

/// Seed digest: starting from the seed ID, each byte folds in as
/// `acc * FNV_PRIME + byte` (wrapping).
pub open spec fn spec_digest(id: u64, payload: Seq<u8>) -> u64
    decreases payload.len(),
{
    if payload.len() == 0 {
        id
    } else {
        spec_digest(id, payload.drop_last()).wrapping_mul(FNV_PRIME).wrapping_add(
            payload.last() as u64,
        )
    }
}

/// Category of a seed: empty, oversized (more than 64 bytes), or a runtime failure.
pub open spec fn spec_category(payload: Seq<u8>) -> Seq<char> {
    if payload.len() == 0 {
        "empty-input"@
    } else if payload.len() > 64 {
        "oversized-input"@
    } else {
        "runtime-failure"@
    }
}

/// The signature that [`classify`] gives a seed.
pub open spec fn spec_classify(seed: SeedView) -> SignatureView {
    SignatureView {
        category: spec_category(seed.payload),
        digest: spec_digest(seed.id, seed.payload),
        signature_hash: spec_signature_hash(spec_category(seed.payload), seed.payload),
    }
}

/// Computes the crash signature of a seed.
pub fn classify(seed: &CaseSeed) -> (r: CrashSignature)
    ensures
        r@ == spec_classify(seed@),
{
    let mut digest = seed.id;
    let mut i: usize = 0;
    while i < seed.payload.len()
        invariant
            i <= seed.payload@.len(),
            digest == spec_digest(seed.id, seed.payload@.subrange(0, i as int)),
        decreases seed.payload.len() - i,
    {
        assert(seed.payload@.subrange(0, i + 1).drop_last() =~= seed.payload@.subrange(
            0,
            i as int,
        ));
        digest = digest.wrapping_mul(FNV_PRIME).wrapping_add(seed.payload[i] as u64);
        i = i + 1;
    }
    assert(seed.payload@.subrange(0, i as int) =~= seed.payload@);

    let category: &str = if seed.payload.len() == 0 {
        "empty-input"
    } else if seed.payload.len() > 64 {
        "oversized-input"
    } else {
        "runtime-failure"
    };
    let signature_hash = compute_signature_hash(category, seed.payload.as_slice());
    CrashSignature { category: category.to_owned(), digest, signature_hash }
}

/// The bundle that [`to_bundle`] builds: the mutated seed and its signature.
pub open spec fn spec_bundle_seed(seed: SeedView) -> SeedView {
    SeedView { id: seed.id, payload: spec_mutated_payload(seed.id, seed.payload) }
}

/// Mutates `seed`, classifies the result and wraps both in a bundle with no
/// environment, failure payload or RPC capture.
pub fn to_bundle(seed: CaseSeed) -> (r: CaseBundle)
    ensures
        r.seed@ == spec_bundle_seed(seed@),
        r.signature@ == spec_classify(spec_bundle_seed(seed@)),
        r.environment is None,
        r.failure_payload@.len() == 0,
        r.rpc_envelope is None,
{
    let mutated = mutate_seed(&seed);
    let signature = classify(&mutated);
    CaseBundle {
        seed: mutated,
        signature,
        environment: None,
        failure_payload: Vec::new(),
        rpc_envelope: None,
    }
}

/// Like [`to_bundle`], but attaches the given host fingerprint for replay checks
/// (the fingerprint of the running host is taken by `EnvironmentFingerprint::capture`
/// in the application layer).
pub fn to_bundle_with_environment(seed: CaseSeed, environment: EnvironmentFingerprint) -> (r:
    CaseBundle)
    ensures
        r.seed@ == spec_bundle_seed(seed@),
        r.signature@ == spec_classify(spec_bundle_seed(seed@)),
        r.environment == Some(environment),
        r.failure_payload@.len() == 0,
        r.rpc_envelope is None,
{
    let mutated = mutate_seed(&seed);
    let signature = classify(&mutated);
    CaseBundle {
        seed: mutated,
        signature,
        environment: Some(environment),
        failure_payload: Vec::new(),
        rpc_envelope: None,
    }
}

/// Like [`to_bundle`], but attaches an RPC envelope capture for reproducibility auditing.
pub fn to_bundle_with_rpc_envelope(seed: CaseSeed, envelope: RpcEnvelopeCapture) -> (r:
    CaseBundle)
    ensures
        r.seed@ == spec_bundle_seed(seed@),
        r.signature@ == spec_classify(spec_bundle_seed(seed@)),
        r.environment is None,
        r.failure_payload@.len() == 0,
        r.rpc_envelope == Some(envelope),
{
    let mutated = mutate_seed(&seed);
    let signature = classify(&mutated);
    CaseBundle {
        seed: mutated,
        signature,
        environment: None,
        failure_payload: Vec::new(),
        rpc_envelope: Some(envelope),
    }
}

/// Two signatures match when category, digest and signature hash are all equal.
pub fn signatures_match(expected: &CrashSignature, actual: &CrashSignature) -> (r: bool)
    ensures
        r == (expected@ == actual@),
{
    expected.category == actual.category && expected.digest == actual.digest
        && expected.signature_hash == actual.signature_hash
}

/// The signature hash depends on the category and payload only: two seeds with
/// the same payload get the same category and signature hash, whatever their IDs.
pub proof fn law_signature_hash_ignores_seed_id(a: SeedView, b: SeedView)
    requires
        a.payload == b.payload,
    ensures
        spec_classify(a).category == spec_classify(b).category,
        spec_classify(a).signature_hash == spec_classify(b).signature_hash,
{
}

/// A seed's failure class is fixed by its payload length: an empty payload is
/// "empty-input", a payload of 1 to 64 bytes a "runtime-failure", and one of
/// more than 64 bytes "oversized-input". The signature hash is taken over that
/// class and the payload.
pub proof fn law_classify_category_by_length(seed: SeedView)
    ensures
        seed.payload.len() == 0 ==> spec_classify(seed).category == "empty-input"@,
        1 <= seed.payload.len() <= 64 ==> spec_classify(seed).category == "runtime-failure"@,
        seed.payload.len() > 64 ==> spec_classify(seed).category == "oversized-input"@,
        spec_classify(seed).signature_hash == spec_fnv1a(
            FNV_OFFSET,
            encode_utf8(spec_classify(seed).category) + seed.payload,
        ),
{
}

/// The digest of a seed folds its payload into its ID byte by byte: a seed
/// without payload has its ID as digest, and one more byte `b` turns digest `d`
/// into `d * 1099511628211 + b` (wrapping).
pub proof fn law_digest_folds_each_byte(id: u64, payload: Seq<u8>, b: u8)
    ensures
        spec_classify(SeedView { id, payload: Seq::empty() }).digest == id,
        spec_classify(SeedView { id, payload: payload.push(b) }).digest == spec_classify(
            SeedView { id, payload },
        ).digest.wrapping_mul(1099511628211u64).wrapping_add(b as u64),
{
    assert(payload.push(b).drop_last() =~= payload);
}

/// The FNV-1a hash of no bytes is the offset basis 14695981039346656037, and
/// one more byte `b` turns hash `h` into `(h ^ b) * 1099511628211` (wrapping).
pub proof fn law_fnv1a_steps(h: u64, bytes: Seq<u8>, b: u8)
    ensures
        spec_fnv1a(h, Seq::empty()) == h,
        FNV_OFFSET == 14695981039346656037u64,
        spec_fnv1a(h, bytes.push(b)) == ((spec_fnv1a(h, bytes) ^ (b as u64)) as u64).wrapping_mul(
            1099511628211u64,
        ),
{
    assert(bytes.push(b).drop_last() =~= bytes);
}

/// Mutation keeps the seed ID and the payload length.
pub proof fn law_mutation_keeps_id_and_length(seed: SeedView)
    ensures
        spec_bundle_seed(seed).id == seed.id,
        spec_bundle_seed(seed).payload.len() == seed.payload.len(),
{
}

/// Mutation is an involution: XORing with the same stream twice gives the
/// original payload back.
pub proof fn law_mutation_is_involution(seed: SeedView)
    ensures
        spec_bundle_seed(spec_bundle_seed(seed)) == seed,
{
    let once = spec_bundle_seed(seed);
    let twice = spec_bundle_seed(once);
    assert forall|i: int| 0 <= i < seed.payload.len() implies #[trigger] twice.payload[i]
        == seed.payload[i] by {
        let s = spec_stream(spec_prng_init(seed.id), seed.payload.len())[i];
        let p = seed.payload[i];
        assert((p ^ s) ^ s == p) by (bit_vector);
    }
    assert(twice.payload =~= seed.payload);
}

} // verus!
