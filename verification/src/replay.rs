//! Replay of a persisted seed bundle: re-classify the seed and compare.
use vstd::prelude::*;

use crate::{CaseBundle, CrashSignature, SeedView, SignatureView, classify, signatures_match, spec_bundle_seed, spec_classify};

verus! {

/// Replay outcome for a single persisted seed bundle.
#[derive(Debug, PartialEq, Eq)]
pub struct ReplayResult {
    pub expected: CrashSignature,
    pub actual: CrashSignature,
    pub matches: bool,
}

/// Re-runs classification from the bundle seed and compares signatures.
pub fn replay_seed_bundle(bundle: &CaseBundle) -> (r: ReplayResult)
    ensures
        r.expected@ == bundle.signature@,
        r.actual@ == spec_classify(bundle.seed@),
        r.matches == (bundle.signature@ == spec_classify(bundle.seed@)),
{
    let actual = classify(&bundle.seed);
    let expected = bundle.signature.clone();
    let matches = signatures_match(&expected, &actual);
    ReplayResult { expected, actual, matches }
}

/// A bundle made by `to_bundle` replays as a match: its stored signature is the
/// classification of its stored seed.
pub proof fn law_fresh_bundle_replays(seed: SeedView)
    ensures
        ({
            let stored_seed = spec_bundle_seed(seed);
            let stored_signature: SignatureView = spec_classify(spec_bundle_seed(seed));
            stored_signature == spec_classify(stored_seed)
        }),
{
}

} // verus!
