//! Shrinking of failing seeds: chunks of the payload are removed as long as the
//! reproducer still reports the expected signature.
//!
//! Flakiness detection, which computes flake rates as fractions, lives in the
//! application layer.
use vstd::prelude::*;

use crate::retry::{next_retry_step, RetryConfig, RetryStep, SimulationError};
use crate::{signatures_match, CaseBundle, CaseSeed, CrashSignature, SignatureView};

verus! {

/// `p` without the bytes in `[start, end)`.
pub open spec fn spec_remove_range(p: Seq<u8>, start: int, end: int) -> Seq<u8> {
    p.subrange(0, start) + p.subrange(end, p.len() as int)
}

/// `idx` places each byte of `a`, in order, at a position of `b` holding it.
pub open spec fn spec_embeds(a: Seq<u8>, b: Seq<u8>, idx: Seq<int>) -> bool {
    &&& idx.len() == a.len()
    &&& forall|k: int| 0 <= k < a.len() ==> 0 <= #[trigger] idx[k] < b.len() && a[k] == b[idx[k]]
    &&& forall|k: int, l: int| 0 <= k < l < a.len() ==> #[trigger] idx[k] < #[trigger] idx[l]
}

/// `a` is `b` with some bytes removed: a subsequence of `b`.
pub open spec fn spec_is_subsequence(a: Seq<u8>, b: Seq<u8>) -> bool {
    exists|idx: Seq<int>| #[trigger] spec_embeds(a, b, idx)
}

/// Every byte string is a subsequence of itself.
proof fn lemma_subsequence_refl(a: Seq<u8>)
    ensures
        spec_is_subsequence(a, a),
{
    let idx = Seq::new(a.len(), |k: int| k);
    assert(spec_embeds(a, a, idx));
}

/// Removing a range leaves a subsequence.
proof fn lemma_remove_range_subsequence(p: Seq<u8>, start: int, end: int)
    requires
        0 <= start <= end <= p.len(),
    ensures
        spec_is_subsequence(spec_remove_range(p, start, end), p),
{
    let a = spec_remove_range(p, start, end);
    let idx = Seq::new(a.len(), |k: int| if k < start { k } else { k + (end - start) });
    assert forall|k: int| 0 <= k < a.len() implies 0 <= #[trigger] idx[k] < p.len() && a[k] == p[idx[k]] by {
        if k < start {
            assert(a[k] == p.subrange(0, start)[k]);
        } else {
            assert(a[k] == p.subrange(end, p.len() as int)[k - start]);
        }
    }
    assert(spec_embeds(a, p, idx));
}

/// A subsequence of a subsequence is a subsequence.
proof fn lemma_subsequence_trans(a: Seq<u8>, b: Seq<u8>, c: Seq<u8>)
    requires
        spec_is_subsequence(a, b),
        spec_is_subsequence(b, c),
    ensures
        spec_is_subsequence(a, c),
{
    let i1 = choose|idx: Seq<int>| spec_embeds(a, b, idx);
    let i2 = choose|idx: Seq<int>| spec_embeds(b, c, idx);
    let idx = Seq::new(a.len(), |k: int| i2[i1[k]]);
    assert forall|k: int| 0 <= k < a.len() implies 0 <= #[trigger] idx[k] < c.len() && a[k] == c[idx[k]] by {
        assert(0 <= i1[k] < b.len());
        assert(0 <= i2[i1[k]] < c.len());
    }
    assert forall|k: int, l: int| 0 <= k < l < a.len() implies #[trigger] idx[k] < #[trigger] idx[l] by {
        assert(i1[k] < i1[l]);
        assert(0 <= i1[k] < b.len() && 0 <= i1[l] < b.len());
        assert(i2[i1[k]] < i2[i1[l]]);
    }
    assert(spec_embeds(a, c, idx));
}

/// `payload` without the bytes in `[start, end)`.
fn remove_range(payload: &Vec<u8>, start: usize, end: usize) -> (r: Vec<u8>)
    requires
        start <= end <= payload@.len(),
    ensures
        r@ == spec_remove_range(payload@, start as int, end as int),
{
    let mut out: Vec<u8> = Vec::new();
    let mut i: usize = 0;
    while i < start
        invariant
            i <= start <= end <= payload@.len(),
            out@ == payload@.subrange(0, i as int),
        decreases start - i,
    {
        out.push(payload[i]);
        assert(out@ =~= payload@.subrange(0, i + 1));
        i = i + 1;
    }
    let mut j: usize = end;
    while j < payload.len()
        invariant
            start <= end <= j <= payload@.len(),
            out@ == payload@.subrange(0, start as int) + payload@.subrange(end as int, j as int),
        decreases payload@.len() - j,
    {
        out.push(payload[j]);
        assert(out@ =~= payload@.subrange(0, start as int) + payload@.subrange(end as int, j + 1));
        j = j + 1;
    }
    out
}

/// No call of a reproducer of type `F` reports a failure.
pub open spec fn spec_never_fails<F: FnMut(&CaseSeed) -> Result<CrashSignature, SimulationError>>() -> bool {
    forall|f: F, c: &CaseSeed, x: Result<CrashSignature, SimulationError>|
        #[trigger] call_ensures(f, (c,), x) ==> x is Ok
}

/// Some call of a reproducer of type `F` reported the failure `e`.
pub open spec fn spec_failed_with<F: FnMut(&CaseSeed) -> Result<CrashSignature, SimulationError>>(
    e: SimulationError,
) -> bool {
    exists|f: F, c: &CaseSeed| #[trigger] call_ensures(f, (c,), Err::<CrashSignature, SimulationError>(e))
}

/// A seed the shrinker may hand to the reproducer while shrinking `seed`: it
/// keeps the seed's ID and its payload is a strict subsequence of the seed's.
pub open spec fn spec_is_candidate(c: crate::SeedView, seed: crate::SeedView) -> bool {
    &&& c.id == seed.id
    &&& c.payload.len() < seed.payload.len()
    &&& spec_is_subsequence(c.payload, seed.payload)
}

/// Calls `reproducer` on `seed`, retrying transient failures as the default
/// [`RetryConfig`] allows. Attempts follow each other at once: a reproducer
/// that talks to a rate-limited service waits inside its own calls (the
/// application layer's executor sleeps between attempts).
fn reproduce_with_retry<F>(reproducer: &mut F, seed: &CaseSeed) -> (r: Result<CrashSignature, SimulationError>)
    where
        F: FnMut(&CaseSeed) -> Result<CrashSignature, SimulationError>,
    requires
        forall|f: F| #[trigger] call_requires(f, (seed,)),
    ensures
        r matches Ok(sig) ==> exists|f: F| call_ensures(f, (seed,), Ok::<CrashSignature, SimulationError>(sig)),
        r matches Err(e) ==> spec_failed_with::<F>(e),
        spec_never_fails::<F>() ==> r is Ok,
{
    let config = RetryConfig::default();
    let mut attempt: u32 = 1;
    loop
        invariant
            forall|f: F| #[trigger] call_requires(f, (seed,)),
            1 <= attempt <= 5,
            config.max_attempts == 5,
        decreases 5 - attempt,
    {
        let res = reproducer(seed);
        match res {
            Ok(sig) => {
                return Ok(sig);
            },
            Err(e) => {
                proof {
                    assert(spec_failed_with::<F>(e));
                }
                match next_retry_step(&config, attempt, &e) {
                    RetryStep::Retry { failed_attempt: _, next_attempt } => {
                        attempt = next_attempt;
                    },
                    RetryStep::Stop => return Err(e),
                }
            },
        }
    }
}

/// Some call of a reproducer of type `F` on a seed with value `seed` reported a
/// signature equal to `expected`.
pub open spec fn spec_reported<F: FnMut(&CaseSeed) -> Result<CrashSignature, SimulationError>>(
    seed: crate::SeedView,
    expected: SignatureView,
) -> bool {
    exists|f: F, c: CaseSeed, sig: CrashSignature|
        #![trigger call_ensures(f, (&c,), Ok::<CrashSignature, SimulationError>(sig))]
        c@ == seed && sig@ == expected && call_ensures(f, (&c,), Ok::<CrashSignature, SimulationError>(sig))
}

/// Some call of a reproducer of type `F` on a seed with value `seed` reported a
/// signature other than `expected`.
pub open spec fn spec_rejected<F: FnMut(&CaseSeed) -> Result<CrashSignature, SimulationError>>(
    seed: crate::SeedView,
    expected: SignatureView,
) -> bool {
    exists|f: F, c: CaseSeed, sig: CrashSignature|
        #![trigger call_ensures(f, (&c,), Ok::<CrashSignature, SimulationError>(sig))]
        c@ == seed && sig@ != expected && call_ensures(f, (&c,), Ok::<CrashSignature, SimulationError>(sig))
}

/// Shrinks a failing seed by removing payload chunks while the reproducer still
/// reports `expected`.
///
/// Greedy and deterministic: removals that still reproduce the signature are
/// kept, and the chunk size halves down to single bytes until no single-byte
/// removal reproduces it. Transient failures of the reproducer are retried at
/// once, as the default [`RetryConfig`] allows; a failure that is not retried
/// is returned.
///
/// The result keeps the seed ID, its payload is a subsequence of the seed's
/// (only removals are applied), and it is either the seed itself or a seed on
/// which the reproducer reported `expected`; removing any single byte of it was
/// tried and the reproducer reported another signature.
///
/// The reproducer is only ever called on candidates (see [`spec_is_candidate`]):
/// seeds with the seed's ID and a payload that is a strict subsequence of the
/// seed's. On an empty payload it is not called at all.
pub fn shrink_seed_preserving_signature<F>(
    seed: &CaseSeed,
    expected: &CrashSignature,
    reproducer: F,
) -> (r: Result<CaseSeed, SimulationError>)
    where
        F: FnMut(&CaseSeed) -> Result<CrashSignature, SimulationError>,
    requires
        forall|f: F, s: &CaseSeed|
            spec_is_candidate(s@, seed@) ==> #[trigger] call_requires(f, (s,)),
    ensures
        seed.payload@.len() == 0 ==> (r matches Ok(best) && best@ == seed@),
        spec_never_fails::<F>() ==> r is Ok,
        r matches Err(e) ==> spec_failed_with::<F>(e),
        r matches Ok(best) ==> {
            &&& best.id == seed.id
            &&& best.payload@.len() <= seed.payload@.len()
            &&& spec_is_subsequence(best.payload@, seed.payload@)
            &&& best@ == seed@ || spec_reported::<F>(best@, expected@)
            &&& forall|k: int|
                0 <= k < best.payload@.len() ==> spec_rejected::<F>(
                    crate::SeedView {
                        id: best.id,
                        payload: #[trigger] spec_remove_range(best.payload@, k, k + 1),
                    },
                    expected@,
                )
        },
{
    let mut reproducer = reproducer;
    let mut best = seed.clone();
    proof {
        lemma_subsequence_refl(seed.payload@);
    }
    if best.payload.len() == 0 {
        return Ok(best);
    }
    let mut chunk: usize = if best.payload.len() / 2 > 1 {
        best.payload.len() / 2
    } else {
        1
    };
    loop
        invariant
            forall|f: F, s: &CaseSeed|
                spec_is_candidate(s@, seed@) ==> #[trigger] call_requires(f, (s,)),
            best.id == seed.id,
            best.payload@.len() <= seed.payload@.len(),
            spec_is_subsequence(best.payload@, seed.payload@),
            best@ == seed@ || spec_reported::<F>(best@, expected@),
            chunk >= 1,
        ensures
            best.id == seed.id,
            best.payload@.len() <= seed.payload@.len(),
            spec_is_subsequence(best.payload@, seed.payload@),
            best@ == seed@ || spec_reported::<F>(best@, expected@),
            forall|k: int|
                0 <= k < best.payload@.len() ==> spec_rejected::<F>(
                    crate::SeedView {
                        id: best.id,
                        payload: #[trigger] spec_remove_range(best.payload@, k, k + 1),
                    },
                    expected@,
                ),
        decreases best.payload@.len(), chunk,
    {
        let mut improved = false;
        let mut start: usize = 0;
        let ghost len_at_start = best.payload@.len();
        while start < best.payload.len()
            invariant
                forall|f: F, s: &CaseSeed|
                    spec_is_candidate(s@, seed@) ==> #[trigger] call_requires(f, (s,)),
                best.id == seed.id,
                best.payload@.len() <= seed.payload@.len(),
                spec_is_subsequence(best.payload@, seed.payload@),
                best@ == seed@ || spec_reported::<F>(best@, expected@),
                chunk >= 1,
                improved ==> best.payload@.len() < len_at_start,
                !improved ==> best.payload@.len() == len_at_start,
                start <= best.payload@.len(),
                !improved && chunk == 1 ==> forall|k: int|
                    0 <= k < start ==> spec_rejected::<F>(
                        crate::SeedView {
                            id: best.id,
                            payload: #[trigger] spec_remove_range(best.payload@, k, k + 1),
                        },
                        expected@,
                    ),
            decreases 2 * best.payload@.len() - start,
        {
            let len = best.payload.len();
            let end = if chunk <= len - start {
                start + chunk
            } else {
                len
            };
            let candidate = CaseSeed { id: best.id, payload: remove_range(&best.payload, start, end) };
            proof {
                lemma_remove_range_subsequence(best.payload@, start as int, end as int);
                lemma_subsequence_trans(candidate.payload@, best.payload@, seed.payload@);
                assert(spec_is_candidate(candidate@, seed@));
                assert forall|f: F| #[trigger] call_requires(f, (&candidate,)) by {
                    assert(spec_is_candidate((&candidate)@, seed@));
                }
            }
            let sig = match reproduce_with_retry(&mut reproducer, &candidate) {
                Ok(sig) => sig,
                Err(e) => {
                    return Err(e);
                },
            };
            if signatures_match(expected, &sig) {
                proof {
                    assert(spec_reported::<F>(candidate@, expected@));
                }
                best = candidate;
                improved = true;
                continue ;
            }
            proof {
                if !improved && chunk == 1 {
                    assert(end == start + 1);
                    assert(spec_rejected::<F>(candidate@, expected@));
                }
            }
            start = start + 1;
        }
        if !improved {
            if chunk == 1 {
                break ;
            }
            chunk = chunk / 2;
            continue ;
        }
        if chunk > best.payload.len() {
            chunk = if best.payload.len() / 2 > 1 {
                best.payload.len() / 2
            } else {
                1
            };
        }
    }
    Ok(best)
}

/// Shrinks only the seed payload inside a failing bundle, preserving the
/// bundle's reference signature and everything else in it.
pub fn shrink_bundle_payload<F>(bundle: &CaseBundle, reproducer: F) -> (r: Result<
    CaseBundle,
    SimulationError,
>)
    where
        F: FnMut(&CaseSeed) -> Result<CrashSignature, SimulationError>,
    requires
        forall|f: F, s: &CaseSeed|
            spec_is_candidate(s@, bundle.seed@) ==> #[trigger] call_requires(f, (s,)),
    ensures
        bundle.seed.payload@.len() == 0 ==> (r matches Ok(b) && b@ == bundle@),
        spec_never_fails::<F>() ==> r is Ok,
        r matches Err(e) ==> spec_failed_with::<F>(e),
        r matches Ok(b) ==> {
            &&& b.signature@ == bundle.signature@
            &&& b.environment == bundle.environment
            &&& b.failure_payload@ == bundle.failure_payload@
            &&& crate::envelope_view(b.rpc_envelope) == crate::envelope_view(bundle.rpc_envelope)
            &&& b.seed.id == bundle.seed.id
            &&& b.seed.payload@.len() <= bundle.seed.payload@.len()
            &&& spec_is_subsequence(b.seed.payload@, bundle.seed.payload@)
            &&& b.seed@ == bundle.seed@ || spec_reported::<F>(b.seed@, bundle.signature@)
        },
{
    match shrink_seed_preserving_signature(&bundle.seed, &bundle.signature, reproducer) {
        Ok(seed) => {
            let mut shrunk = bundle.clone();
            shrunk.seed = seed;
            Ok(shrunk)
        },
        Err(e) => Err(e),
    }
}

} // verus!
