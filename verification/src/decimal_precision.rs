//! Decimal precision/scale mutator for token-math boundary fuzzing.
use vstd::prelude::*;

use crate::bytes::{i128_to_le_bytes, spec_le_bytes_u128};
use crate::mutator::Mutator;
use crate::splitmix::{GOLDEN_GAMMA, MIX_MUL_1, MIX_MUL_2, spec_gamma_n, spec_nth_value};
use crate::{CaseSeed, SeedView};

verus! {

/// First byte of every encoded decimal case.
pub const DECIMAL_MARKER: u8 = 0xD3;

/// A decimal value at a rounding or overflow edge.
#[derive(Debug, Clone, Copy, PartialEq, Eq)]
pub struct DecimalBoundaryCase {
    pub precision: u8,
    pub scale: u8,
    pub coefficient: i128,
    pub rounding_trap: bool,
}

/// The canonical decimal boundary cases, in order.
pub open spec fn spec_decimal_boundary_cases() -> Seq<DecimalBoundaryCase> {
    seq![
        DecimalBoundaryCase { precision: 38, scale: 0, coefficient: i128::MAX, rounding_trap: false },
        DecimalBoundaryCase {
            precision: 38,
            scale: 0,
            coefficient: (i128::MAX - 1) as i128,
            rounding_trap: false,
        },
        DecimalBoundaryCase {
            precision: 38,
            scale: 0,
            coefficient: (i128::MIN + 1) as i128,
            rounding_trap: false,
        },
        DecimalBoundaryCase { precision: 1, scale: 1, coefficient: 5, rounding_trap: true },
        DecimalBoundaryCase { precision: 2, scale: 1, coefficient: 15, rounding_trap: true },
        DecimalBoundaryCase { precision: 6, scale: 7, coefficient: 999_999, rounding_trap: true },
    ]
}

/// Canonical decimal boundary cases that stress rounding and overflow edges.
pub fn decimal_boundary_cases() -> (r: Vec<DecimalBoundaryCase>)
    ensures
        r@ == spec_decimal_boundary_cases(),
{
    let r = vec![
        DecimalBoundaryCase {
            precision: 38,
            scale: 0,
            coefficient: i128::MAX,
            rounding_trap: false,
        },
        DecimalBoundaryCase {
            precision: 38,
            scale: 0,
            coefficient: i128::MAX - 1,
            rounding_trap: false,
        },
        DecimalBoundaryCase {
            precision: 38,
            scale: 0,
            coefficient: i128::MIN + 1,
            rounding_trap: false,
        },
        DecimalBoundaryCase { precision: 1, scale: 1, coefficient: 5, rounding_trap: true },
        DecimalBoundaryCase { precision: 2, scale: 1, coefficient: 15, rounding_trap: true },
        DecimalBoundaryCase {
            precision: 6,
            scale: 7,
            coefficient: 999_999,
            rounding_trap: true,
        },
    ];
    assert(r@ =~= spec_decimal_boundary_cases());
    r
}

/// The 24-byte encoding of a case: marker, precision, scale, trap flag (1 or
/// 0), the coefficient as 16 little-endian bytes, and a 4-byte zero tail.
pub open spec fn spec_encode_decimal_case(case: DecimalBoundaryCase) -> Seq<u8> {
    seq![
        DECIMAL_MARKER,
        case.precision,
        case.scale,
        if case.rounding_trap { 1u8 } else { 0u8 },
    ] + spec_le_bytes_u128(case.coefficient as u128) + seq![0u8, 0u8, 0u8, 0u8]
}

/// Encodes decimal case into fixed payload format:
/// [marker, precision, scale, trap, coefficient(16 bytes LE), fuzz-tail(4 bytes)]
pub fn encode_decimal_case(case: DecimalBoundaryCase) -> (r: Vec<u8>)
    ensures
        r@ == spec_encode_decimal_case(case),
{
    let mut out: Vec<u8> = Vec::new();
    out.push(DECIMAL_MARKER);
    out.push(case.precision);
    out.push(case.scale);
    out.push(if case.rounding_trap { 1 } else { 0 });
    let coefficient = i128_to_le_bytes(case.coefficient);
    let mut i: usize = 0;
    while i < 16
        invariant
            i <= 16,
            coefficient@ == spec_le_bytes_u128(case.coefficient as u128),
            out@ =~= seq![
                DECIMAL_MARKER,
                case.precision,
                case.scale,
                if case.rounding_trap { 1u8 } else { 0u8 },
            ] + coefficient@.subrange(0, i as int),
        decreases 16 - i,
    {
        out.push(coefficient[i]);
        i = i + 1;
    }
    out.push(0);
    out.push(0);
    out.push(0);
    out.push(0);
    assert(out@ =~= spec_encode_decimal_case(case));
    out
}

/// The seeds of [`generate_decimal_precision_vectors`]: one per case, with
/// consecutive IDs from `base_id`.
pub open spec fn spec_decimal_vectors(base_id: u64) -> Seq<SeedView> {
    Seq::new(
        6,
        |i: int|
            SeedView {
                id: (base_id + i) as u64,
                payload: spec_encode_decimal_case(spec_decimal_boundary_cases()[i]),
            },
    )
}

/// Returns deterministic seed vectors for each decimal boundary case.
pub fn generate_decimal_precision_vectors(base_id: u64) -> (r: Vec<CaseSeed>)
    requires
        base_id + 5 <= u64::MAX,
    ensures
        r@.map_values(|s: CaseSeed| s@) == spec_decimal_vectors(base_id),
{
    let cases = decimal_boundary_cases();
    let mut out: Vec<CaseSeed> = Vec::new();
    let mut i: usize = 0;
    while i < cases.len()
        invariant
            i <= cases@.len(),
            cases@ == spec_decimal_boundary_cases(),
            base_id + 5 <= u64::MAX,
            out@.map_values(|s: CaseSeed| s@) =~= spec_decimal_vectors(base_id).subrange(0, i as int),
        decreases cases.len() - i,
    {
        let ghost before = out@;
        out.push(CaseSeed { id: base_id + i as u64, payload: encode_decimal_case(cases[i]) });
        assert(out@.map_values(|s: CaseSeed| s@) =~= before.map_values(|s: CaseSeed| s@).push(
            spec_decimal_vectors(base_id)[i as int],
        ));
        i = i + 1;
    }
    assert(spec_decimal_vectors(base_id).subrange(0, i as int) =~= spec_decimal_vectors(base_id));
    out
}

/// Advances the state by the golden increment and returns the mixed new state.
pub fn next_u64(state: &mut u64) -> (r: u64)
    ensures
        *final(state) == spec_gamma_n(*old(state), 1),
        r == spec_nth_value(*old(state), 1),
{
    proof {
        reveal_with_fuel(spec_gamma_n, 2);
    }
    *state = state.wrapping_add(GOLDEN_GAMMA);
    let mut z = *state;
    z = (z ^ (z >> 30u64)).wrapping_mul(MIX_MUL_1);
    z = (z ^ (z >> 27u64)).wrapping_mul(MIX_MUL_2);
    z ^ (z >> 31u64)
}

/// `n` more golden increments after `m` are `m + n` increments.
pub proof fn lemma_gamma_n_add(state: u64, m: nat, n: nat)
    ensures
        spec_gamma_n(spec_gamma_n(state, m), n) == spec_gamma_n(state, m + n),
    decreases n,
{
    if n > 0 {
        lemma_gamma_n_add(state, m, (n - 1) as nat);
    }
}

/// The encoding of the case chosen by the first draw, with the four tail bytes
/// XORed with the low bytes of draws two to five.
pub open spec fn spec_decimal_mutation(state: u64) -> Seq<u8> {
    let case = spec_decimal_boundary_cases()[((spec_nth_value(state, 1) as usize) % 6) as int];
    let enc = spec_encode_decimal_case(case);
    Seq::new(
        24,
        |i: int|
            if i < 20 {
                enc[i]
            } else {
                enc[i] ^ (spec_nth_value(state, (i - 18) as nat) as u8)
            },
    )
}

/// Mutator that encodes decimal boundary tuples into payload bytes.
pub struct DecimalPrecisionMutator;

impl Mutator for DecimalPrecisionMutator {
    open spec fn is_runnable(&self) -> bool {
        true
    }

    fn name(&self) -> (r: &'static str)
        ensures
            r@ == "decimal-precision"@,
    {
        "decimal-precision"
    }

    fn mutate(&self, seed: &CaseSeed, rng_state: &mut u64) -> (r: CaseSeed)
        ensures
            r.id == seed.id,
            r.payload@ == spec_decimal_mutation(*old(rng_state)),
            *final(rng_state) == spec_gamma_n(*old(rng_state), 5),
    {
        let ghost start = *rng_state;
        let cases = decimal_boundary_cases();
        let idx = (next_u64(rng_state) as usize) % cases.len();
        let chosen = cases[idx];
        let mut payload = encode_decimal_case(chosen);
        let ghost enc = payload@;
        let mut i: usize = 20;
        while i < payload.len()
            invariant
                20 <= i <= 24,
                payload@.len() == 24,
                enc == spec_encode_decimal_case(chosen),
                chosen == spec_decimal_boundary_cases()[((spec_nth_value(start, 1) as usize) % 6) as int],
                *rng_state == spec_gamma_n(start, (i - 19) as nat),
                forall|t: int| 0 <= t < i ==> payload@[t] == spec_decimal_mutation(start)[t],
                forall|t: int| i <= t < 24 ==> payload@[t] == enc[t],
            decreases payload.len() - i,
        {
            let ghost s = *rng_state;
            let v = next_u64(rng_state);
            proof {
                lemma_gamma_n_add(start, (i - 19) as nat, 1);
            }
            let b = payload[i] ^ (v as u8);
            payload.set(i, b);
            i = i + 1;
        }
        assert(payload@ =~= spec_decimal_mutation(start));
        CaseSeed { id: seed.id, payload }
    }
}

} // verus!
