//! Numeric boundary mutator for i128 and u128 overflow/underflow testing.
//!
//! This module generates edge-case payloads near the min/max boundaries of
//! `i128` and `u128`, targeting arithmetic overflow and underflow failures in
//! Soroban smart contracts. All numeric values are encoded as **16-byte
//! little-endian** byte arrays, matching the native Soroban host representation
//! for 128-bit integers.
use vstd::prelude::*;

use crate::bytes::{i128_to_le_bytes, spec_le_bytes_u128, u128_to_le_bytes};
use crate::mutator::Mutator;
use crate::splitmix::{GOLDEN_GAMMA, MIX_MUL_1, MIX_MUL_2, spec_gamma_step, spec_mix};
use crate::{CaseSeed, SeedView};

verus! {

/// The canonical `i128` boundary values, from most negative to most positive.
pub open spec fn spec_boundary_values_i128() -> Seq<i128> {
    seq![i128::MIN, (i128::MIN + 1) as i128, -1i128, 0i128, 1i128, (i128::MAX - 1) as i128, i128::MAX]
}

/// The canonical `u128` boundary values.
pub open spec fn spec_boundary_values_u128() -> Seq<u128> {
    seq![u128::MIN, (u128::MIN + 1) as u128, (u128::MAX - 1) as u128, u128::MAX]
}

/// Canonical boundary values for `i128`, ordered from most negative to most
/// positive: `MIN`, `MIN + 1`, `-1`, `0`, `1`, `MAX - 1`, `MAX`.
pub fn boundary_values_i128() -> (r: Vec<i128>)
    ensures
        r@ == spec_boundary_values_i128(),
{
    let r = vec![i128::MIN, i128::MIN + 1, -1, 0, 1, i128::MAX - 1, i128::MAX];
    assert(r@ =~= spec_boundary_values_i128());
    r
}

/// Canonical boundary values for `u128`: `0`, `1`, `MAX - 1`, `MAX`.
pub fn boundary_values_u128() -> (r: Vec<u128>)
    ensures
        r@ == spec_boundary_values_u128(),
{
    let r = vec![u128::MIN, u128::MIN + 1, u128::MAX - 1, u128::MAX];
    assert(r@ =~= spec_boundary_values_u128());
    r
}

/// `acc` followed by those of `xs`, in order, that are not already present.
pub open spec fn spec_push_unique(acc: Seq<Seq<u8>>, xs: Seq<Seq<u8>>) -> Seq<Seq<u8>>
    decreases xs.len(),
{
    if xs.len() == 0 {
        acc
    } else {
        let prev = spec_push_unique(acc, xs.drop_last());
        if prev.contains(xs.last()) {
            prev
        } else {
            prev.push(xs.last())
        }
    }
}

/// All distinct 16-byte boundary payloads: the encodings of the `i128` values,
/// then those of the `u128` values whose encoding is not already listed.
pub open spec fn spec_all_boundary_payloads() -> Seq<Seq<u8>> {
    spec_push_unique(
        spec_boundary_values_i128().map_values(|v: i128| spec_le_bytes_u128(v as u128)),
        spec_boundary_values_u128().map_values(|v: u128| spec_le_bytes_u128(v)),
    )
}

/// Whether `list` holds an array equal to `bytes`.
fn contains_payload(list: &Vec<[u8; 16]>, bytes: &[u8; 16]) -> (r: bool)
    ensures
        r == list@.map_values(|a: [u8; 16]| a@).contains(bytes@),
{
    let ghost views = list@.map_values(|a: [u8; 16]| a@);
    let mut i: usize = 0;
    while i < list.len()
        invariant
            i <= list@.len(),
            views == list@.map_values(|a: [u8; 16]| a@),
            forall|k: int| 0 <= k < i ==> views[k] != bytes@,
        decreases list.len() - i,
    {
        let candidate = &list[i];
        let mut same = true;
        let mut j: usize = 0;
        while j < 16
            invariant
                j <= 16,
                same == (forall|t: int| 0 <= t < j ==> candidate@[t] == bytes@[t]),
            decreases 16 - j,
        {
            if candidate[j] != bytes[j] {
                same = false;
            }
            j = j + 1;
        }
        if same {
            assert(views[i as int] =~= bytes@);
            return true;
        }
        assert(views[i as int][j as int] != bytes@[j as int] || views[i as int] != bytes@);
        i = i + 1;
    }
    false
}

/// All distinct 16-byte boundary payloads for both `i128` and `u128`.
///
/// Values that share the same little-endian encoding (e.g. `0_i128` and
/// `0_u128`) are included once. The returned list is deterministically ordered
/// and de-duplicated.
pub fn all_boundary_payloads() -> (r: Vec<[u8; 16]>)
    ensures
        r@.map_values(|a: [u8; 16]| a@) == spec_all_boundary_payloads(),
{
    let mut payloads: Vec<[u8; 16]> = Vec::new();
    let ivals = boundary_values_i128();
    let ghost ienc = spec_boundary_values_i128().map_values(|v: i128| spec_le_bytes_u128(v as u128));
    let mut i: usize = 0;
    while i < ivals.len()
        invariant
            i <= ivals@.len(),
            ivals@ == spec_boundary_values_i128(),
            ienc == spec_boundary_values_i128().map_values(|v: i128| spec_le_bytes_u128(v as u128)),
            payloads@.map_values(|a: [u8; 16]| a@) =~= ienc.subrange(0, i as int),
        decreases ivals.len() - i,
    {
        let bytes = i128_to_le_bytes(ivals[i]);
        let ghost before = payloads@;
        payloads.push(bytes);
        assert(payloads@.map_values(|a: [u8; 16]| a@) =~= before.map_values(|a: [u8; 16]| a@).push(
            bytes@,
        ));
        assert(ienc.subrange(0, i + 1) =~= ienc.subrange(0, i as int).push(ienc[i as int]));
        i = i + 1;
    }
    assert(ienc.subrange(0, i as int) =~= ienc);
    let uvals = boundary_values_u128();
    let ghost uenc = spec_boundary_values_u128().map_values(|v: u128| spec_le_bytes_u128(v));
    let mut k: usize = 0;
    while k < uvals.len()
        invariant
            k <= uvals@.len(),
            uvals@ == spec_boundary_values_u128(),
            uenc == spec_boundary_values_u128().map_values(|v: u128| spec_le_bytes_u128(v)),
            payloads@.map_values(|a: [u8; 16]| a@) =~= spec_push_unique(ienc, uenc.subrange(0, k as int)),
        decreases uvals.len() - k,
    {
        let bytes = u128_to_le_bytes(uvals[k]);
        let ghost prev = spec_push_unique(ienc, uenc.subrange(0, k as int));
        assert(uenc.subrange(0, k + 1).drop_last() =~= uenc.subrange(0, k as int));
        assert(uenc.subrange(0, k + 1).last() == bytes@);
        assert(spec_push_unique(ienc, uenc.subrange(0, k + 1)) == (if prev.contains(bytes@) {
            prev
        } else {
            prev.push(bytes@)
        }));
        if !contains_payload(&payloads, &bytes) {
            let ghost before = payloads@;
            payloads.push(bytes);
            assert(payloads@.map_values(|a: [u8; 16]| a@) =~= before.map_values(|a: [u8; 16]| a@).push(
                bytes@,
            ));
        }
        k = k + 1;
    }
    assert(uenc.subrange(0, k as int) =~= uenc);
    payloads
}

/// A splitmix64 draw that also advances the caller's state by the golden
/// increment, reduced to an index below `len`.
pub open spec fn spec_next_index(state: u64, len: nat) -> nat {
    ((spec_mix(spec_gamma_step(state)) as usize) as nat) % len
}

/// Selects an index in `[0, len)` from `rng_state` with the splitmix64 finaliser;
/// the state advances by the golden increment.
pub fn next_index(state: &mut u64, len: usize) -> (r: usize)
    requires
        len > 0,
    ensures
        *final(state) == spec_gamma_step(*old(state)),
        r == spec_next_index(*old(state), len as nat),
        r < len,
{
    *state = state.wrapping_add(GOLDEN_GAMMA);
    let mut z = *state;
    z = (z ^ (z >> 30u64)).wrapping_mul(MIX_MUL_1);
    z = (z ^ (z >> 27u64)).wrapping_mul(MIX_MUL_2);
    z = z ^ (z >> 31u64);
    (z as usize) % len
}

/// The payload after writing `boundary` over its first 16 bytes (padding a
/// shorter payload with zeros first): `boundary` followed by any bytes beyond 16.
pub open spec fn spec_overwrite_prefix(payload: Seq<u8>, boundary: Seq<u8>) -> Seq<u8> {
    if payload.len() > 16 {
        boundary + payload.skip(16)
    } else {
        boundary
    }
}

/// Mutator that injects numeric boundary values into seed payloads.
///
/// Each call deterministically selects a boundary value from the combined
/// `i128`/`u128` set using `rng_state`, then writes its 16-byte little-endian
/// encoding into the payload. Any existing payload content beyond 16 bytes is
/// preserved.
pub struct BoundaryMutator;

impl Mutator for BoundaryMutator {
    open spec fn is_runnable(&self) -> bool {
        true
    }

    fn name(&self) -> (r: &'static str)
        ensures
            r@ == "numeric-boundary"@,
    {
        "numeric-boundary"
    }

    fn mutate(&self, seed: &CaseSeed, rng_state: &mut u64) -> (r: CaseSeed)
        ensures
            r.id == seed.id,
            r.payload@ == spec_overwrite_prefix(
                seed.payload@,
                spec_all_boundary_payloads()[spec_next_index(
                    *old(rng_state),
                    spec_all_boundary_payloads().len(),
                ) as int],
            ),
            *final(rng_state) == spec_gamma_step(*old(rng_state)),
    {
        let payloads = all_boundary_payloads();
        proof {
            lemma_all_boundary_payloads_shape();
        }
        let index = next_index(rng_state, payloads.len());
        let boundary_bytes = &payloads[index];
        assert(boundary_bytes@ == spec_all_boundary_payloads()[index as int]);

        let mut payload = seed.payload.clone();
        assert(payload@ =~= seed.payload@);
        if payload.len() < 16 {
            payload.resize(16, 0);
        }
        let ghost padded = payload@;
        let mut i: usize = 0;
        while i < 16
            invariant
                i <= 16,
                payload@.len() == padded.len(),
                padded.len() >= 16,
                padded.skip(16) == (if seed.payload@.len() > 16 {
                    seed.payload@.skip(16)
                } else {
                    Seq::<u8>::empty()
                }),
                forall|t: int| 0 <= t < i ==> payload@[t] == boundary_bytes@[t],
                forall|t: int| i <= t < payload@.len() ==> payload@[t] == padded[t],
            decreases 16 - i,
        {
            payload.set(i, boundary_bytes[i]);
            i = i + 1;
        }
        assert(payload@ =~= spec_overwrite_prefix(seed.payload@, boundary_bytes@));
        CaseSeed { id: seed.id, payload }
    }
}

/// Byte 0 and byte 15 of an encoding are the low and the high byte of the value.
proof fn lemma_first_last_byte(v: u128)
    ensures
        spec_le_bytes_u128(v).len() == 16,
        spec_le_bytes_u128(v)[0] == v as u8,
        spec_le_bytes_u128(v)[15] == (v >> 120u128) as u8,
{
    assert(v >> 0u128 == v) by (bit_vector);
}

/// The two's-complement bit patterns of the negative `i128` boundary values.
proof fn lemma_negative_patterns()
    ensures
        i128::MIN as u128 == 0x8000_0000_0000_0000_0000_0000_0000_0000u128,
        (i128::MIN + 1) as u128 == 0x8000_0000_0000_0000_0000_0000_0000_0001u128,
        (-1i128) as u128 == 0xFFFF_FFFF_FFFF_FFFF_FFFF_FFFF_FFFF_FFFFu128,
{
    assert(i128::MIN as u128 == 0x8000_0000_0000_0000_0000_0000_0000_0000u128) by (bit_vector);
    assert((i128::MIN + 1) as u128 == 0x8000_0000_0000_0000_0000_0000_0000_0001u128) by (bit_vector);
    assert((-1i128) as u128 == 0xFFFF_FFFF_FFFF_FFFF_FFFF_FFFF_FFFF_FFFFu128) by (bit_vector);
}

/// Low and high bytes of the eight distinct boundary bit patterns.
proof fn lemma_pattern_bytes()
    ensures
        0x8000_0000_0000_0000_0000_0000_0000_0000u128 as u8 == 0u8,
        (0x8000_0000_0000_0000_0000_0000_0000_0000u128 >> 120u128) as u8 == 0x80u8,
        0x8000_0000_0000_0000_0000_0000_0000_0001u128 as u8 == 1u8,
        (0x8000_0000_0000_0000_0000_0000_0000_0001u128 >> 120u128) as u8 == 0x80u8,
        0xFFFF_FFFF_FFFF_FFFF_FFFF_FFFF_FFFF_FFFFu128 as u8 == 0xFFu8,
        (0xFFFF_FFFF_FFFF_FFFF_FFFF_FFFF_FFFF_FFFFu128 >> 120u128) as u8 == 0xFFu8,
        0u128 as u8 == 0u8,
        (0u128 >> 120u128) as u8 == 0u8,
        1u128 as u8 == 1u8,
        (1u128 >> 120u128) as u8 == 0u8,
        0x7FFF_FFFF_FFFF_FFFF_FFFF_FFFF_FFFF_FFFEu128 as u8 == 0xFEu8,
        (0x7FFF_FFFF_FFFF_FFFF_FFFF_FFFF_FFFF_FFFEu128 >> 120u128) as u8 == 0x7Fu8,
        0x7FFF_FFFF_FFFF_FFFF_FFFF_FFFF_FFFF_FFFFu128 as u8 == 0xFFu8,
        (0x7FFF_FFFF_FFFF_FFFF_FFFF_FFFF_FFFF_FFFFu128 >> 120u128) as u8 == 0x7Fu8,
        0xFFFF_FFFF_FFFF_FFFF_FFFF_FFFF_FFFF_FFFEu128 as u8 == 0xFEu8,
        (0xFFFF_FFFF_FFFF_FFFF_FFFF_FFFF_FFFF_FFFEu128 >> 120u128) as u8 == 0xFFu8,
{
    assert(0x8000_0000_0000_0000_0000_0000_0000_0000u128 as u8 == 0u8 && (
    0x8000_0000_0000_0000_0000_0000_0000_0000u128 >> 120u128) as u8 == 0x80u8
        && 0x8000_0000_0000_0000_0000_0000_0000_0001u128 as u8 == 1u8 && (
    0x8000_0000_0000_0000_0000_0000_0000_0001u128 >> 120u128) as u8 == 0x80u8
        && 0xFFFF_FFFF_FFFF_FFFF_FFFF_FFFF_FFFF_FFFFu128 as u8 == 0xFFu8 && (
    0xFFFF_FFFF_FFFF_FFFF_FFFF_FFFF_FFFF_FFFFu128 >> 120u128) as u8 == 0xFFu8 && 0u128 as u8
        == 0u8 && (0u128 >> 120u128) as u8 == 0u8 && 1u128 as u8 == 1u8 && (1u128 >> 120u128) as u8
        == 0u8 && 0x7FFF_FFFF_FFFF_FFFF_FFFF_FFFF_FFFF_FFFEu128 as u8 == 0xFEu8 && (
    0x7FFF_FFFF_FFFF_FFFF_FFFF_FFFF_FFFF_FFFEu128 >> 120u128) as u8 == 0x7Fu8
        && 0x7FFF_FFFF_FFFF_FFFF_FFFF_FFFF_FFFF_FFFFu128 as u8 == 0xFFu8 && (
    0x7FFF_FFFF_FFFF_FFFF_FFFF_FFFF_FFFF_FFFFu128 >> 120u128) as u8 == 0x7Fu8
        && 0xFFFF_FFFF_FFFF_FFFF_FFFF_FFFF_FFFF_FFFEu128 as u8 == 0xFEu8 && (
    0xFFFF_FFFF_FFFF_FFFF_FFFF_FFFF_FFFF_FFFEu128 >> 120u128) as u8 == 0xFFu8) by (bit_vector);
}

/// The encodings of the `i128` boundary values, in order.
pub open spec fn spec_i128_encodings() -> Seq<Seq<u8>> {
    spec_boundary_values_i128().map_values(|v: i128| spec_le_bytes_u128(v as u128))
}

/// The boundary payloads are the seven `i128` encodings followed by the
/// encoding of `u128::MAX - 1`, the only `u128` boundary value whose encoding
/// differs from all `i128` ones.
pub proof fn lemma_all_boundary_payloads_value()
    ensures
        spec_all_boundary_payloads() == spec_i128_encodings().push(spec_le_bytes_u128((u128::MAX - 1) as u128)),
{
    lemma_negative_patterns();
    lemma_pattern_bytes();
    let e = spec_i128_encodings();
    let u = spec_boundary_values_u128().map_values(|v: u128| spec_le_bytes_u128(v));
    let u2 = spec_le_bytes_u128((u128::MAX - 1) as u128);
    assert(e.len() == 7);
    assert(e[3] == u[0]);
    assert(e[4] == u[1]);
    assert(e[2] == u[3]);
    lemma_first_last_byte((u128::MAX - 1) as u128);
    assert forall|k: int| 0 <= k < 7 implies #[trigger] e[k] != u2 by {
        let v = spec_boundary_values_i128()[k] as u128;
        lemma_first_last_byte(v);
        if k == 5 {
            assert(e[k][15] != u2[15]);
        } else {
            assert(e[k][0] != u2[0]);
        }
    }
    reveal_with_fuel(spec_push_unique, 5);
    assert(u.subrange(0, 1).drop_last() =~= Seq::<Seq<u8>>::empty());
    assert(u.drop_last().drop_last().drop_last().drop_last() =~= Seq::<Seq<u8>>::empty());
    assert(spec_push_unique(e, u.drop_last().drop_last().drop_last()) == e) by {
        assert(e.contains(u[0]));
    }
    assert(spec_push_unique(e, u.drop_last().drop_last()) == e) by {
        assert(e.contains(u[1]));
    }
    assert(!e.contains(u2));
    assert(spec_push_unique(e, u.drop_last()) == e.push(u2));
    assert(e.push(u2).contains(u[3])) by {
        assert(e.push(u2)[2] == u[3]);
    }
}

/// There are eight boundary payloads, each 16 bytes long, and no two are equal.
pub proof fn lemma_all_boundary_payloads_shape()
    ensures
        spec_all_boundary_payloads().len() == 8,
        forall|i: int|
            0 <= i < spec_all_boundary_payloads().len() ==> (#[trigger] spec_all_boundary_payloads()[i]).len()
                == 16,
{
    lemma_all_boundary_payloads_value();
}

/// The boundary payloads are pairwise distinct.
pub proof fn law_boundary_payloads_distinct()
    ensures
        forall|i: int, j: int|
            0 <= i < j < spec_all_boundary_payloads().len() ==> spec_all_boundary_payloads()[i]
                != spec_all_boundary_payloads()[j],
{
    lemma_all_boundary_payloads_value();
    lemma_negative_patterns();
    lemma_pattern_bytes();
    let p = spec_all_boundary_payloads();
    let vals: Seq<u128> = seq![
        0x8000_0000_0000_0000_0000_0000_0000_0000u128,
        0x8000_0000_0000_0000_0000_0000_0000_0001u128,
        0xFFFF_FFFF_FFFF_FFFF_FFFF_FFFF_FFFF_FFFFu128,
        0u128,
        1u128,
        0x7FFF_FFFF_FFFF_FFFF_FFFF_FFFF_FFFF_FFFEu128,
        0x7FFF_FFFF_FFFF_FFFF_FFFF_FFFF_FFFF_FFFFu128,
        0xFFFF_FFFF_FFFF_FFFF_FFFF_FFFF_FFFF_FFFEu128,
    ];
    assert forall|k: int| 0 <= k < 8 implies #[trigger] p[k] == spec_le_bytes_u128(vals[k]) by {}
    assert forall|i: int, j: int| 0 <= i < j < p.len() implies p[i] != p[j] by {
        lemma_first_last_byte(vals[i]);
        lemma_first_last_byte(vals[j]);
        assert(p[i] == spec_le_bytes_u128(vals[i]));
        assert(p[j] == spec_le_bytes_u128(vals[j]));
        if p[i][0] == p[j][0] {
            assert(p[i][15] != p[j][15]);
        }
    }
}

/// The 16 bytes of `b` in a vector.
fn bytes16_to_vec(b: &[u8; 16]) -> (r: Vec<u8>)
    ensures
        r@ == b@,
{
    let mut v: Vec<u8> = Vec::new();
    let mut j: usize = 0;
    while j < 16
        invariant
            j <= 16,
            v@ =~= b@.subrange(0, j as int),
        decreases 16 - j,
    {
        v.push(b[j]);
        j = j + 1;
    }
    assert(v@ =~= b@);
    v
}

/// The seeds of [`generate_boundary_vectors`]: one per boundary payload, with
/// consecutive IDs from `base_id`.
pub open spec fn spec_boundary_vectors(base_id: u64) -> Seq<SeedView> {
    Seq::new(
        spec_all_boundary_payloads().len(),
        |i: int| SeedView { id: (base_id + i) as u64, payload: spec_all_boundary_payloads()[i] },
    )
}

/// Generates a complete set of [`CaseSeed`]s covering every boundary value
/// for both `i128` and `u128`.
///
/// Seeds are numbered starting from `base_id`, incrementing by one for each
/// boundary value. The returned vector has a deterministic, stable order.
pub fn generate_boundary_vectors(base_id: u64) -> (r: Vec<CaseSeed>)
    requires
        base_id + 7 <= u64::MAX,
    ensures
        r@.map_values(|s: CaseSeed| s@) == spec_boundary_vectors(base_id),
{
    let payloads = all_boundary_payloads();
    proof {
        lemma_all_boundary_payloads_shape();
    }
    let mut out: Vec<CaseSeed> = Vec::new();
    let mut i: usize = 0;
    while i < payloads.len()
        invariant
            i <= payloads@.len(),
            payloads@.len() == 8,
            base_id + 7 <= u64::MAX,
            payloads@.map_values(|a: [u8; 16]| a@) == spec_all_boundary_payloads(),
            out@.map_values(|s: CaseSeed| s@) =~= spec_boundary_vectors(base_id).subrange(0, i as int),
        decreases payloads.len() - i,
    {
        let bytes = &payloads[i];
        assert(bytes@ == spec_all_boundary_payloads()[i as int]);
        let v = bytes16_to_vec(bytes);
        let ghost before = out@;
        out.push(CaseSeed { id: base_id + i as u64, payload: v });
        assert(out@.map_values(|s: CaseSeed| s@) =~= before.map_values(|s: CaseSeed| s@).push(
            spec_boundary_vectors(base_id)[i as int],
        ));
        i = i + 1;
    }
    assert(spec_boundary_vectors(base_id).subrange(0, i as int) =~= spec_boundary_vectors(base_id));
    out
}

} // verus!
