//! Enum-like variant/tag mutator for host input fuzzing.
//!
//! Payload layout:
//! - `[0]` discriminator marker (`0xE0`)
//! - `[1]` variant tag
//! - `[2..]` payload bytes
use vstd::prelude::*;

use crate::decimal_precision::lemma_gamma_n_add;
use crate::mutator::Mutator;
use crate::splitmix::{GOLDEN_GAMMA, MIX_MUL_1, MIX_MUL_2, spec_gamma_n, spec_nth_value};
use crate::CaseSeed;

verus! {

/// Marker byte of the enum payload layout.
pub const ENUM_MARKER: u8 = 0xE0;

/// The supported variant tags.
pub const VALID_TAGS: [u8; 4] = [0x00, 0x01, 0x02, 0x03];

/// Tags outside the supported variant set.
pub const INVALID_TAGS: [u8; 4] = [0x7F, 0x80, 0xFE, 0xFF];

/// Whether `payload` is in enum layout (marker first) and carries a tag outside
/// the supported set.
pub open spec fn spec_is_invalid_enum_tag(payload: Seq<u8>) -> bool {
    payload.len() >= 2 && payload[0] == ENUM_MARKER && !VALID_TAGS@.contains(payload[1])
}

/// Returns true when `payload` is in enum layout and carries an invalid variant tag.
pub fn is_invalid_enum_tag_payload(payload: &[u8]) -> (r: bool)
    ensures
        r == spec_is_invalid_enum_tag(payload@),
{
    if payload.len() < 2 || payload[0] != ENUM_MARKER {
        return false;
    }
    let tag = payload[1];
    let mut i: usize = 0;
    while i < 4
        invariant
            i <= 4,
            payload@.len() >= 2,
            tag == payload@[1],
            forall|k: int| 0 <= k < i ==> VALID_TAGS@[k] != tag,
        decreases 4 - i,
    {
        if VALID_TAGS[i] == tag {
            assert(VALID_TAGS@[i as int] == tag);
            return false;
        }
        i = i + 1;
    }
    assert(!VALID_TAGS@.contains(tag));
    true
}

/// Advances the state by the golden increment and returns the mixed new state.
pub fn next_u64(state: &mut u64) -> (r: u64)
    ensures
        *final(state) == spec_gamma_n(*old(state), 1),
        r == spec_nth_value(*old(state), 1),
{
    proof {
        reveal_with_fuel(spec_gamma_n, 2);
    }
    *state = state.wrapping_add(GOLDEN_GAMMA);
    let mut z = *state;
    z = (z ^ (z >> 30u64)).wrapping_mul(MIX_MUL_1);
    z = (z ^ (z >> 27u64)).wrapping_mul(MIX_MUL_2);
    z ^ (z >> 31u64)
}

/// The valid tag chosen from a draw: the tag at `value % 4`, or the next one
/// when that equals the current tag.
pub open spec fn spec_valid_tag(value: u64, current: u8) -> u8 {
    let idx = ((value as usize) % 4) as int;
    if VALID_TAGS@[idx] == current {
        VALID_TAGS@[(idx + 1) % 4]
    } else {
        VALID_TAGS@[idx]
    }
}

/// The payload after padding to three bytes with zeros.
pub open spec fn spec_padded(payload: Seq<u8>) -> Seq<u8> {
    if payload.len() < 3 {
        payload + Seq::new((3 - payload.len()) as nat, |i: int| 0u8)
    } else {
        payload
    }
}

/// The result of the enum mutation, and the number of draws it takes: the
/// marker goes first; the first draw's low bit chooses an invalid tag (picked by
/// the second draw) or a valid tag different from the current one (picked by the
/// second draw); each byte from index 2 on is XORed with the low byte of one
/// further draw.
pub open spec fn spec_enum_mutation(payload: Seq<u8>, state: u64) -> Seq<u8> {
    let p = spec_padded(payload);
    let use_invalid = spec_nth_value(state, 1) & 1 == 1;
    let second = spec_nth_value(state, 2);
    let tag = if use_invalid {
        INVALID_TAGS@[((second as usize) % 4) as int]
    } else {
        spec_valid_tag(second, p[1])
    };
    Seq::new(
        p.len(),
        |i: int|
            if i == 0 {
                ENUM_MARKER
            } else if i == 1 {
                tag
            } else {
                p[i] ^ (spec_nth_value(state, (i + 1) as nat) as u8)
            },
    )
}

/// Mutates enum-like payloads by flipping between valid variant tags and invalid tags.
pub struct EnumVariantFlipMutator;

impl Mutator for EnumVariantFlipMutator {
    open spec fn is_runnable(&self) -> bool {
        true
    }

    fn name(&self) -> (r: &'static str)
        ensures
            r@ == "enum-variant-flip"@,
    {
        "enum-variant-flip"
    }

    fn mutate(&self, seed: &CaseSeed, rng_state: &mut u64) -> (r: CaseSeed)
        ensures
            r.id == seed.id,
            r.payload@ == spec_enum_mutation(seed.payload@, *old(rng_state)),
            *final(rng_state) == spec_gamma_n(*old(rng_state), spec_padded(seed.payload@).len()),
    {
        let ghost start = *rng_state;
        let mut payload = seed.payload.clone();
        assert(payload@ =~= seed.payload@);
        if payload.len() < 3 {
            payload.resize(3, 0);
        }
        assert(payload@ =~= spec_padded(seed.payload@));
        let ghost padded = payload@;
        payload.set(0, ENUM_MARKER);
        let current_tag = payload[1];
        let use_invalid = next_u64(rng_state) & 1 == 1;
        let second = next_u64(rng_state);
        proof {
            lemma_gamma_n_add(start, 1, 1);
        }
        let tag = if use_invalid {
            INVALID_TAGS[(second as usize) % 4]
        } else {
            let mut idx = (second as usize) % 4;
            if VALID_TAGS[idx] == current_tag {
                idx = (idx + 1) % 4;
            }
            VALID_TAGS[idx]
        };
        payload.set(1, tag);
        let ghost target = spec_enum_mutation(seed.payload@, start);
        let mut i: usize = 2;
        while i < payload.len()
            invariant
                2 <= i <= payload@.len(),
                payload@.len() == padded.len(),
                padded == spec_padded(seed.payload@),
                target == spec_enum_mutation(seed.payload@, start),
                *rng_state == spec_gamma_n(start, i as nat),
                forall|t: int| 0 <= t < i ==> payload@[t] == target[t],
                forall|t: int| i <= t < payload@.len() ==> payload@[t] == padded[t],
            decreases payload.len() - i,
        {
            let v = next_u64(rng_state);
            proof {
                lemma_gamma_n_add(start, i as nat, 1);
            }
            let b = payload[i] ^ (v as u8);
            payload.set(i, b);
            i = i + 1;
        }
        assert(payload@ =~= target);
        CaseSeed { id: seed.id, payload }
    }
}

/// The mutated payload is always in enum layout (marker first, at least three bytes).
pub proof fn law_enum_mutation_layout(payload: Seq<u8>, state: u64)
    ensures
        spec_enum_mutation(payload, state).len() >= 3,
        spec_enum_mutation(payload, state)[0] == ENUM_MARKER,
{
}

/// When the mutator takes the valid branch, the new tag is supported and
/// differs from the tag the payload had.
pub proof fn law_valid_flip_changes_tag(payload: Seq<u8>, state: u64)
    requires
        spec_nth_value(state, 1) & 1 != 1,
    ensures
        VALID_TAGS@.contains(spec_enum_mutation(payload, state)[1]),
        spec_enum_mutation(payload, state)[1] != spec_padded(payload)[1],
{
    let second = spec_nth_value(state, 2);
    let idx = ((second as usize) % 4) as int;
    let t = spec_enum_mutation(payload, state)[1];
    if VALID_TAGS@[idx] == spec_padded(payload)[1] {
        assert(t == VALID_TAGS@[(idx + 1) % 4]);
    } else {
        assert(t == VALID_TAGS@[idx]);
    }
}

/// When the mutator takes the invalid branch, the result is recognised as an
/// invalid enum tag payload.
pub proof fn law_invalid_flip_is_detected(payload: Seq<u8>, state: u64)
    requires
        spec_nth_value(state, 1) & 1 == 1,
    ensures
        spec_is_invalid_enum_tag(spec_enum_mutation(payload, state)),
{
    let second = spec_nth_value(state, 2);
    let t = spec_enum_mutation(payload, state)[1];
    assert(t == INVALID_TAGS@[((second as usize) % 4) as int]);
    if VALID_TAGS@.contains(t) {
        let k = choose|k: int| 0 <= k < 4 && VALID_TAGS@[k] == t;
        assert(VALID_TAGS@[k] <= 3);
    }
}

} // verus!
