//! The splitmix64 mixing function that the mutators use to derive choices
//! from a caller-held `u64` generator state.
use vstd::prelude::*;

verus! {

/// Increment added to the state before mixing (the 64-bit golden ratio).
pub const GOLDEN_GAMMA: u64 = 0x9E37_79B9_7F4A_7C15;

/// First multiplier of the splitmix64 finaliser.
pub const MIX_MUL_1: u64 = 0xBF58_476D_1CE4_E5B9;

/// Second multiplier of the splitmix64 finaliser.
pub const MIX_MUL_2: u64 = 0x94D0_49BB_1331_11EB;

/// The state after the golden-ratio increment.
pub open spec fn spec_gamma_step(state: u64) -> u64 {
    state.wrapping_add(GOLDEN_GAMMA)
}

/// The splitmix64 finaliser applied to `z`.
pub open spec fn spec_mix(z: u64) -> u64 {
    let a = (z ^ (z >> 30u64)).wrapping_mul(MIX_MUL_1);
    let b = (a ^ (a >> 27u64)).wrapping_mul(MIX_MUL_2);
    b ^ (b >> 31u64)
}

/// One splitmix64 draw from `state`: the mixed value of the incremented state.
pub open spec fn spec_draw(state: u64) -> u64 {
    spec_mix(spec_gamma_step(state))
}

/// `n` draws in a row where each draw replaces the state (the scheme of
/// `advance_rng` in the address and container mutators).
pub open spec fn spec_advance_n(state: u64, n: nat) -> u64
    decreases n,
{
    if n == 0 {
        state
    } else {
        spec_draw(spec_advance_n(state, (n - 1) as nat))
    }
}

/// The state after `n` golden increments (the scheme of `next_u64` in the
/// decimal and enum mutators, where the state only moves by the increment).
pub open spec fn spec_gamma_n(state: u64, n: nat) -> u64
    decreases n,
{
    if n == 0 {
        state
    } else {
        spec_gamma_step(spec_gamma_n(state, (n - 1) as nat))
    }
}

/// The `k`-th value (1-based) drawn from `state` when the state moves by the
/// golden increment and each value is the mixed new state.
pub open spec fn spec_nth_value(state: u64, k: nat) -> u64 {
    spec_mix(spec_gamma_n(state, k))
}

} // verus!
