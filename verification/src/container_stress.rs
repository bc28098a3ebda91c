//! Vec / map size stress mutator for host container inputs.
//!
//! Encodes a mode (vector vs map), bounded sizes, and a sparse key stride into a
//! compact payload. Sizes are clamped to configured min/max bounds; generation is
//! deterministic from `(seed, rng_state)` like other mutators.
use vstd::prelude::*;

use crate::bytes::{spec_le_bytes_u64, u64_to_le_bytes};
use crate::mutator::Mutator;
use crate::splitmix::{GOLDEN_GAMMA, MIX_MUL_1, MIX_MUL_2, spec_advance_n, spec_draw};
use crate::{CaseSeed, SeedView};

verus! {

/// Mode byte of a vector-growth payload.
pub const MODE_VEC: u8 = 0xD0;

/// Mode byte of a sparse-map payload.
pub const MODE_MAP: u8 = 0xD1;

/// Bounds for encoded container dimensions (inclusive).
#[derive(Debug, Clone, Copy, PartialEq, Eq)]
pub struct ContainerStressConfig {
    pub vec_size_min: u64,
    pub vec_size_max: u64,
    pub map_size_min: u64,
    pub map_size_max: u64,
}

impl Default for ContainerStressConfig {
    fn default() -> (r: Self)
        ensures
            r.vec_size_min == 0,
            r.vec_size_max == 256,
            r.map_size_min == 0,
            r.map_size_max == 128,
    {
        ContainerStressConfig { vec_size_min: 0, vec_size_max: 256, map_size_min: 0, map_size_max: 128 }
    }
}

/// `v` limited to `[min, max]`; `min` when the range is empty.
pub open spec fn spec_clamp(v: u64, min: u64, max: u64) -> u64 {
    if max < min {
        min
    } else if v > max {
        max
    } else if v < min {
        min
    } else {
        v
    }
}

/// A value in `[min, max]` drawn from `state` (one draw replaces the state),
/// and the new state; `min` when `max <= min`.
pub open spec fn spec_pick_in_range(state: u64, min: u64, max: u64) -> (u64, u64) {
    let s1 = spec_draw(state);
    if max <= min {
        (min, s1)
    } else {
        ((min + s1 % ((max - min + 1) as u64)) as u64, s1)
    }
}

/// Whether drawing in `[min, max]` is possible: the span `max - min + 1` must fit in a `u64`.
pub open spec fn spec_range_drawable(min: u64, max: u64) -> bool {
    !(min == 0 && max == u64::MAX)
}

impl ContainerStressConfig {
    pub fn new(vec_size_min: u64, vec_size_max: u64, map_size_min: u64, map_size_max: u64) -> (r: Self)
        ensures
            r.vec_size_min == vec_size_min,
            r.vec_size_max == vec_size_max,
            r.map_size_min == map_size_min,
            r.map_size_max == map_size_max,
    {
        ContainerStressConfig { vec_size_min, vec_size_max, map_size_min, map_size_max }
    }

    /// Whether both size ranges can be drawn from.
    pub open spec fn spec_drawable(&self) -> bool {
        spec_range_drawable(self.vec_size_min, self.vec_size_max) && spec_range_drawable(
            self.map_size_min,
            self.map_size_max,
        )
    }

    /// `v` limited to `[min, max]`; `min` when `max < min`.
    pub fn clamp(&self, v: u64, min: u64, max: u64) -> (r: u64)
        ensures
            r == spec_clamp(v, min, max),
    {
        if max < min {
            return min;
        }
        let capped = if v < max { v } else { max };
        if capped > min { capped } else { min }
    }

    /// Advances `rng` and draws a value in `[min, max]` (or `min` when `max <= min`).
    pub fn pick_in_range(&self, rng: &mut u64, min: u64, max: u64) -> (r: u64)
        requires
            spec_range_drawable(min, max),
        ensures
            (r, *final(rng)) == spec_pick_in_range(*old(rng), min, max),
    {
        advance_rng(rng);
        if max <= min {
            return min;
        }
        let span = max - min + 1;
        let pick = *rng % span;
        min + pick
    }
}

/// Mutator that stresses Soroban-style vec growth vs sparse map key patterns.
pub struct ContainerStressMutator {
    pub config: ContainerStressConfig,
}

impl ContainerStressMutator {
    pub fn new(config: ContainerStressConfig) -> (r: Self)
        ensures
            r.config == config,
    {
        ContainerStressMutator { config }
    }

    pub fn default_mutator() -> (r: Self)
        ensures
            r.config.vec_size_min == 0,
            r.config.vec_size_max == 256,
            r.config.map_size_min == 0,
            r.config.map_size_max == 128,
    {
        Self::new(ContainerStressConfig::default())
    }
}

/// Advance the RNG state using splitmix64.
pub fn advance_rng(state: &mut u64)
    ensures
        *final(state) == spec_draw(*old(state)),
{
    *state = state.wrapping_add(GOLDEN_GAMMA);
    let mut z = *state;
    z = (z ^ (z >> 30u64)).wrapping_mul(MIX_MUL_1);
    z = (z ^ (z >> 27u64)).wrapping_mul(MIX_MUL_2);
    *state = z ^ (z >> 31u64);
}

/// The larger of `a` and `b`.
pub open spec fn spec_max(a: u64, b: u64) -> u64 {
    if a >= b {
        a
    } else {
        b
    }
}

/// The 17-byte header: mode byte, primary size and secondary value (both `u64` LE).
pub open spec fn spec_header(mode: u8, primary: u64, secondary: u64) -> Seq<u8> {
    seq![mode] + spec_le_bytes_u64(primary) + spec_le_bytes_u64(secondary)
}

/// The mode, primary size and secondary value of a payload drawn from `state`:
/// the low bit of `state ^ id` picks map mode; three draws pick a vector size, a
/// map size and a stride in `[1, max(map size, 1)]`. Map mode encodes the
/// clamped map size and stride; vector mode the clamped vector size and the
/// clamped (wrapping) sum of both sizes.
pub open spec fn spec_payload_header(config: ContainerStressConfig, id: u64, state: u64) -> (
    Seq<u8>,
    u64,
) {
    let use_map = (state ^ id) & 1 == 1;
    let (vec_sz, s1) = spec_pick_in_range(state, config.vec_size_min, config.vec_size_max);
    let (map_sz, s2) = spec_pick_in_range(s1, config.map_size_min, config.map_size_max);
    let (stride, s3) = spec_pick_in_range(s2, 1, spec_max(map_sz, 1));
    let header = if use_map {
        spec_header(
            MODE_MAP,
            spec_clamp(map_sz, config.map_size_min, config.map_size_max),
            spec_clamp(stride, 1, spec_max(map_sz, 1)),
        )
    } else {
        spec_header(
            MODE_VEC,
            spec_clamp(vec_sz, config.vec_size_min, config.vec_size_max),
            spec_clamp(vec_sz.wrapping_add(map_sz), config.vec_size_min, config.vec_size_max),
        )
    };
    (header, s3)
}

/// The full 32-byte payload and the state after: the header, then 15 pattern
/// bytes, byte `i` being the low byte of a fresh draw XOR `id + i` (wrapping).
pub open spec fn spec_build_payload(config: ContainerStressConfig, id: u64, state: u64) -> (
    Seq<u8>,
    u64,
) {
    let (header, s3) = spec_payload_header(config, id, state);
    let tail = Seq::new(
        15,
        |k: int| (spec_advance_n(s3, (k + 1) as nat) ^ id.wrapping_add((17 + k) as u64)) as u8,
    );
    (header + tail, spec_advance_n(s3, 15))
}

/// Appends the 8 little-endian bytes of `v` to `out`.
fn push_u64_le(out: &mut Vec<u8>, v: u64)
    ensures
        final(out)@ == old(out)@ + spec_le_bytes_u64(v),
{
    let bytes = u64_to_le_bytes(v);
    let ghost before = out@;
    let mut i: usize = 0;
    while i < 8
        invariant
            i <= 8,
            bytes@ == spec_le_bytes_u64(v),
            out@ =~= before + bytes@.subrange(0, i as int),
        decreases 8 - i,
    {
        out.push(bytes[i]);
        i = i + 1;
    }
    assert(bytes@.subrange(0, 8) =~= bytes@);
}

/// Payload layout (32 bytes, within default 64-byte seed cap):
/// - `[0]` mode: `0xD0` vec, `0xD1` map
/// - `[1..9]` primary size (`u64` LE), meaning vec length or map entry count
/// - `[9..17]` secondary (`u64` LE) — companion bound or sparse stride
/// - `[17..32]` pattern fill derived from rng
pub fn build_payload(config: &ContainerStressConfig, seed: &CaseSeed, rng_state: &mut u64) -> (r:
    Vec<u8>)
    requires
        config.spec_drawable(),
    ensures
        (r@, *final(rng_state)) == spec_build_payload(*config, seed.id, *old(rng_state)),
{
    let ghost start = *rng_state;
    let use_map = (*rng_state ^ seed.id) & 1 == 1;
    let vec_sz = config.pick_in_range(rng_state, config.vec_size_min, config.vec_size_max);
    let map_sz = config.pick_in_range(rng_state, config.map_size_min, config.map_size_max);
    let map_or_one = if map_sz >= 1 { map_sz } else { 1 };
    let stride = config.pick_in_range(rng_state, 1, map_or_one);

    let mut out: Vec<u8> = Vec::new();
    if use_map {
        out.push(MODE_MAP);
        let primary = config.clamp(map_sz, config.map_size_min, config.map_size_max);
        let secondary = config.clamp(stride, 1, map_or_one);
        push_u64_le(&mut out, primary);
        push_u64_le(&mut out, secondary);
    } else {
        out.push(MODE_VEC);
        let primary = config.clamp(vec_sz, config.vec_size_min, config.vec_size_max);
        let secondary = config.clamp(
            vec_sz.wrapping_add(map_sz),
            config.vec_size_min,
            config.vec_size_max,
        );
        push_u64_le(&mut out, primary);
        push_u64_le(&mut out, secondary);
    }
    let ghost header = out@;
    let ghost s3 = *rng_state;
    assert(header =~= spec_payload_header(*config, seed.id, start).0);
    let mut i: usize = 17;
    while i < 32
        invariant
            17 <= i <= 32,
            out@.len() == i,
            header.len() == 17,
            *rng_state == spec_advance_n(s3, (i - 17) as nat),
            out@ =~= header + Seq::new(
                (i - 17) as nat,
                |k: int| (spec_advance_n(s3, (k + 1) as nat) ^ seed.id.wrapping_add((17 + k) as u64)) as u8,
            ),
        decreases 32 - i,
    {
        advance_rng(rng_state);
        out.push((*rng_state ^ seed.id.wrapping_add(i as u64)) as u8);
        i = i + 1;
    }
    out
}

impl Mutator for ContainerStressMutator {
    /// Both size ranges must be drawable (a range from 0 to `u64::MAX` is not).
    open spec fn is_runnable(&self) -> bool {
        self.config.spec_drawable()
    }

    fn name(&self) -> (r: &'static str)
        ensures
            r@ == "container-stress"@,
    {
        "container-stress"
    }

    fn mutate(&self, seed: &CaseSeed, rng_state: &mut u64) -> (r: CaseSeed)
        ensures
            r.id == seed.id,
            (r.payload@, *final(rng_state)) == spec_build_payload(self.config, seed.id, *old(rng_state)),
    {
        CaseSeed { id: seed.id, payload: build_payload(&self.config, seed, rng_state) }
    }
}

/// Number of grid steps along one dimension: the range width, at most 8.
pub open spec fn spec_grid_steps(min: u64, max: u64) -> nat {
    let w = if max >= min { (max - min) as nat } else { 0nat };
    if w < 8 {
        w
    } else {
        8
    }
}

/// The grid seed for vector step `vi` and map step `mi` with ID `id`: vector
/// mode with sizes `vec_min + vi` and `map_min + mi`, and pattern byte `i` the
/// low byte of `(id + i) ^ vi ^ mi`.
pub open spec fn spec_grid_seed(config: ContainerStressConfig, id: u64, vi: nat, mi: nat) -> SeedView {
    SeedView {
        id,
        payload: spec_header(
            MODE_VEC,
            (config.vec_size_min + vi) as u64,
            (config.map_size_min + mi) as u64,
        ) + Seq::new(
            15,
            |k: int| (id.wrapping_add((17 + k) as u64) ^ (vi as u64) ^ (mi as u64)) as u8,
        ),
    }
}

/// The grid in row-major order (vector step outer, map step inner), with
/// consecutive IDs from `base_id`.
pub open spec fn spec_grid(config: ContainerStressConfig, base_id: u64) -> Seq<SeedView> {
    let cols = spec_grid_steps(config.map_size_min, config.map_size_max) + 1;
    let rows = spec_grid_steps(config.vec_size_min, config.vec_size_max) + 1;
    Seq::new(
        rows * cols,
        |n: int| spec_grid_seed(config, (base_id + n) as u64, (n / cols as int) as nat, (n % cols as int) as nat),
    )
}

/// Number of seeds in the grid of `config`.
pub open spec fn spec_grid_len(config: ContainerStressConfig) -> nat {
    (spec_grid_steps(config.vec_size_min, config.vec_size_max) + 1) * (spec_grid_steps(
        config.map_size_min,
        config.map_size_max,
    ) + 1)
}

/// Deterministic [`CaseSeed`] grid across config bounds (for corpus / tests).
pub fn generate_container_stress_grid(base_id: u64, config: &ContainerStressConfig) -> (r: Vec<
    CaseSeed,
>)
    requires
        base_id + spec_grid_len(*config) <= u64::MAX,
    ensures
        r@.map_values(|s: CaseSeed| s@) == spec_grid(*config, base_id),
{
    let mut out: Vec<CaseSeed> = Vec::new();
    let mut id = base_id;
    let vw = config.vec_size_max.saturating_sub(config.vec_size_min);
    let v_steps = if vw < 8 { vw } else { 8 };
    let mw = config.map_size_max.saturating_sub(config.map_size_min);
    let m_steps = if mw < 8 { mw } else { 8 };
    let ghost cols = (m_steps + 1) as nat;
    let ghost grid = spec_grid(*config, base_id);
    assert(v_steps == spec_grid_steps(config.vec_size_min, config.vec_size_max));
    assert(m_steps == spec_grid_steps(config.map_size_min, config.map_size_max));
    proof {
        assert((v_steps + 1) * cols <= 81) by (nonlinear_arith)
            requires
                v_steps <= 8,
                cols <= 9,
        ;
    }
    let mut vi: u64 = 0;
    while vi <= v_steps
        invariant
            v_steps <= 8,
            m_steps <= 8,
            cols == m_steps + 1,
            grid == spec_grid(*config, base_id),
            v_steps == spec_grid_steps(config.vec_size_min, config.vec_size_max),
            m_steps == spec_grid_steps(config.map_size_min, config.map_size_max),
            base_id + spec_grid_len(*config) <= u64::MAX,
            vi <= v_steps + 1,
            out@.len() == vi * cols,
            id == base_id + out@.len(),
            out@.map_values(|s: CaseSeed| s@) =~= grid.subrange(0, out@.len() as int),
        decreases v_steps + 1 - vi,
    {
        let mut mi: u64 = 0;
        while mi <= m_steps
            invariant
                v_steps <= 8,
                m_steps <= 8,
                cols == m_steps + 1,
                grid == spec_grid(*config, base_id),
                v_steps == spec_grid_steps(config.vec_size_min, config.vec_size_max),
                m_steps == spec_grid_steps(config.map_size_min, config.map_size_max),
                base_id + spec_grid_len(*config) <= u64::MAX,
                vi <= v_steps,
                mi <= m_steps + 1,
                out@.len() == vi * cols + mi,
                id == base_id + out@.len(),
                out@.map_values(|s: CaseSeed| s@) =~= grid.subrange(0, out@.len() as int),
            decreases m_steps + 1 - mi,
        {
            proof {
                assert(vi * cols + mi < (v_steps + 1) * cols) by (nonlinear_arith)
                    requires
                        vi <= v_steps,
                        mi < cols,
                ;
                assert((vi * cols + mi) / (cols as int) == vi && (vi * cols + mi) % (cols as int) == mi)
                    by (nonlinear_arith)
                    requires
                        mi < cols,
                        cols > 0,
                ;
            }
            let v = config.vec_size_min + vi;
            let m = config.map_size_min + mi;
            let mut payload: Vec<u8> = Vec::new();
            payload.push(MODE_VEC);
            push_u64_le(&mut payload, v);
            push_u64_le(&mut payload, m);
            let ghost header = payload@;
            let mut i: u64 = 17;
            while i < 32
                invariant
                    17 <= i <= 32,
                    header.len() == 17,
                    payload@ =~= header + Seq::new(
                        (i - 17) as nat,
                        |k: int| (id.wrapping_add((17 + k) as u64) ^ vi ^ mi) as u8,
                    ),
                decreases 32 - i,
            {
                payload.push((id.wrapping_add(i) ^ vi ^ mi) as u8);
                i = i + 1;
            }
            let ghost before = out@;
            out.push(CaseSeed { id, payload });
            assert(out@.map_values(|s: CaseSeed| s@) =~= before.map_values(|s: CaseSeed| s@).push(
                grid[before.len() as int],
            ));
            id = id + 1;
            mi = mi + 1;
        }
        assert(vi * cols + cols == (vi + 1) * cols) by (nonlinear_arith);
        vi = vi + 1;
    }
    assert(grid.subrange(0, out@.len() as int) =~= grid);
    out
}

/// In vector mode the encoded vector size lies within the configured bounds,
/// and in map mode the encoded map size does, whenever the bounds are ordered.
pub proof fn law_sizes_within_bounds(config: ContainerStressConfig, id: u64, state: u64)
    ensures
        ({
            let (vec_sz, s1) = spec_pick_in_range(state, config.vec_size_min, config.vec_size_max);
            let (map_sz, s2) = spec_pick_in_range(s1, config.map_size_min, config.map_size_max);
            &&& config.vec_size_min <= config.vec_size_max ==> config.vec_size_min <= spec_clamp(
                vec_sz,
                config.vec_size_min,
                config.vec_size_max,
            ) <= config.vec_size_max
            &&& config.map_size_min <= config.map_size_max ==> config.map_size_min <= spec_clamp(
                map_sz,
                config.map_size_min,
                config.map_size_max,
            ) <= config.map_size_max
        }),
{
}

} // verus!
