//! Deterministic xorshift64* generator keyed by a seed ID.
use vstd::prelude::*;

verus! {

/// Multiplier that mixes a seed ID into the initial generator state.
pub const SEED_MIX: u64 = 0x9E3779B97F4A7C15;

/// Output multiplier of xorshift64*.
pub const OUTPUT_MUL: u64 = 0x2545F4914F6CDD1D;

/// The mixed seed: `(seed_id + 1) * SEED_MIX`, wrapping.
pub open spec fn spec_mixed_seed(seed_id: u64) -> u64 {
    seed_id.wrapping_add(1).wrapping_mul(SEED_MIX)
}

/// Initial state for `seed_id`: the mixed seed, or `SEED_MIX` where mixing
/// gives zero (for `seed_id == u64::MAX`), so that no seed starts in the
/// degenerate zero state of xorshift.
pub open spec fn spec_prng_init(seed_id: u64) -> u64 {
    if spec_mixed_seed(seed_id) == 0 {
        SEED_MIX
    } else {
        spec_mixed_seed(seed_id)
    }
}

/// One xorshift step on the raw state.
pub open spec fn spec_xorshift(x: u64) -> u64 {
    let a = x ^ (x >> 12u64);
    let b = a ^ (a << 25u64);
    b ^ (b >> 27u64)
}

/// The state reached from `state` after `n` steps.
pub open spec fn spec_state_after(state: u64, n: nat) -> u64
    decreases n,
{
    if n == 0 {
        state
    } else {
        spec_xorshift(spec_state_after(state, (n - 1) as nat))
    }
}

/// The `i`-th 64-bit output (0-based) of a generator that starts in `state`.
pub open spec fn spec_u64_at(state: u64, i: nat) -> u64 {
    spec_state_after(state, i + 1).wrapping_mul(OUTPUT_MUL)
}

/// The `i`-th byte (0-based) of the mutation stream of a generator in `state`:
/// the top byte of the `i`-th 64-bit output.
pub open spec fn spec_byte_at(state: u64, i: nat) -> u8 {
    (spec_u64_at(state, i) >> 56u64) as u8
}

/// The first `len` bytes of the stream of a generator in `state`.
pub open spec fn spec_stream(state: u64, len: nat) -> Seq<u8> {
    Seq::new(len, |i: int| spec_byte_at(state, i as nat))
}

/// Deterministic pseudo-random number generator keyed by a seed ID (xorshift64*).
///
/// The same `seed_id` always yields the same stream, independent of the
/// environment or the order of calls elsewhere.
pub struct SeededPrng {
    state: u64,
}

impl SeededPrng {
    #[verifier::type_invariant]
    spec fn nonzero_state(self) -> bool {
        self.state != 0
    }
}

impl View for SeededPrng {
    type V = u64;

    /// The raw generator state.
    closed spec fn view(&self) -> u64 {
        self.state
    }
}

impl Clone for SeededPrng {
    fn clone(&self) -> (r: Self)
        ensures
            r@ == self@,
    {
        proof {
            use_type_invariant(self);
        }
        SeededPrng { state: self.state }
    }
}

impl SeededPrng {
    /// Creates a generator seeded by `seed_id`.
    pub fn new(seed_id: u64) -> (r: Self)
        ensures
            r@ == spec_prng_init(seed_id),
            r@ != 0,
    {
        let mixed = seed_id.wrapping_add(1).wrapping_mul(SEED_MIX);
        let state = if mixed == 0 {
            SEED_MIX
        } else {
            mixed
        };
        SeededPrng { state }
    }

    /// Advances the state and returns the next 64-bit value.
    pub fn next_u64(&mut self) -> (r: u64)
        ensures
            final(self)@ == spec_xorshift(old(self)@),
            r == spec_u64_at(old(self)@, 0),
            r != 0,
    {
        proof {
            use_type_invariant(&*self);
            reveal_with_fuel(spec_state_after, 2);
            lemma_xorshift_nonzero(self.state);
            lemma_output_nonzero(spec_xorshift(self.state));
        }
        let mut x = self.state;
        x = x ^ (x >> 12u64);
        x = x ^ (x << 25u64);
        x = x ^ (x >> 27u64);
        self.state = x;
        x.wrapping_mul(OUTPUT_MUL)
    }

    /// Returns the next byte of the mutation stream.
    pub fn next_byte(&mut self) -> (r: u8)
        ensures
            final(self)@ == spec_xorshift(old(self)@),
            r == spec_byte_at(old(self)@, 0),
    {
        (self.next_u64() >> 56u64) as u8
    }

    /// Returns the next `len` bytes of the mutation stream.
    pub fn mutation_stream(&mut self, len: usize) -> (r: Vec<u8>)
        ensures
            r@ == spec_stream(old(self)@, len as nat),
            final(self)@ == spec_state_after(old(self)@, len as nat),
    {
        let ghost start = self@;
        let mut out: Vec<u8> = Vec::new();
        let mut i: usize = 0;
        while i < len
            invariant
                i <= len,
                self@ == spec_state_after(start, i as nat),
                out@ =~= spec_stream(start, i as nat),
            decreases len - i,
        {
            let b = self.next_byte();
            proof {
                lemma_state_after_succ(start, i as nat);
            }
            out.push(b);
            i = i + 1;
        }
        out
    }
}

/// A xorshift step maps a non-zero state to a non-zero state.
pub proof fn lemma_xorshift_nonzero(x: u64)
    requires
        x != 0,
    ensures
        spec_xorshift(x) != 0,
{
    assert(x != 0 ==> ((x ^ (x >> 12u64)) ^ ((x ^ (x >> 12u64)) << 25u64)) ^ (((x ^ (x
        >> 12u64)) ^ ((x ^ (x >> 12u64)) << 25u64)) >> 27u64) != 0) by (bit_vector);
}

/// Multiplying a non-zero state by the (odd) output multiplier never gives zero:
/// the multiplier has an inverse modulo 2^64.
pub proof fn lemma_output_nonzero(x: u64)
    requires
        x != 0,
    ensures
        x.wrapping_mul(OUTPUT_MUL) != 0,
{
    let m: int = 0x1_0000_0000_0000_0000;
    let c: int = OUTPUT_MUL as int;
    let inv: int = 0x59071d96d81ecd35;
    let k: int = 934034299265436267;
    assert(c * inv == 1 + k * m);
    let xi = x as int;
    assert(xi * c * inv == xi + (xi * k) * m) by (nonlinear_arith)
        requires
            c * inv == 1 + k * m,
    ;
    vstd::arithmetic::div_mod::lemma_mod_multiples_vanish(xi * k, xi, m);
    vstd::arithmetic::div_mod::lemma_mul_mod_noop_left(xi * c, inv, m);
    if (xi * c) % m == 0 {
        assert(((xi * c) % m) * inv % m == 0);
        assert((m * (xi * k) + xi) % m == xi % m);
        assert(xi % m == xi);
        assert(false);
    }
}

/// No generator seeded by an ID ever draws the value zero: the initial state is
/// non-zero and every step keeps it so.
pub proof fn law_draws_never_zero(seed_id: u64, i: nat)
    ensures
        spec_prng_init(seed_id) != 0,
        spec_u64_at(spec_prng_init(seed_id), i) != 0,
{
    lemma_state_after_nonzero(spec_prng_init(seed_id), i + 1);
    lemma_output_nonzero(spec_state_after(spec_prng_init(seed_id), i + 1));
}

/// Any number of steps from a non-zero state reaches a non-zero state.
pub proof fn lemma_state_after_nonzero(state: u64, n: nat)
    requires
        state != 0,
    ensures
        spec_state_after(state, n) != 0,
    decreases n,
{
    if n > 0 {
        lemma_state_after_nonzero(state, (n - 1) as nat);
        lemma_xorshift_nonzero(spec_state_after(state, (n - 1) as nat));
    }
}

/// Stepping `n` times and then once more reaches the state of `n + 1` steps,
/// and the outputs from there on are the outputs of the original shifted by `n`.
pub proof fn lemma_state_after_succ(state: u64, n: nat)
    ensures
        spec_state_after(state, n + 1) == spec_xorshift(spec_state_after(state, n)),
        spec_u64_at(spec_state_after(state, n), 0) == spec_u64_at(state, n),
        spec_byte_at(spec_state_after(state, n), 0) == spec_byte_at(state, n),
{
    lemma_state_after_add(state, n, 1);
}

/// `m` more steps after `n` steps are `n + m` steps.
pub proof fn lemma_state_after_add(state: u64, n: nat, m: nat)
    ensures
        spec_state_after(spec_state_after(state, n), m) == spec_state_after(state, n + m),
    decreases m,
{
    if m > 0 {
        lemma_state_after_add(state, n, (m - 1) as nat);
    }
}

/// Reading `n` bytes and then `m` more gives the same bytes as reading `n + m`
/// at once: the stream does not depend on how the reads are split.
pub proof fn law_stream_split(state: u64, n: nat, m: nat)
    ensures
        spec_stream(state, n) + spec_stream(spec_state_after(state, n), m) == spec_stream(
            state,
            n + m,
        ),
{
    assert forall|i: int| 0 <= i < m implies #[trigger] spec_byte_at(spec_state_after(state, n), i as nat)
        == spec_byte_at(state, (n + i) as nat) by {
        lemma_state_after_add(state, n, (i + 1) as nat);
    }
    assert(spec_stream(state, n) + spec_stream(spec_state_after(state, n), m) =~= spec_stream(
        state,
        n + m,
    ));
}

} // verus!
