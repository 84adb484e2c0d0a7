//! A permuted congruential generator (PCG-XSH-RR): a 64-bit
//! linear-congruential state advanced on every draw, with a 32-bit output
//! taken by xorshifting the state and rotating its high word, and a
//! bounded sampler that removes modulo bias by rejection.

use vstd::prelude::*;

verus! {

/// Multiplier of the linear-congruential state advance.
pub const PCG_MULTIPLIER: u64 = 6_364_136_223_846_793_005;

/// Constant the wall-clock seed is multiplied by when a generator is built.
pub const PCG_SEED_MULTIPLIER: u64 = 0x853c_49e6_748f_ea9b;

/// Generator state: a 64-bit congruential state plus a per-instance
/// stream increment (forced odd on every advance).
pub struct PcgRng {
    pub state: u64,
    pub increment: u64,
}

/// Two's-complement negation on 32 bits.
pub open spec fn negate_u32_spec(x: u32) -> u32 {
    if x == 0 {
        0u32
    } else {
        (0x1_0000_0000 - x) as u32
    }
}

/// Two's-complement negation on 32 bits, used for the rotate amount of
/// the output permutation and for the bounded sampler's threshold.
pub fn negate_u32(x: u32) -> (r: u32)
    ensures
        r == negate_u32_spec(x),
{
    if x == 0 {
        0
    } else {
        (u32::MAX - x) + 1
    }
}

/// The state after one advance: state times the fixed odd multiplier,
/// plus the stream increment forced odd, modulo 2^64.
pub open spec fn pcg_advance(state: u64, increment: u64) -> u64 {
    vstd::wrapping::u64_specs::wrapping_add(
        vstd::wrapping::u64_specs::wrapping_mul(state, PCG_MULTIPLIER),
        increment | 1,
    )
}

/// The state after `n` advances.
pub open spec fn pcg_state_n(state: u64, increment: u64, n: nat) -> u64
    decreases n,
{
    if n == 0 {
        state
    } else {
        pcg_advance(pcg_state_n(state, increment, (n - 1) as nat), increment)
    }
}

/// The 32-bit output drawn from a state: the low word of a xorshift of
/// the state, rotated right by the top five state bits.
pub open spec fn pcg_output(state: u64) -> u32 {
    let xor_shift = ((((state >> 18) ^ state) >> 27) & 0xffff_ffff) as u32;
    let rotate = (state >> 59) as u32;
    (xor_shift >> rotate) | (xor_shift << (negate_u32_spec(rotate) & 31))
}

impl PcgRng {
    /// Builds a generator from a seed, reused for both the state and the
    /// stream increment.
    pub fn new(seed: u64) -> (rng: PcgRng)
        ensures
            rng.state == vstd::wrapping::u64_specs::wrapping_mul(seed, PCG_SEED_MULTIPLIER),
            rng.increment == rng.state,
    {
        let s: u64 = seed.wrapping_mul(PCG_SEED_MULTIPLIER);
        PcgRng { state: s, increment: s }
    }
}

/// One draw: advances the state once and permutes the old state into a
/// 32-bit output.
pub fn pcg_32(rng: &mut PcgRng) -> (r: u32)
    ensures
        r == pcg_output(old(rng).state),
        final(rng).state == pcg_advance(old(rng).state, old(rng).increment),
        final(rng).increment == old(rng).increment,
{
    let state: u64 = rng.state;
    rng.state = state.wrapping_mul(PCG_MULTIPLIER).wrapping_add(rng.increment | 1);
    proof {
        assert(((state >> 18) ^ state) >> 27 & 0xffff_ffff <= 0xffff_ffff) by (bit_vector);
        assert(state >> 59 < 32) by (bit_vector);
    }
    let xor_shift: u32 = ((((state >> 18) ^ state) >> 27) & 0xffff_ffff) as u32;
    let rotate: u32 = (state >> 59) as u32;
    let spin: u32 = negate_u32(rotate) & 31;
    proof {
        let neg = negate_u32_spec(rotate);
        assert(neg & 31 < 32) by (bit_vector);
    }
    (xor_shift >> rotate) | (xor_shift << spin)
}

/// The rejection threshold for a bound: (2^32 - bound) mod bound. Draws
/// below it are rejected, so the accepted range is an exact multiple of
/// the bound and taking the remainder is unbiased.
pub open spec fn bound_threshold(bound: u32) -> u32 {
    negate_u32_spec(bound) % bound
}

/// The most draws one bounded sample will make before it settles for the
/// last one. The threshold is always below 2^31, so each rejection has
/// probability under one half and this cap is reached with probability
/// under 2^-4095: it exists only so that the sampler is total.
pub const DRAW_ATTEMPT_LIMIT: u32 = 4096;

/// What one bounded draw did: the generator advanced `n >= 1` times, every
/// output before the last fell below the rejection threshold, the last one
/// was accepted (or the attempt limit was reached), and the result is the
/// last output's remainder by the bound.
pub open spec fn bounded_draw_trace(
    s0: u64,
    inc: u64,
    bound: u32,
    n: nat,
    r: u32,
    s_end: u64,
) -> bool {
    &&& n >= 1
    &&& s_end == pcg_state_n(s0, inc, n)
    &&& forall|m: nat|
        m < n - 1 ==> pcg_output(pcg_state_n(s0, inc, m)) < bound_threshold(bound)
    &&& (pcg_output(pcg_state_n(s0, inc, (n - 1) as nat)) >= bound_threshold(bound) || n
        == DRAW_ATTEMPT_LIMIT)
    &&& r == pcg_output(pcg_state_n(s0, inc, (n - 1) as nat)) % bound
}

/// A draw uniform over [0, bound): rejection sampling against the
/// threshold, then the remainder by the bound. The result is always
/// strictly below the bound.
pub fn pcg_32_bound(rng: &mut PcgRng, bound: u32) -> (r: u32)
    requires
        bound >= 1,
    ensures
        r < bound,
        final(rng).increment == old(rng).increment,
        exists|n: nat|
            bounded_draw_trace(
                old(rng).state,
                old(rng).increment,
                bound,
                n,
                r,
                final(rng).state,
            ),
{
    let threshold: u32 = negate_u32(bound) % bound;
    let ghost s0 = rng.state;
    let ghost inc = rng.increment;
    let mut last: u32 = pcg_32(rng);
    let mut n: u32 = 1;
    proof {
        assert(pcg_state_n(s0, inc, 0) == s0);
        assert(pcg_state_n(s0, inc, 1) == pcg_advance(s0, inc));
    }
    while last < threshold && n < DRAW_ATTEMPT_LIMIT
        invariant
            bound >= 1,
            1 <= n <= DRAW_ATTEMPT_LIMIT,
            rng.increment == inc,
            rng.state == pcg_state_n(s0, inc, n as nat),
            threshold == bound_threshold(bound),
            last == pcg_output(pcg_state_n(s0, inc, (n - 1) as nat)),
            forall|m: nat|
                m < n - 1 ==> pcg_output(pcg_state_n(s0, inc, m)) < bound_threshold(bound),
        decreases DRAW_ATTEMPT_LIMIT - n,
    {
        last = pcg_32(rng);
        n = n + 1;
    }
    let r: u32 = last % bound;
    proof {
        assert(bounded_draw_trace(s0, inc, bound, n as nat, r, rng.state));
    }
    r
}

/// Relies on std::time::SystemTime::now and duration_since: the seconds
/// of wall-clock time since the Unix epoch, or 0 if the clock stands
/// before it. Nothing is promised of the result, which depends on the
/// time of the call.
#[verifier::external_body]
pub fn get_seconds() -> u64 {
    match std::time::SystemTime::now().duration_since(std::time::UNIX_EPOCH) {
        Ok(d) => d.as_secs(),
        Err(_) => 0,
    }
}

} // verus!
