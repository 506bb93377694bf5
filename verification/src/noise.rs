//! A small deterministic xorshift generator for the symmetry-breaking
//! initialization noise. Determinism is deliberate: the whole initial
//! state is an exact function of the configuration, seed included.

use vstd::prelude::*;

verus! {

/// One xorshift advance of the generator state.
pub open spec fn rng_next(s: u64) -> u64 {
    let a = s ^ (s << 13);
    let b = a ^ (a >> 7);
    b ^ (b << 17)
}

/// The generator state after `k` advances from `seed`.
pub open spec fn rng_state(seed: u64, k: nat) -> u64
    decreases k,
{
    if k == 0 {
        seed
    } else {
        rng_next(rng_state(seed, (k - 1) as nat))
    }
}

/// The noise value a generator state yields: a residue in
/// `[0, amplitude)`, or zero for a non-positive amplitude.
pub open spec fn noise_of(state: u64, amplitude: int) -> int {
    if amplitude <= 0 {
        0
    } else {
        (state as int) % amplitude
    }
}

/// The `k`-th noise draw of a run seeded with `seed`: the draw advances
/// the generator, then takes its residue.
pub open spec fn noise_at(seed: u64, k: nat, amplitude: int) -> int {
    noise_of(rng_state(seed, k + 1), amplitude)
}

/// Noise draws stay within `[0, amplitude)`.
pub proof fn lemma_noise_range(state: u64, amplitude: int)
    requires
        0 < amplitude,
    ensures
        0 <= noise_of(state, amplitude) < amplitude,
{
    vstd::arithmetic::div_mod::lemma_mod_bound(state as int, amplitude);
}

/// One xorshift advance, the executable form of [`rng_next`].
pub fn rng_step(state: u64) -> (next: u64)
    ensures
        next == rng_next(state),
{
    let a = state ^ (state << 13u64);
    let b = a ^ (a >> 7u64);
    b ^ (b << 17u64)
}

/// The noise value of a generator state, the executable form of
/// [`noise_of`].
pub fn noise_value(state: u64, amplitude: i64) -> (n: i64)
    ensures
        n as int == noise_of(state, amplitude as int),
        amplitude > 0 ==> 0 <= n < amplitude,
{
    if amplitude <= 0 {
        0
    } else {
        proof {
            lemma_noise_range(state, amplitude as int);
        }
        (state % (amplitude as u64)) as i64
    }
}

} // verus!
