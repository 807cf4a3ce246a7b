//! A linear congruential generator whose states are absorbed into a checksum.

use vstd::prelude::*;
use crate::word::low64;

verus! {

/// The state the generator starts from.
pub const LCG_SEED: u64 = 123_456_789;

/// The generator's multiplier.
pub const LCG_MULTIPLIER: u64 = 1_103_515_245;

/// The generator's increment.
pub const LCG_INCREMENT: u64 = 12_345;

/// The generator's modulus, 2^31 - 1.
pub const LCG_MODULUS: u64 = 2_147_483_647;

/// The state that follows `state`.
pub open spec fn lcg_next(state: nat) -> nat {
    (state * LCG_MULTIPLIER as nat + LCG_INCREMENT as nat) % (LCG_MODULUS as nat)
}

/// The state after `steps` steps from the seed.
pub open spec fn lcg_state(steps: nat) -> nat
    decreases steps,
{
    if steps == 0 {
        LCG_SEED as nat
    } else {
        lcg_next(lcg_state((steps - 1) as nat))
    }
}

/// The checksum after it has absorbed `state`: even states are added modulo
/// 2^64, odd ones XORed.
pub open spec fn absorb(checksum: u64, state: u64) -> u64 {
    if state % 2 == 0 {
        low64((checksum + state) as nat)
    } else {
        checksum ^ state
    }
}

/// The checksum after the first `steps` states that follow the seed have been
/// absorbed in order.
pub open spec fn lcg_checksum(steps: nat) -> u64
    decreases steps,
{
    if steps == 0 {
        0
    } else {
        absorb(lcg_checksum((steps - 1) as nat), lcg_state(steps) as u64)
    }
}

/// The result of the kernel for `n` steps: the checksum XORed with the last
/// state.
pub open spec fn lcg_stream(n: nat) -> u64 {
    lcg_checksum(n) ^ (lcg_state(n) as u64)
}

/// Every state lies below the modulus.
pub proof fn lemma_lcg_state_bound(steps: nat)
    ensures
        lcg_state(steps) < LCG_MODULUS,
    decreases steps,
{
    if steps > 0 {
        lemma_lcg_state_bound((steps - 1) as nat);
    }
}

/// Runs the generator for `n` steps and returns the checksum of its states.
pub fn run_lcg_stream(n: u64) -> (result: u64)
    ensures
        result == lcg_stream(n as nat),
        n == 0 ==> result == LCG_SEED,
{
    let mut state: u64 = LCG_SEED;
    let mut checksum: u64 = 0;
    let mut i: u64 = 0;
    while i < n
        invariant
            i <= n,
            state == lcg_state(i as nat),
            checksum == lcg_checksum(i as nat),
        decreases n - i,
    {
        proof {
            lemma_lcg_state_bound(i as nat);
        }
        assert(state * LCG_MULTIPLIER + LCG_INCREMENT <= u64::MAX) by (nonlinear_arith)
            requires
                state < 2_147_483_647,
                LCG_MULTIPLIER == 1_103_515_245,
                LCG_INCREMENT == 12_345,
        ;
        state = (state * LCG_MULTIPLIER + LCG_INCREMENT) % LCG_MODULUS;
        if state % 2 == 0 {
            checksum = checksum.wrapping_add(state);
        } else {
            checksum ^= state;
        }
        i += 1;
    }
    assert(0u64 ^ state == state) by (bit_vector);
    checksum ^ state
}

} // verus!
