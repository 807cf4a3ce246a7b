//! A branch-heavy accumulation: each index updates the accumulator through
//! three data-dependent choices between adding and XORing.

use vstd::prelude::*;
use crate::word::{lemma_low64_mul, lemma_low64_of_word, lemma_wrapping_add, low64};

verus! {

/// The update chosen by the parity of `i`: even indices add `i << 1`, odd
/// ones XOR `3 * i`.
pub open spec fn parity_update(acc: u64, i: u64) -> u64 {
    if i % 2 == 0 {
        low64((acc + (i << 1)) as nat)
    } else {
        acc ^ low64((i * 3) as nat)
    }
}

/// The update chosen by divisibility by 7: multiples add `i >> 2`, the others
/// XOR `i % 16`.
pub open spec fn seventh_update(acc: u64, i: u64) -> u64 {
    if i % 7 == 0 {
        low64((acc + (i >> 2)) as nat)
    } else {
        acc ^ (i % 16)
    }
}

/// The update applied to multiples of 97 only: they add `i * (i % 13 + 1)`.
pub open spec fn rare_update(acc: u64, i: u64) -> u64 {
    if i % 97 == 0 {
        low64((acc + low64((i * (i % 13 + 1)) as nat)) as nat)
    } else {
        acc
    }
}

/// The accumulator after index `i` has been applied to `acc`.
pub open spec fn branch_step(acc: u64, i: u64) -> u64 {
    rare_update(seventh_update(parity_update(acc, i), i), i)
}

/// The result of the kernel for size `n`: the steps for `1..=n` applied in
/// order to 0.
pub open spec fn branch_mix(n: nat) -> u64
    decreases n,
{
    if n == 0 {
        0
    } else {
        branch_step(branch_mix((n - 1) as nat), n as u64)
    }
}

/// Runs the branchy accumulation over `1..=n`.
pub fn run_branch_mix(n: u64) -> (result: u64)
    ensures
        result == branch_mix(n as nat),
{
    let mut acc: u64 = 0;
    let mut i: u64 = 0;
    while i < n
        invariant
            i <= n,
            acc == branch_mix(i as nat),
        decreases n - i,
    {
        i += 1;
        if i % 2 == 0 {
            proof {
                lemma_wrapping_add(acc, i << 1);
            }
            acc = acc.wrapping_add(i << 1);
        } else {
            proof {
                lemma_low64_of_word(i);
                lemma_low64_of_word(3);
                lemma_low64_mul(i as nat, 3);
            }
            acc ^= i.wrapping_mul(3);
        }

        if i % 7 == 0 {
            proof {
                lemma_wrapping_add(acc, i >> 2);
            }
            acc = acc.wrapping_add(i >> 2);
        } else {
            acc ^= i % 16;
        }

        if i % 97 == 0 {
            let factor: u64 = i % 13 + 1;
            let product: u64 = i.wrapping_mul(factor);
            proof {
                lemma_low64_of_word(i);
                lemma_low64_of_word(factor);
                lemma_low64_mul(i as nat, factor as nat);
                lemma_wrapping_add(acc, product);
            }
            acc = acc.wrapping_add(product);
        }
    }
    acc
}

} // verus!
