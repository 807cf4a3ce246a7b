//! Prime counting by trial division, folded into a checksum.

use vstd::prelude::*;
use crate::word::{lemma_low64_add, lemma_low64_mul, lemma_low64_of_word, low64};

verus! {

/// `c` is a prime number: at least 2 and divisible by nothing strictly
/// between 1 and itself.
pub open spec fn is_prime(c: nat) -> bool {
    c >= 2 && forall|d: nat| 2 <= d < c ==> #[trigger] (c % d) != 0
}

/// The number of primes in `2..=n`.
pub open spec fn prime_count(n: nat) -> nat
    decreases n,
{
    if n < 2 {
        0
    } else if is_prime(n) {
        prime_count((n - 1) as nat) + 1
    } else {
        prime_count((n - 1) as nat)
    }
}

/// The weight given to the prime of rank `rank`, the first prime having
/// rank 1.
pub open spec fn prime_weight(rank: nat) -> nat {
    rank % 16 + 1
}

/// The sum over the primes `p` in `2..=n` of `p` times the weight of its rank.
pub open spec fn weighted_prime_sum(n: nat) -> nat
    decreases n,
{
    if n < 2 {
        0
    } else if is_prime(n) {
        weighted_prime_sum((n - 1) as nat) + n * prime_weight(prime_count(n))
    } else {
        weighted_prime_sum((n - 1) as nat)
    }
}

/// The result of the kernel for size `n`: the prime count in the upper half
/// of the word, XORed with the weighted sum modulo 2^64.
pub open spec fn prime_trial(n: nat) -> u64 {
    ((prime_count(n) as u64) << 32) ^ low64(weighted_prime_sum(n))
}

/// There are at most `n` primes up to `n`.
pub proof fn lemma_prime_count_bound(n: nat)
    ensures
        prime_count(n) <= n,
    decreases n,
{
    if n >= 2 {
        lemma_prime_count_bound((n - 1) as nat);
    }
}

/// A number with no divisor in `2..bound`, where `bound * bound` exceeds it,
/// has no proper divisor at all.
pub proof fn lemma_trial_division_complete(c: nat, bound: nat)
    requires
        c >= 2,
        bound >= 2,
        bound * bound > c,
        forall|d: nat| 2 <= d < bound ==> #[trigger] (c % d) != 0,
    ensures
        is_prime(c),
{
    assert forall|d: nat| 2 <= d < c implies #[trigger] (c % d) != 0 by {
        if d >= bound && c % d == 0 {
            let q = c / d;
            assert(c == q * d && 2 <= q < bound) by (nonlinear_arith)
                requires
                    c % d == 0,
                    q == c / d,
                    2 <= bound <= d < c < bound * bound,
            ;
            assert(c % q == 0) by (nonlinear_arith)
                requires
                    c == q * d,
                    q >= 2,
            ;
        }
    }
}

/// Classifies `candidate` by dividing it by 2, 3, ... up to its square root.
pub fn is_prime_by_trial_division(candidate: usize) -> (prime: bool)
    ensures
        prime == is_prime(candidate as nat),
{
    if candidate < 2 {
        return false;
    }
    let mut divisor: usize = 2;
    while divisor <= candidate / divisor
        invariant
            2 <= divisor <= candidate,
            forall|d: nat| 2 <= d < divisor ==> #[trigger] (candidate as nat % d) != 0,
        decreases candidate - divisor,
    {
        assert(divisor < candidate) by (nonlinear_arith)
            requires
                2 <= divisor <= candidate / divisor,
        ;
        if candidate % divisor == 0 {
            return false;
        }
        divisor += 1;
    }
    proof {
        assert(divisor * divisor > candidate) by (nonlinear_arith)
            requires
                divisor > candidate / divisor,
                divisor >= 2,
        ;
        lemma_trial_division_complete(candidate as nat, divisor as nat);
    }
    true
}

/// Counts the primes up to `n` and folds them into a checksum.
pub fn run_prime_trial(n: usize) -> (result: u64)
    ensures
        result == prime_trial(n as nat),
        n < 2 ==> result == 0,
{
    assert((0u64 << 32) ^ 0u64 == 0u64) by (bit_vector);
    if n < 2 {
        return 0;
    }
    let mut count: u64 = 0;
    let mut checksum: u64 = 0;
    let mut candidate: usize = 1;
    while candidate < n
        invariant
            1 <= candidate <= n,
            count == prime_count(candidate as nat),
            checksum == low64(weighted_prime_sum(candidate as nat)),
        decreases n - candidate,
    {
        candidate += 1;
        if is_prime_by_trial_division(candidate) {
            proof {
                lemma_prime_count_bound(candidate as nat);
            }
            count += 1;
            let weight: u64 = count % 16 + 1;
            proof {
                lemma_low64_of_word(candidate as u64);
                lemma_low64_of_word(weight);
                lemma_low64_mul(candidate as nat, weight as nat);
                lemma_low64_add(
                    weighted_prime_sum((candidate - 1) as nat),
                    candidate as nat * weight as nat,
                );
            }
            checksum = checksum.wrapping_add((candidate as u64).wrapping_mul(weight));
        }
    }
    (count << 32) ^ checksum
}

} // verus!
