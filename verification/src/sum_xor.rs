//! A running sum of each index XORed with a shifted copy of itself.

use vstd::prelude::*;
use crate::word::low64;

verus! {

/// What index `i` adds to the sum: `i ^ (i >> 3)` plus `i % 8`.
pub open spec fn xor_term(i: u64) -> nat {
    ((i ^ (i >> 3)) + i % 8) as nat
}

/// The sum of the terms for the indices `1..=n`.
pub open spec fn xor_sum(n: nat) -> nat
    decreases n,
{
    if n == 0 {
        0
    } else {
        xor_sum((n - 1) as nat) + xor_term(n as u64)
    }
}

/// The result of the kernel for size `n`: the sum modulo 2^64.
pub open spec fn sum_xor(n: nat) -> u64 {
    low64(xor_sum(n))
}

/// Sums the terms for the indices `1..=n` with wrapping addition.
pub fn run_sum_xor(n: u64) -> (result: u64)
    ensures
        result == sum_xor(n as nat),
{
    let mut acc: u64 = 0;
    let mut i: u64 = 0;
    while i < n
        invariant
            i <= n,
            acc == low64(xor_sum(i as nat)),
        decreases n - i,
    {
        i += 1;
        let term: u64 = (i ^ (i >> 3)).wrapping_add(i % 8);
        acc = acc.wrapping_add(term);
    }
    acc
}

} // verus!
