//! The checksum mixer: folds one kernel result into a running checksum.

use vstd::prelude::*;
use crate::word::low64;

verus! {

/// The additive constant of the mixer (the 64-bit golden-ratio constant).
pub const MIX_INCREMENT: u64 = 0x9e37_79b9_7f4a_7c15;

/// `x` rotated left by 13 bit positions within a 64-bit word.
pub open spec fn rotate_left_13(x: u64) -> u64 {
    (x << 13) | (x >> 51)
}

/// What is XORed into the running checksum for one run: the run's value plus
/// the mixer constant plus two shifted copies of the run's index, modulo 2^64.
pub open spec fn salted(value: u64, iteration: u64) -> u64 {
    low64((value + MIX_INCREMENT + (iteration << 6) + (iteration >> 2)) as nat)
}

/// The mixed checksum as a mathematical function of its three inputs.
pub open spec fn mix(current: u64, value: u64, iteration: u64) -> u64 {
    rotate_left_13(current ^ salted(value, iteration))
}

/// Two running checksums that mix to the same word with the same run were
/// the same: mixing loses nothing of the running checksum.
pub proof fn lemma_mix_injective_in_current(first: u64, second: u64, value: u64, iteration: u64)
    requires
        mix(first, value, iteration) == mix(second, value, iteration),
    ensures
        first == second,
{
    let salt = salted(value, iteration);
    assert(((first ^ salt) << 13) | ((first ^ salt) >> 51) == ((second ^ salt) << 13) | ((second
        ^ salt) >> 51) ==> first == second) by (bit_vector);
}

/// Two run results that mix to the same word from the same running checksum
/// and index were the same: mixing loses nothing of the result.
pub proof fn lemma_mix_injective_in_value(current: u64, first: u64, second: u64, iteration: u64)
    requires
        mix(current, first, iteration) == mix(current, second, iteration),
    ensures
        first == second,
{
    let x = salted(first, iteration);
    let y = salted(second, iteration);
    assert(((current ^ x) << 13) | ((current ^ x) >> 51) == ((current ^ y) << 13) | ((current ^ y)
        >> 51) ==> x == y) by (bit_vector);
}

/// Folds `value`, the result of run number `iteration`, into `current`.
pub fn mix_checksum(current: u64, value: u64, iteration: u64) -> (mixed: u64)
    ensures
        mixed == mix(current, value, iteration),
{
    let high: u64 = iteration << 6;
    let low: u64 = iteration >> 2;
    let first: u64 = value.wrapping_add(MIX_INCREMENT);
    let second: u64 = first.wrapping_add(high);
    let third: u64 = second.wrapping_add(low);
    let word: u64 = current ^ third;
    (word << 13) | (word >> 51)
}

} // verus!
