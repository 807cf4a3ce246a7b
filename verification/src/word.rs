//! Arithmetic modulo 2^64: how the wrapping operations on `u64` relate to
//! arithmetic on the natural numbers.

use vstd::prelude::*;
use vstd::arithmetic::div_mod::{lemma_add_mod_noop, lemma_mul_mod_noop, lemma_small_mod};

verus! {

/// The number of values of a 64-bit word, 2^64.
pub open spec fn word_range() -> nat {
    0x1_0000_0000_0000_0000
}

/// The 64-bit word that holds `x` modulo 2^64.
pub open spec fn low64(x: nat) -> u64 {
    (x % word_range()) as u64
}

/// A value that fits in a word is its own residue.
pub proof fn lemma_low64_of_word(x: u64)
    ensures
        low64(x as nat) == x,
{
    lemma_small_mod(x as nat, word_range());
}

/// Wrapping addition of two words is addition modulo 2^64.
pub proof fn lemma_wrapping_add(x: u64, y: u64)
    ensures
        x.wrapping_add(y) == low64((x + y) as nat),
{
    if x + y > u64::MAX {
        lemma_small_mod((x + y - word_range()) as nat, word_range());
    } else {
        lemma_small_mod((x + y) as nat, word_range());
    }
}

/// Wrapping addition commutes with taking residues.
pub proof fn lemma_low64_add(s: nat, t: nat)
    ensures
        low64(s).wrapping_add(low64(t)) == low64(s + t),
{
    lemma_wrapping_add(low64(s), low64(t));
    lemma_add_mod_noop(s as int, t as int, word_range() as int);
}

/// Wrapping multiplication commutes with taking residues.
pub proof fn lemma_low64_mul(s: nat, t: nat)
    ensures
        low64(s).wrapping_mul(low64(t)) == low64(s * t),
{
    lemma_mul_mod_noop(s as int, t as int, word_range() as int);
}

} // verus!
