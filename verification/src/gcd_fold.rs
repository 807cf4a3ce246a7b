//! Greatest common divisors of two affine sequences, folded into a checksum.

use vstd::prelude::*;
use vstd::arithmetic::div_mod::lemma_fundamental_div_mod;
use crate::word::{lemma_low64_add, lemma_low64_mul, lemma_low64_of_word, low64};

verus! {

/// The greatest common divisor as Euclid's algorithm defines it: the last
/// nonzero remainder of the chain `a, b, a % b, ...`.
pub open spec fn gcd(a: nat, b: nat) -> nat
    decreases b,
{
    if b == 0 {
        a
    } else {
        gcd(b, a % b)
    }
}

/// `d` divides `x`.
pub open spec fn divides(d: nat, x: nat) -> bool {
    exists|k: nat| x == #[trigger] (k * d)
}

/// The first operand for index `i`: `37 * i + 17` modulo 2^64.
pub open spec fn left_operand(i: nat) -> u64 {
    low64(i * 37 + 17)
}

/// The second operand for index `i`: `53 * i + 19` modulo 2^64.
pub open spec fn right_operand(i: nat) -> u64 {
    low64(i * 53 + 19)
}

/// The weight given to the divisor found for index `i`.
pub open spec fn index_weight(i: nat) -> nat {
    i % 16 + 1
}

/// The sum over `i` in `1..=n` of the weighted greatest common divisor of the
/// two operands for `i`.
pub open spec fn weighted_gcd_sum(n: nat) -> nat
    decreases n,
{
    if n == 0 {
        0
    } else {
        weighted_gcd_sum((n - 1) as nat) + gcd(
            left_operand(n) as nat,
            right_operand(n) as nat,
        ) * index_weight(n)
    }
}

/// The result of the kernel for size `n`.
pub open spec fn gcd_fold(n: nat) -> u64 {
    low64(weighted_gcd_sum(n))
}

/// What divides `b` and `a % b` divides `a`, and what divides `a` and `b`
/// divides `a % b`.
proof fn lemma_divides_remainder(d: nat, a: nat, b: nat)
    requires
        b > 0,
        divides(d, b),
    ensures
        divides(d, a) <==> divides(d, a % b),
{
    let kb = choose|k: nat| b == #[trigger] (k * d);
    let q = a / b;
    lemma_fundamental_div_mod(a as int, b as int);
    if divides(d, a % b) {
        let kr = choose|k: nat| a % b == #[trigger] (k * d);
        assert(a == (q * kb + kr) * d) by (nonlinear_arith)
            requires
                a == b * q + a % b,
                b == kb * d,
                a % b == kr * d,
        ;
    }
    if divides(d, a) {
        let ka = choose|k: nat| a == #[trigger] (k * d);
        if d == 0 {
            assert(a == 0) by (nonlinear_arith)
                requires
                    a == ka * d,
                    d == 0,
            ;
        } else {
            assert(ka >= q * kb && a % b == (ka - q * kb) * d) by (nonlinear_arith)
                requires
                    a == b * q + a % b,
                    b == kb * d,
                    a == ka * d,
                    d > 0,
                    a % b >= 0,
            ;
            assert(a % b == ((ka - q * kb) as nat) * d);
        }
    }
}

/// The result of Euclid's algorithm divides both operands.
pub proof fn lemma_gcd_divides_both(a: nat, b: nat)
    ensures
        divides(gcd(a, b), a),
        divides(gcd(a, b), b),
    decreases b,
{
    if b == 0 {
        assert(a == 1 * a);
        assert(b == 0 * a);
    } else {
        lemma_gcd_divides_both(b, a % b);
        lemma_divides_remainder(gcd(a, b), a, b);
    }
}

/// Every common divisor of the operands divides the result of Euclid's
/// algorithm, which is therefore the greatest of them.
pub proof fn lemma_gcd_is_greatest(a: nat, b: nat, d: nat)
    requires
        divides(d, a),
        divides(d, b),
    ensures
        divides(d, gcd(a, b)),
    decreases b,
{
    if b != 0 {
        lemma_divides_remainder(d, a, b);
        lemma_gcd_is_greatest(b, a % b, d);
    }
}

/// Euclid's algorithm by repeated remainders.
pub fn euclid(a: u64, b: u64) -> (g: u64)
    ensures
        g == gcd(a as nat, b as nat),
{
    let mut x: u64 = a;
    let mut y: u64 = b;
    while y != 0
        invariant
            gcd(x as nat, y as nat) == gcd(a as nat, b as nat),
        decreases y,
    {
        let t: u64 = x % y;
        x = y;
        y = t;
    }
    x
}

/// Folds the greatest common divisors for the indices `1..=n` into a checksum.
pub fn run_gcd_fold(n: usize) -> (result: u64)
    ensures
        result == gcd_fold(n as nat),
{
    let mut checksum: u64 = 0;
    let mut i: u64 = 0;
    while i < n as u64
        invariant
            i <= n,
            checksum == low64(weighted_gcd_sum(i as nat)),
        decreases n - i,
    {
        i += 1;
        let a: u64 = i.wrapping_mul(37).wrapping_add(17);
        let b: u64 = i.wrapping_mul(53).wrapping_add(19);
        let g: u64 = euclid(a, b);
        let weight: u64 = i % 16 + 1;
        proof {
            lemma_low64_of_word(i);
            lemma_low64_of_word(37);
            lemma_low64_of_word(53);
            lemma_low64_of_word(17);
            lemma_low64_of_word(19);
            lemma_low64_mul(i as nat, 37);
            lemma_low64_mul(i as nat, 53);
            lemma_low64_add(i as nat * 37, 17);
            lemma_low64_add(i as nat * 53, 19);
            lemma_low64_of_word(g);
            lemma_low64_of_word(weight);
            lemma_low64_mul(g as nat, weight as nat);
            lemma_low64_add(weighted_gcd_sum((i - 1) as nat), g as nat * weight as nat);
        }
        checksum = checksum.wrapping_add(g.wrapping_mul(weight));
    }
    checksum
}

} // verus!
