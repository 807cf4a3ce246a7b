use bench_kernels::gcd_fold::euclid;
use bench_kernels::prime_trial::is_prime_by_trial_division;
use bench_kernels::{
    run_affine_grid, run_branch_mix, run_gcd_fold, run_lcg_stream, run_prime_trial, run_sum_xor,
};

fn slow_gcd(a: u64, b: u64) -> u64 {
    let mut d = if a < b { a } else { b };
    while d > 1 {
        if a % d == 0 && b % d == 0 {
            return d;
        }
        d -= 1;
    }
    if d == 0 {
        if a > b {
            a
        } else {
            b
        }
    } else {
        1
    }
}

#[test]
fn sum_xor_small_sizes() {
    assert_eq!(run_sum_xor(0), 0);
    assert_eq!(run_sum_xor(1), 2);
    assert_eq!(run_sum_xor(2), 6);
    assert_eq!(run_sum_xor(10), 87);
    assert_eq!(run_sum_xor(1000), 506413);
}

#[test]
fn sum_xor_default_size() {
    assert_eq!(run_sum_xor(5_000_000), 12629254913000);
}

#[test]
fn sum_xor_term_by_hand() {
    // i = 9: 9 ^ (9 >> 3) = 9 ^ 1 = 8, plus 9 % 8 = 1.
    assert_eq!(run_sum_xor(9) - run_sum_xor(8), 9);
}

#[test]
fn prime_trial_below_two_is_zero() {
    assert_eq!(run_prime_trial(0), 0);
    assert_eq!(run_prime_trial(1), 0);
}

#[test]
fn prime_trial_ten_counts_four_primes() {
    // Primes 2, 3, 5, 7 with weights 2, 3, 4, 5: 4 + 9 + 20 + 35 = 68.
    let result = run_prime_trial(10);
    assert_eq!(result >> 32, 4);
    assert_eq!(result & 0xffff_ffff, 68);
    assert_eq!(result, (4u64 << 32) ^ 68);
    assert_eq!(result, 17179869252);
}

#[test]
fn prime_trial_other_sizes() {
    assert_eq!(run_prime_trial(2), 4294967300);
    assert_eq!(run_prime_trial(3), 8589934605);
    assert_eq!(run_prime_trial(100), 107374190708);
    assert_eq!(run_prime_trial(100) >> 32, 25);
    assert_eq!(run_prime_trial(30_000), 13937557335262);
}

#[test]
fn prime_weight_wraps_after_sixteen() {
    // 53 is the 16th prime, so its weight is 16 % 16 + 1 = 1; 59 is the
    // 17th and has weight 2.
    let low = 0xffff_ffffu64;
    assert_eq!((run_prime_trial(53) & low) - (run_prime_trial(52) & low), 53);
    assert_eq!((run_prime_trial(59) & low) - (run_prime_trial(58) & low), 118);
}

#[test]
fn trial_division_classifies_small_numbers() {
    let primes = [2usize, 3, 5, 7, 11, 13, 17, 19, 23, 29, 31, 37, 41, 43, 47];
    for candidate in 0usize..50 {
        assert_eq!(
            is_prime_by_trial_division(candidate),
            primes.contains(&candidate),
            "candidate {}",
            candidate
        );
    }
}

#[test]
fn trial_division_squares_and_large_values() {
    assert!(!is_prime_by_trial_division(4));
    assert!(!is_prime_by_trial_division(9));
    assert!(!is_prime_by_trial_division(25));
    assert!(!is_prime_by_trial_division(49));
    assert!(!is_prime_by_trial_division(65_521 * 65_521));
    assert!(is_prime_by_trial_division(65_521));
    assert!(is_prime_by_trial_division(4_294_967_291));
    assert!(!is_prime_by_trial_division(usize::MAX));
}

#[test]
fn affine_grid_empty_is_zero() {
    assert_eq!(run_affine_grid(0), 0);
}

#[test]
fn affine_grid_single_cell() {
    // a = 13, b = 53, position 0: 13 * 53 = 689.
    assert_eq!(run_affine_grid(1), 689);
}

#[test]
fn affine_grid_other_sizes() {
    assert_eq!(run_affine_grid(2), 2030013434);
    assert_eq!(run_affine_grid(3), 8594452853);
    assert_eq!(run_affine_grid(48), 5003429787904);
}

#[test]
fn branch_mix_small_sizes() {
    assert_eq!(run_branch_mix(0), 0);
    // i = 1: 0 ^ 3 = 3, then 3 ^ 1 = 2.
    assert_eq!(run_branch_mix(1), 2);
    // i = 2: 2 + 4 = 6, then 6 ^ 2 = 4.
    assert_eq!(run_branch_mix(2), 4);
    assert_eq!(run_branch_mix(10), 108);
    assert_eq!(run_branch_mix(97), 4438);
    assert_eq!(run_branch_mix(1000), 570576);
}

#[test]
fn branch_mix_default_size() {
    assert_eq!(run_branch_mix(5_000_000), 13836124007121);
}

#[test]
fn gcd_fold_small_sizes() {
    assert_eq!(run_gcd_fold(0), 0);
    // i = 1: gcd(54, 72) = 18, weight 2.
    assert_eq!(run_gcd_fold(1), 36);
    // i = 2: gcd(91, 125) = 1, weight 3.
    assert_eq!(run_gcd_fold(2), 39);
    assert_eq!(run_gcd_fold(10), 407);
    assert_eq!(run_gcd_fold(1000), 57694);
    assert_eq!(run_gcd_fold(30_000), 1738242);
}

#[test]
fn gcd_fold_matches_reference_divisors() {
    let mut expected = 0u64;
    for i in 1u64..=300 {
        let a = i * 37 + 17;
        let b = i * 53 + 19;
        let g = slow_gcd(a, b);
        assert_eq!(euclid(a, b), g, "index {}", i);
        expected = expected.wrapping_add(g.wrapping_mul(i % 16 + 1));
        assert_eq!(run_gcd_fold(i as usize), expected, "size {}", i);
    }
}

#[test]
fn euclid_edge_cases() {
    assert_eq!(euclid(0, 0), 0);
    assert_eq!(euclid(0, 9), 9);
    assert_eq!(euclid(9, 0), 9);
    assert_eq!(euclid(1, u64::MAX), 1);
    assert_eq!(euclid(u64::MAX, u64::MAX), u64::MAX);
    assert_eq!(euclid(54, 72), 18);
    assert_eq!(euclid(72, 54), 18);
    assert_eq!(euclid(1 << 63, 1 << 40), 1 << 40);
}

#[test]
fn lcg_stream_no_steps_is_the_seed() {
    assert_eq!(run_lcg_stream(0), 123_456_789);
}

#[test]
fn lcg_stream_one_step_cancels() {
    // The first state is odd, so it is XORed in and then XORed out again.
    assert_eq!(run_lcg_stream(1), 0);
}

#[test]
fn lcg_stream_other_sizes() {
    assert_eq!(run_lcg_stream(2), 921646898);
    assert_eq!(run_lcg_stream(10), 6447537196);
    assert_eq!(run_lcg_stream(1000), 544414163915);
}

#[test]
fn lcg_stream_default_size() {
    assert_eq!(run_lcg_stream(5_000_000), 2683908034036653);
}

#[test]
fn kernels_are_deterministic() {
    for n in [0u64, 1, 7, 64, 500] {
        assert_eq!(run_sum_xor(n), run_sum_xor(n));
        assert_eq!(run_branch_mix(n), run_branch_mix(n));
        assert_eq!(run_lcg_stream(n), run_lcg_stream(n));
        assert_eq!(run_prime_trial(n as usize), run_prime_trial(n as usize));
        assert_eq!(run_gcd_fold(n as usize), run_gcd_fold(n as usize));
    }
    for n in [0usize, 1, 2, 5, 12] {
        assert_eq!(run_affine_grid(n), run_affine_grid(n));
    }
}
