use bench_kernels::{
    mix_checksum, parse_options, run_affine_grid, run_branch_mix, run_gcd_fold, run_lcg_stream,
    run_prime_trial, run_sum_xor, BenchmarkOptions, Workload,
};

fn small() -> BenchmarkOptions {
    BenchmarkOptions { iterations: 1, sum_n: 10, prime_n: 10, matrix_n: 2 }
}

#[test]
fn workloads_come_in_reporting_order() {
    assert_eq!(
        Workload::all(),
        vec![
            Workload::SumXor,
            Workload::PrimeTrial,
            Workload::AffineGrid,
            Workload::BranchMix,
            Workload::GcdFold,
            Workload::LcgStream,
        ]
    );
}

#[test]
fn workload_names() {
    let names: Vec<&str> = Workload::all().into_iter().map(|w| w.name()).collect();
    assert_eq!(
        names,
        vec!["sum_xor", "prime_trial", "affine_grid", "branch_mix", "gcd_fold", "lcg_stream"]
    );
}

#[test]
fn run_once_uses_the_matching_size() {
    let options = BenchmarkOptions { iterations: 3, sum_n: 1000, prime_n: 100, matrix_n: 3 };
    assert_eq!(Workload::SumXor.run_once(&options), run_sum_xor(1000));
    assert_eq!(Workload::PrimeTrial.run_once(&options), run_prime_trial(100));
    assert_eq!(Workload::AffineGrid.run_once(&options), run_affine_grid(3));
    assert_eq!(Workload::BranchMix.run_once(&options), run_branch_mix(1000));
    assert_eq!(Workload::GcdFold.run_once(&options), run_gcd_fold(100));
    assert_eq!(Workload::LcgStream.run_once(&options), run_lcg_stream(1000));
    assert_eq!(Workload::SumXor.run_once(&options), 506413);
    assert_eq!(Workload::PrimeTrial.run_once(&options), 107374190708);
    assert_eq!(Workload::AffineGrid.run_once(&options), 8594452853);
    assert_eq!(Workload::BranchMix.run_once(&options), 570576);
    assert_eq!(Workload::GcdFold.run_once(&options), 5200);
    assert_eq!(Workload::LcgStream.run_once(&options), 544414163915);
}

#[test]
fn end_to_end_single_iteration() {
    let list: Vec<String> =
        ["--iterations", "1", "--sum-n", "10", "--prime-n", "10", "--matrix-n", "2"]
            .iter()
            .map(|s| s.to_string())
            .collect();
    let options = parse_options(&list).unwrap();
    assert_eq!(options, small());
    assert_eq!(options.iterations, 1);
    let checksums: Vec<u64> = Workload::all().into_iter().map(|w| w.run(&options)).collect();
    assert_eq!(
        checksums,
        vec![
            17237298777892426694,
            17237439515380626374,
            17237315407761765318,
            17237298777892598726,
            17237298777895048134,
            17237351596116423622,
        ]
    );
}

#[test]
fn three_iterations_mix_three_times() {
    let options = BenchmarkOptions { iterations: 3, ..small() };
    assert_eq!(Workload::SumXor.run(&options), 12678811992154804895);
    assert_eq!(Workload::PrimeTrial.run(&options), 13831868183916523679);
    assert_eq!(Workload::AffineGrid.run(&options), 3301720062831227612);
    assert_eq!(Workload::BranchMix.run(&options), 12678836732979065503);
    assert_eq!(Workload::GcdFold.run(&options), 12678987901124579999);
    assert_eq!(Workload::LcgStream.run(&options), 14467003867102720863);
}

#[test]
fn run_is_the_fold_of_the_mixer() {
    let options = BenchmarkOptions { iterations: 4, sum_n: 77, prime_n: 50, matrix_n: 5 };
    for workload in Workload::all() {
        let value = workload.run_once(&options);
        let mut expected = 0u64;
        for i in 0..4u64 {
            expected = mix_checksum(expected, value, i);
        }
        assert_eq!(workload.run(&options), expected);
    }
}

#[test]
fn zero_runs_leave_the_checksum_at_zero() {
    let options = BenchmarkOptions { iterations: 0, ..small() };
    for workload in Workload::all() {
        assert_eq!(workload.run(&options), 0);
    }
}

#[test]
fn different_run_counts_give_different_checksums() {
    let one = small();
    let two = BenchmarkOptions { iterations: 2, ..small() };
    for workload in Workload::all() {
        assert_ne!(workload.run(&one), workload.run(&two));
    }
}

#[test]
fn default_configuration_checksums() {
    let options = BenchmarkOptions::default();
    assert_eq!(Workload::PrimeTrial.run(&options), 18246126162622269549);
    assert_eq!(Workload::AffineGrid.run(&options), 16586427286530975758);
    assert_eq!(Workload::GcdFold.run(&options), 11627414824005853408);
}
