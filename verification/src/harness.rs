//! The workloads in the order they are reported, and the checksum that the
//! repeated runs of one workload produce.

use vstd::prelude::*;
use crate::affine_grid::{affine_grid, run_affine_grid};
use crate::branch_mix::{branch_mix, run_branch_mix};
use crate::gcd_fold::{gcd_fold, run_gcd_fold};
use crate::lcg_stream::{lcg_stream, run_lcg_stream};
use crate::mixer::{mix, mix_checksum};
use crate::options::BenchmarkOptions;
use crate::prime_trial::{prime_trial, run_prime_trial};
use crate::sum_xor::{run_sum_xor, sum_xor};

verus! {

/// One of the six kernels.
#[derive(Clone, Copy, Debug, PartialEq, Eq, Structural)]
pub enum Workload {
    SumXor,
    PrimeTrial,
    AffineGrid,
    BranchMix,
    GcdFold,
    LcgStream,
}

/// The workloads in reporting order.
pub open spec fn reporting_order() -> Seq<Workload> {
    seq![
        Workload::SumXor,
        Workload::PrimeTrial,
        Workload::AffineGrid,
        Workload::BranchMix,
        Workload::GcdFold,
        Workload::LcgStream,
    ]
}

/// The checksum after `runs` runs that each produced `value`: starting from
/// 0, run number `i` (counted from 0) is mixed in with index `i`.
pub open spec fn mixed_runs(value: u64, runs: nat) -> u64
    decreases runs,
{
    if runs == 0 {
        0
    } else {
        mix(mixed_runs(value, (runs - 1) as nat), value, (runs - 1) as u64)
    }
}

impl Workload {
    /// The name under which the workload is reported.
    pub open spec fn spec_name(self) -> Seq<char> {
        match self {
            Workload::SumXor => "sum_xor"@,
            Workload::PrimeTrial => "prime_trial"@,
            Workload::AffineGrid => "affine_grid"@,
            Workload::BranchMix => "branch_mix"@,
            Workload::GcdFold => "gcd_fold"@,
            Workload::LcgStream => "lcg_stream"@,
        }
    }

    /// The result of one run of the workload under `options`.
    pub open spec fn value(self, options: BenchmarkOptions) -> u64 {
        match self {
            Workload::SumXor => sum_xor(options.sum_n as nat),
            Workload::PrimeTrial => prime_trial(options.prime_n as nat),
            Workload::AffineGrid => affine_grid(options.matrix_n as nat),
            Workload::BranchMix => branch_mix(options.sum_n as nat),
            Workload::GcdFold => gcd_fold(options.prime_n as nat),
            Workload::LcgStream => lcg_stream(options.sum_n as nat),
        }
    }

    /// The checksum reported for the workload under `options`.
    pub open spec fn checksum(self, options: BenchmarkOptions) -> u64 {
        mixed_runs(self.value(options), options.iterations as nat)
    }

    /// The workloads in reporting order.
    pub fn all() -> (order: Vec<Workload>)
        ensures
            order@ == reporting_order(),
    {
        let mut order: Vec<Workload> = Vec::new();
        order.push(Workload::SumXor);
        order.push(Workload::PrimeTrial);
        order.push(Workload::AffineGrid);
        order.push(Workload::BranchMix);
        order.push(Workload::GcdFold);
        order.push(Workload::LcgStream);
        order
    }

    /// The name under which the workload is reported.
    pub fn name(self) -> (name: &'static str)
        ensures
            name@ == self.spec_name(),
    {
        match self {
            Workload::SumXor => "sum_xor",
            Workload::PrimeTrial => "prime_trial",
            Workload::AffineGrid => "affine_grid",
            Workload::BranchMix => "branch_mix",
            Workload::GcdFold => "gcd_fold",
            Workload::LcgStream => "lcg_stream",
        }
    }

    /// Runs the workload once, at the size that `options` gives it.
    pub fn run_once(self, options: &BenchmarkOptions) -> (value: u64)
        ensures
            value == self.value(*options),
    {
        match self {
            Workload::SumXor => run_sum_xor(options.sum_n),
            Workload::PrimeTrial => run_prime_trial(options.prime_n),
            Workload::AffineGrid => run_affine_grid(options.matrix_n),
            Workload::BranchMix => run_branch_mix(options.sum_n),
            Workload::GcdFold => run_gcd_fold(options.prime_n),
            Workload::LcgStream => run_lcg_stream(options.sum_n),
        }
    }

    /// Runs the workload `options.iterations` times and mixes the results
    /// into one checksum.
    pub fn run(self, options: &BenchmarkOptions) -> (checksum: u64)
        ensures
            checksum == self.checksum(*options),
    {
        let mut checksum: u64 = 0;
        let mut i: usize = 0;
        while i < options.iterations
            invariant
                i <= options.iterations,
                checksum == mixed_runs(self.value(*options), i as nat),
            decreases options.iterations - i,
        {
            checksum = mix_checksum(checksum, self.run_once(options), i as u64);
            i += 1;
        }
        checksum
    }
}

} // verus!
