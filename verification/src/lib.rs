//! Deterministic integer kernels for a CPU micro-benchmark, the checksum
//! mixer that folds their results across repeated runs, and the parser for
//! the benchmark's command-line options.
//!
//! Every kernel returns a 64-bit checksum that is a mathematical function of
//! its size alone; the contracts name that function.

pub mod affine_grid;
pub mod branch_mix;
pub mod decimal;
pub mod gcd_fold;
pub mod harness;
pub mod lcg_stream;
pub mod mixer;
pub mod options;
pub mod prime_trial;
pub mod sum_xor;
pub mod text;
pub mod word;

pub use affine_grid::run_affine_grid;
pub use branch_mix::run_branch_mix;
pub use gcd_fold::run_gcd_fold;
pub use harness::Workload;
pub use lcg_stream::run_lcg_stream;
pub use mixer::mix_checksum;
pub use options::{parse_options, BenchmarkOptions, OptionFlag, OptionsError};
pub use prime_trial::run_prime_trial;
pub use sum_xor::run_sum_xor;
