//! The benchmark's configuration and the command-line arguments that set it.

use vstd::prelude::*;
use crate::decimal::{decimal_value, parse_decimal};
use crate::text::same_text;

verus! {

/// How often each workload runs, and how large each one is.
#[derive(Clone, Copy, Debug, PartialEq, Eq, Structural)]
pub struct BenchmarkOptions {
    /// Runs per workload; positive in every configuration the parser accepts.
    pub iterations: usize,
    /// Size of the sum, branch and generator workloads.
    pub sum_n: u64,
    /// Size of the prime and divisor workloads.
    pub prime_n: usize,
    /// Side of the grid workload.
    pub matrix_n: usize,
}

/// The settings an argument can name.
#[derive(Clone, Copy, Debug, PartialEq, Eq, Structural)]
pub enum OptionFlag {
    Iterations,
    SumN,
    PrimeN,
    MatrixN,
}

/// Why a list of arguments was rejected.
#[derive(Clone, Debug, PartialEq, Eq)]
pub enum OptionsError {
    /// The flag was the last argument.
    MissingValue(OptionFlag),
    /// The argument after the flag is not a numeral that fits the setting.
    InvalidValue(OptionFlag),
    /// The argument, where a flag was expected, is none of the known flags.
    UnknownOption(String),
    /// The arguments were well formed but set the run count to zero.
    ZeroIterations,
}

/// The mathematical content of an [`OptionsError`].
pub enum Rejection {
    MissingValue(OptionFlag),
    InvalidValue(OptionFlag),
    UnknownOption(Seq<char>),
    ZeroIterations,
}

impl View for OptionsError {
    type V = Rejection;

    open spec fn view(&self) -> Rejection {
        match self {
            OptionsError::MissingValue(flag) => Rejection::MissingValue(*flag),
            OptionsError::InvalidValue(flag) => Rejection::InvalidValue(*flag),
            OptionsError::UnknownOption(arg) => Rejection::UnknownOption(arg@),
            OptionsError::ZeroIterations => Rejection::ZeroIterations,
        }
    }
}

/// The configuration used where no argument says otherwise.
pub open spec fn default_options() -> BenchmarkOptions {
    BenchmarkOptions { iterations: 5, sum_n: 5_000_000, prime_n: 30_000, matrix_n: 48 }
}

/// The setting that the argument `arg` names, if it is a flag.
pub open spec fn flag_of(arg: Seq<char>) -> Option<OptionFlag> {
    if arg == "--iterations"@ {
        Some(OptionFlag::Iterations)
    } else if arg == "--sum-n"@ {
        Some(OptionFlag::SumN)
    } else if arg == "--prime-n"@ || arg == "--sieve-n"@ {
        Some(OptionFlag::PrimeN)
    } else if arg == "--matrix-n"@ {
        Some(OptionFlag::MatrixN)
    } else {
        None
    }
}

/// The largest value the setting `flag` can hold.
pub open spec fn flag_limit(flag: OptionFlag) -> nat {
    match flag {
        OptionFlag::SumN => u64::MAX as nat,
        _ => usize::MAX as nat,
    }
}

/// `options` with the setting `flag` replaced by `value`.
pub open spec fn with_setting(options: BenchmarkOptions, flag: OptionFlag, value: nat)
    -> BenchmarkOptions {
    match flag {
        OptionFlag::Iterations => BenchmarkOptions { iterations: value as usize, ..options },
        OptionFlag::SumN => BenchmarkOptions { sum_n: value as u64, ..options },
        OptionFlag::PrimeN => BenchmarkOptions { prime_n: value as usize, ..options },
        OptionFlag::MatrixN => BenchmarkOptions { matrix_n: value as usize, ..options },
    }
}

/// The outcome of reading `args` from position `pos` on, `options` being the
/// configuration that the arguments before `pos` have produced. Arguments
/// come in pairs of a flag and its value; the first fault ends the reading.
pub open spec fn parse_from(args: Seq<Seq<char>>, pos: int, options: BenchmarkOptions) -> Result<
    BenchmarkOptions,
    Rejection,
>
    decreases args.len() - pos,
{
    if pos < 0 || pos >= args.len() {
        if options.iterations == 0 {
            Err(Rejection::ZeroIterations)
        } else {
            Ok(options)
        }
    } else {
        match flag_of(args[pos]) {
            None => Err(Rejection::UnknownOption(args[pos])),
            Some(flag) => if pos + 1 >= args.len() {
                Err(Rejection::MissingValue(flag))
            } else {
                match decimal_value(args[pos + 1], flag_limit(flag)) {
                    None => Err(Rejection::InvalidValue(flag)),
                    Some(value) => parse_from(args, pos + 2, with_setting(options, flag, value)),
                }
            },
        }
    }
}

/// The outcome of reading the whole argument list `args`.
pub open spec fn parse_arguments(args: Seq<Seq<char>>) -> Result<BenchmarkOptions, Rejection> {
    parse_from(args, 0, default_options())
}

/// The mathematical content of what the parser returns.
pub open spec fn outcome(result: Result<BenchmarkOptions, OptionsError>) -> Result<
    BenchmarkOptions,
    Rejection,
> {
    match result {
        Ok(options) => Ok(options),
        Err(error) => Err(error@),
    }
}

/// A configuration that the reading accepts runs every workload at least
/// once, wherever the reading starts and whatever it starts from.
pub proof fn lemma_accepted_from_runs(args: Seq<Seq<char>>, pos: int, options: BenchmarkOptions)
    ensures
        parse_from(args, pos, options) matches Ok(accepted) ==> accepted.iterations > 0,
    decreases args.len() - pos,
{
    if 0 <= pos < args.len() {
        if let Some(flag) = flag_of(args[pos]) {
            if pos + 1 < args.len() {
                if let Some(value) = decimal_value(args[pos + 1], flag_limit(flag)) {
                    lemma_accepted_from_runs(args, pos + 2, with_setting(options, flag, value));
                }
            }
        }
    }
}

/// No argument list is accepted with a run count of zero.
pub proof fn lemma_accepted_options_run(args: Seq<Seq<char>>)
    ensures
        parse_arguments(args) matches Ok(accepted) ==> accepted.iterations > 0,
{
    lemma_accepted_from_runs(args, 0, default_options());
}

/// Without arguments the configuration is the default one.
pub proof fn lemma_no_arguments_give_defaults()
    ensures
        parse_arguments(Seq::empty()) == Ok::<BenchmarkOptions, Rejection>(default_options()),
{
}

/// An argument list that starts with anything but a flag is rejected for
/// that argument, whatever follows it.
pub proof fn lemma_unknown_first_argument(args: Seq<Seq<char>>)
    requires
        args.len() > 0,
        flag_of(args[0]) is None,
    ensures
        parse_arguments(args) == Err::<BenchmarkOptions, Rejection>(
            Rejection::UnknownOption(args[0]),
        ),
{
}

/// A run count of zero, given as the only setting, is rejected.
pub proof fn lemma_zero_iterations_rejected(flag: Seq<char>, numeral: Seq<char>)
    requires
        flag_of(flag) == Some(OptionFlag::Iterations),
        decimal_value(numeral, usize::MAX as nat) == Some(0nat),
    ensures
        parse_arguments(seq![flag, numeral]) == Err::<BenchmarkOptions, Rejection>(
            Rejection::ZeroIterations,
        ),
{
    let args = seq![flag, numeral];
    let zeroed = with_setting(default_options(), OptionFlag::Iterations, 0);
    assert(parse_from(args, 2, zeroed) == Err::<BenchmarkOptions, Rejection>(
        Rejection::ZeroIterations,
    ));
}

impl Default for BenchmarkOptions {
    fn default() -> (options: BenchmarkOptions)
        ensures
            options == default_options(),
    {
        BenchmarkOptions { iterations: 5, sum_n: 5_000_000, prime_n: 30_000, matrix_n: 48 }
    }
}

impl OptionFlag {
    /// The spelling of the flag in messages.
    pub open spec fn spec_name(self) -> Seq<char> {
        match self {
            OptionFlag::Iterations => "--iterations"@,
            OptionFlag::SumN => "--sum-n"@,
            OptionFlag::PrimeN => "--prime-n"@,
            OptionFlag::MatrixN => "--matrix-n"@,
        }
    }

    /// The spelling of the flag in messages.
    pub fn name(self) -> (name: &'static str)
        ensures
            name@ == self.spec_name(),
    {
        match self {
            OptionFlag::Iterations => "--iterations",
            OptionFlag::SumN => "--sum-n",
            OptionFlag::PrimeN => "--prime-n",
            OptionFlag::MatrixN => "--matrix-n",
        }
    }

    /// Recognizes a flag, `--sieve-n` being another spelling of `--prime-n`.
    pub fn recognize(arg: &str) -> (flag: Option<OptionFlag>)
        ensures
            flag == flag_of(arg@),
    {
        if same_text(arg, "--iterations") {
            Some(OptionFlag::Iterations)
        } else if same_text(arg, "--sum-n") {
            Some(OptionFlag::SumN)
        } else if same_text(arg, "--prime-n") || same_text(arg, "--sieve-n") {
            Some(OptionFlag::PrimeN)
        } else if same_text(arg, "--matrix-n") {
            Some(OptionFlag::MatrixN)
        } else {
            None
        }
    }

    /// The largest value the setting can hold.
    pub fn limit(self) -> (limit: u64)
        ensures
            limit == flag_limit(self),
    {
        match self {
            OptionFlag::SumN => u64::MAX,
            _ => usize::MAX as u64,
        }
    }
}

impl BenchmarkOptions {
    /// Replaces the setting `flag` by `value`.
    pub fn with(self, flag: OptionFlag, value: u64) -> (options: BenchmarkOptions)
        requires
            value <= flag_limit(flag),
        ensures
            options == with_setting(self, flag, value as nat),
    {
        match flag {
            OptionFlag::Iterations => BenchmarkOptions { iterations: value as usize, ..self },
            OptionFlag::SumN => BenchmarkOptions { sum_n: value, ..self },
            OptionFlag::PrimeN => BenchmarkOptions { prime_n: value as usize, ..self },
            OptionFlag::MatrixN => BenchmarkOptions { matrix_n: value as usize, ..self },
        }
    }
}

impl Rejection {
    /// The message that describes the rejection.
    pub open spec fn message(self) -> Seq<char> {
        match self {
            Rejection::MissingValue(flag) => "Missing value for "@ + flag.spec_name() + "."@,
            Rejection::InvalidValue(flag) => "Invalid value for "@ + flag.spec_name() + "."@,
            Rejection::UnknownOption(arg) => "Unknown option '"@ + arg + "'."@,
            Rejection::ZeroIterations => "--iterations must be greater than zero."@,
        }
    }
}

impl OptionsError {
    /// The message that describes the error.
    pub fn message(&self) -> (text: String)
        ensures
            text@ == self@.message(),
    {
        match self {
            OptionsError::MissingValue(flag) => String::from_str("Missing value for ").concat(
                flag.name(),
            ).concat("."),
            OptionsError::InvalidValue(flag) => String::from_str("Invalid value for ").concat(
                flag.name(),
            ).concat("."),
            OptionsError::UnknownOption(arg) => String::from_str("Unknown option '").concat(
                arg.as_str(),
            ).concat("'."),
            OptionsError::ZeroIterations => String::from_str(
                "--iterations must be greater than zero.",
            ),
        }
    }
}

/// Reads the arguments that follow the program's name.
pub fn parse_options(args: &Vec<String>) -> (result: Result<BenchmarkOptions, OptionsError>)
    ensures
        outcome(result) == parse_arguments(args.deep_view()),
        result matches Ok(accepted) ==> accepted.iterations > 0,
{
    let ghost texts = args.deep_view();
    let mut options = BenchmarkOptions::default();
    let mut i: usize = 0;
    while i < args.len()
        invariant
            i <= args.len(),
            texts == args.deep_view(),
            parse_from(texts, i as int, options) == parse_arguments(texts),
        decreases args.len() - i,
    {
        let flag = match OptionFlag::recognize(args[i].as_str()) {
            Some(flag) => flag,
            None => {
                return Err(OptionsError::UnknownOption(args[i].clone()));
            },
        };
        if i + 1 >= args.len() {
            return Err(OptionsError::MissingValue(flag));
        }
        let value = match parse_decimal(args[i + 1].as_str(), flag.limit()) {
            Some(value) => value,
            None => {
                return Err(OptionsError::InvalidValue(flag));
            },
        };
        options = options.with(flag, value);
        i += 2;
    }
    if options.iterations == 0 {
        Err(OptionsError::ZeroIterations)
    } else {
        Ok(options)
    }
}

} // verus!
