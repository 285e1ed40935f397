//! The arguments that a libFuzzer target is started with.

use vstd::prelude::*;
use vstd::string::StringExecFns;

verus! {

/// What the compiler is told when it builds a libFuzzer target.
pub const FLAGS: [&'static str; 4] = [
    "--cfg fuzzing_libfuzzer",
    "-Cllvm-args=-sanitizer-coverage-trace-compares",
    "-Cllvm-args=-sanitizer-coverage-trace-divs",
    "-Cllvm-args=-sanitizer-coverage-trace-geps",
];

/// The limits of a fuzzing session, each of which may be left open.
#[derive(Clone, Copy, Debug, Default, PartialEq, Eq)]
pub struct FuzzArgs {
    /// The seed of the session's random source.
    pub seed: Option<u64>,
    /// The number of runs after which the session ends.
    pub runs: Option<u64>,
    /// The seconds after which the session ends.
    pub time: Option<u64>,
    /// The length of the longest input.
    pub max_input_length: Option<u64>,
    /// The number of sessions to run side by side.
    pub jobs: Option<u64>,
}

/// The character of the digit `digit`.
pub open spec fn spec_digit(digit: nat) -> char {
    if digit == 0 {
        '0'
    } else if digit == 1 {
        '1'
    } else if digit == 2 {
        '2'
    } else if digit == 3 {
        '3'
    } else if digit == 4 {
        '4'
    } else if digit == 5 {
        '5'
    } else if digit == 6 {
        '6'
    } else if digit == 7 {
        '7'
    } else if digit == 8 {
        '8'
    } else {
        '9'
    }
}

/// `value` in decimal digits, without leading zeros.
pub open spec fn spec_decimal(value: nat) -> Seq<char>
    decreases value,
{
    if value < 10 {
        seq![spec_digit(value)]
    } else {
        spec_decimal(value / 10).push(spec_digit(value % 10))
    }
}

/// The digit `digit` as text.
fn digit_text(digit: u64) -> (text: &'static str)
    requires
        digit < 10,
    ensures
        text@ == seq![spec_digit(digit as nat)],
{
    proof {
        reveal_strlit("0");
        reveal_strlit("1");
        reveal_strlit("2");
        reveal_strlit("3");
        reveal_strlit("4");
        reveal_strlit("5");
        reveal_strlit("6");
        reveal_strlit("7");
        reveal_strlit("8");
        reveal_strlit("9");
    }
    let text = if digit == 0 {
        "0"
    } else if digit == 1 {
        "1"
    } else if digit == 2 {
        "2"
    } else if digit == 3 {
        "3"
    } else if digit == 4 {
        "4"
    } else if digit == 5 {
        "5"
    } else if digit == 6 {
        "6"
    } else if digit == 7 {
        "7"
    } else if digit == 8 {
        "8"
    } else {
        "9"
    };
    assert(text@ =~= seq![spec_digit(digit as nat)]);
    text
}

/// `value` in decimal digits, without leading zeros.
pub fn decimal(value: u64) -> (text: String)
    ensures
        text@ == spec_decimal(value as nat),
    decreases value,
{
    if value < 10 {
        String::from_str(digit_text(value))
    } else {
        let mut text = decimal(value / 10);
        text.append(digit_text(value % 10));
        text
    }
}

/// The flag `name` with `value`: the name and the value in decimal.
pub open spec fn spec_flag(name: Seq<char>, value: nat) -> Seq<char> {
    name + spec_decimal(value)
}

/// The flags of a session with the limits `args` that keeps what makes the
/// target fail under `crashes_dir`: where to keep it, then one flag for
/// each limit that is set, in the order seed, runs, time, length, jobs.
pub open spec fn spec_fuzz_flags(crashes_dir: Seq<char>, args: FuzzArgs) -> Seq<Seq<char>> {
    seq!["-artifact_prefix="@ + crashes_dir + "/"@] + spec_optional("-seed="@, args.seed)
        + spec_optional("-runs="@, args.runs) + spec_optional("-max_total_time="@, args.time)
        + spec_optional("-max_len="@, args.max_input_length) + spec_optional(
        "-jobs="@,
        args.jobs,
    )
}

/// The flag `name` with `value`, where there is a value.
pub open spec fn spec_optional(name: Seq<char>, value: Option<u64>) -> Seq<Seq<char>> {
    match value {
        Some(value) => seq![spec_flag(name, value as nat)],
        None => Seq::empty(),
    }
}

/// The views of `flags`, in their order.
pub open spec fn texts(flags: Seq<String>) -> Seq<Seq<char>> {
    Seq::new(flags.len(), |i: int| flags[i]@)
}

/// Adds the flag `name` with `value` to `flags`, where there is a value.
fn push_optional(flags: &mut Vec<String>, name: &str, value: Option<u64>)
    ensures
        texts(final(flags)@) == texts(old(flags)@) + spec_optional(name@, value),
{
    match value {
        Some(value) => {
            let mut flag = String::from_str(name);
            let digits = decimal(value);
            flag.append(digits.as_str());
            flags.push(flag);
            assert(texts(flags@) =~= texts(old(flags)@) + spec_optional(name@, Some(value)));
        },
        None => {
            assert(texts(flags@) =~= texts(old(flags)@) + spec_optional(name@, None));
        },
    }
}

/// The flags of a session with the limits `args` that keeps what makes the
/// target fail under `crashes_dir`.
pub fn fuzz_flags(crashes_dir: &str, args: &FuzzArgs) -> (flags: Vec<String>)
    ensures
        texts(flags@) == spec_fuzz_flags(crashes_dir@, *args),
{
    let mut prefix = String::from_str("-artifact_prefix=");
    prefix.append(crashes_dir);
    prefix.append("/");
    let mut flags: Vec<String> = Vec::new();
    flags.push(prefix);
    assert(texts(flags@) =~= seq!["-artifact_prefix="@ + crashes_dir@ + "/"@]);
    push_optional(&mut flags, "-seed=", args.seed);
    push_optional(&mut flags, "-runs=", args.runs);
    push_optional(&mut flags, "-max_total_time=", args.time);
    push_optional(&mut flags, "-max_len=", args.max_input_length);
    push_optional(&mut flags, "-jobs=", args.jobs);
    flags
}

/// The flags of a session that reduces a corpus.
pub fn shrink_flags() -> (flags: Vec<String>)
    ensures
        texts(flags@) == seq!["-shrink=1"@, "-merge=1"@, "-reduce_inputs=1"@],
{
    let mut flags: Vec<String> = Vec::new();
    flags.push(String::from_str("-shrink=1"));
    flags.push(String::from_str("-merge=1"));
    flags.push(String::from_str("-reduce_inputs=1"));
    assert(texts(flags@) =~= seq!["-shrink=1"@, "-merge=1"@, "-reduce_inputs=1"@]);
    flags
}

} // verus!
