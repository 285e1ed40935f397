//! What a failing test leaves behind, and how faults are to be handled while
//! a test runs.

use crate::options::Options;
use vstd::prelude::*;

verus! {

/// The fault captured from a failing test.
#[derive(Clone, Debug)]
pub struct PanicError {
    /// What the test said when it failed.
    pub message: String,
    /// The call stack at the fault, where it was asked for.
    pub backtrace: Option<String>,
}

impl PanicError {
    /// A fault with `message` and no backtrace.
    pub fn new(message: String) -> (e: PanicError)
        ensures
            e.message == message,
            e.backtrace is None,
    {
        PanicError { message, backtrace: None }
    }
}

/// How a test execution treats a fault. The value is handed to each
/// execution, so nothing has to be restored once the execution returns.
#[derive(Clone, Copy, Debug, PartialEq, Eq, Structural)]
pub struct Faults {
    /// Let the fault pass on to the surrounding process.
    pub forward_panic: bool,
    /// Record the call stack with the fault.
    pub capture_backtrace: bool,
}

/// Faults are kept to the execution and recorded without a backtrace.
pub open spec fn spec_quiet() -> Faults {
    Faults { forward_panic: false, capture_backtrace: false }
}

/// How faults are treated when a test is run for a report: they are kept
/// to the execution, and a backtrace is recorded where `options` asks for
/// one.
pub open spec fn spec_report_faults(options: Options) -> Faults {
    Faults { forward_panic: false, capture_backtrace: options.capture_backtrace }
}

/// How faults are treated when a test is run for a report.
pub fn report_faults(options: &Options) -> (faults: Faults)
    ensures
        faults == spec_report_faults(*options),
{
    Faults { forward_panic: false, capture_backtrace: options.capture_backtrace }
}

impl Faults {
    /// Faults are kept to the execution and recorded without a backtrace.
    pub fn quiet() -> (faults: Faults)
        ensures
            faults == spec_quiet(),
    {
        Faults { forward_panic: false, capture_backtrace: false }
    }
}

} // verus!
