//! Configuration shared by every decode and every test execution of a run.

use crate::time::Duration;
use vstd::prelude::*;

verus! {

/// Bytes a driver consumes at most when no cap is configured.
pub const DEFAULT_MAX_LEN: usize = 4096;

/// Nesting depth a driver admits when none is configured.
pub const DEFAULT_MAX_DEPTH: usize = 5;

/// Seconds spent on shrinking when no budget is configured.
pub const DEFAULT_SHRINK_SECS: u64 = 1;

/// Settings of a run. They are fixed once a run starts, so that decoding is
/// a function of the bytes and these settings alone.
#[derive(Clone, Copy, Debug)]
pub struct Options {
    pub max_len: Option<usize>,
    pub max_depth: Option<usize>,
    pub shrink_time: Option<Duration>,
    pub forward_panic: bool,
    pub capture_backtrace: bool,
    /// Whether shrinking leaves the first byte in place when it removes
    /// chunks. Many generators branch on that byte.
    pub keep_first_byte: bool,
}

impl Options {
    /// Settings with nothing configured.
    pub fn new() -> (o: Options)
        ensures
            o.max_len is None,
            o.max_depth is None,
            o.shrink_time is None,
            o.forward_panic,
            !o.capture_backtrace,
            o.keep_first_byte,
    {
        Options {
            max_len: None,
            max_depth: None,
            shrink_time: None,
            forward_panic: true,
            capture_backtrace: false,
            keep_first_byte: true,
        }
    }

    /// These settings with the byte cap set to `max_len`.
    pub fn with_max_len(self, max_len: usize) -> (o: Options)
        ensures
            o == (Options { max_len: Some(max_len), ..self }),
    {
        Options { max_len: Some(max_len), ..self }
    }

    /// These settings with the nesting limit set to `max_depth`.
    pub fn with_max_depth(self, max_depth: usize) -> (o: Options)
        ensures
            o == (Options { max_depth: Some(max_depth), ..self }),
    {
        Options { max_depth: Some(max_depth), ..self }
    }

    /// These settings with the shrinking budget set to `shrink_time`.
    pub fn with_shrink_time(self, shrink_time: Duration) -> (o: Options)
        ensures
            o == (Options { shrink_time: Some(shrink_time), ..self }),
    {
        Options { shrink_time: Some(shrink_time), ..self }
    }

    /// These settings with the first byte kept in place, or not, when
    /// shrinking removes chunks.
    pub fn with_keep_first_byte(self, keep_first_byte: bool) -> (o: Options)
        ensures
            o == (Options { keep_first_byte, ..self }),
    {
        Options { keep_first_byte, ..self }
    }

    /// The number of leading bytes that shrinking never removes.
    pub open spec fn spec_fixed(&self) -> nat {
        if self.keep_first_byte {
            1
        } else {
            0
        }
    }

    /// The byte cap in force.
    pub open spec fn spec_max_len(&self) -> usize {
        match self.max_len {
            Some(n) => n,
            None => DEFAULT_MAX_LEN,
        }
    }

    /// The nesting limit in force.
    pub open spec fn spec_max_depth(&self) -> usize {
        match self.max_depth {
            Some(n) => n,
            None => DEFAULT_MAX_DEPTH,
        }
    }

    /// The shrinking budget in force, in nanoseconds.
    pub open spec fn spec_shrink_nanos(&self) -> nat {
        match self.shrink_time {
            Some(d) => d@,
            None => (DEFAULT_SHRINK_SECS as nat) * (crate::time::NANOS_PER_SEC as nat),
        }
    }

    /// The byte cap in force.
    pub fn max_len_or_default(&self) -> (n: usize)
        ensures
            n == self.spec_max_len(),
    {
        match self.max_len {
            Some(n) => n,
            None => DEFAULT_MAX_LEN,
        }
    }

    /// The nesting limit in force.
    pub fn max_depth_or_default(&self) -> (n: usize)
        ensures
            n == self.spec_max_depth(),
    {
        match self.max_depth {
            Some(n) => n,
            None => DEFAULT_MAX_DEPTH,
        }
    }

    /// The shrinking budget in force.
    pub fn shrink_time_or_default(&self) -> (d: Duration)
        ensures
            d@ == self.spec_shrink_nanos(),
    {
        match self.shrink_time {
            Some(d) => d,
            None => Duration::from_secs(DEFAULT_SHRINK_SECS),
        }
    }
}

} // verus!
