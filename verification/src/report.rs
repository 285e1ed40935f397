//! Counts of the runs of a random search, kept per window of time and in
//! total.

use vstd::prelude::*;

verus! {

/// Every this many runs the counts are due for a look at the clock.
pub const RUNS_PER_LOOK: u64 = 1024;

/// The counts of a search. Its view is the four counts.
#[derive(Clone, Copy, Debug, Default, PartialEq, Eq)]
pub struct Stats {
    total_runs: u64,
    window_runs: u64,
    total_valid: u64,
    window_valid: u64,
}

/// The four counts of a search.
pub struct Counts {
    /// Runs in the windows that were closed.
    pub total_runs: nat,
    /// Runs in the open window.
    pub window_runs: nat,
    /// Runs that counted, in the windows that were closed.
    pub total_valid: nat,
    /// Runs that counted, in the open window.
    pub window_valid: nat,
}

/// What is printed when a window is closed.
#[derive(Clone, Copy, Debug, PartialEq, Eq, Structural)]
pub struct Window {
    /// Runs up to the end of the window.
    pub total_runs: u64,
    /// Runs in the window.
    pub window_runs: u64,
    /// Runs that counted, up to the end of the window.
    pub total_valid: u64,
    /// Runs that counted, in the window.
    pub window_valid: u64,
}

/// `count` and `more` together, as far as a `u64` holds them.
pub open spec fn capped_sum(count: nat, more: nat) -> nat {
    if count + more > u64::MAX {
        u64::MAX as nat
    } else {
        count + more
    }
}

impl View for Stats {
    type V = Counts;

    closed spec fn view(&self) -> Counts {
        Counts {
            total_runs: self.total_runs as nat,
            window_runs: self.window_runs as nat,
            total_valid: self.total_valid as nat,
            window_valid: self.window_valid as nat,
        }
    }
}

impl Stats {
    /// Counts that are all zero.
    pub fn new() -> (stats: Stats)
        ensures
            stats@ == (Counts { total_runs: 0, window_runs: 0, total_valid: 0, window_valid: 0 }),
    {
        Stats { total_runs: 0, window_runs: 0, total_valid: 0, window_valid: 0 }
    }

    /// Takes note of one run. A run that counted (`is_valid`) adds one to
    /// the runs and to the valid runs of the window; a rejected input is
    /// no run and leaves every count as it was. Says whether the counts
    /// are due for a look at the clock: after every 1024th run that
    /// counted.
    pub fn on_result(&mut self, is_valid: bool) -> (due: bool)
        ensures
            final(self)@ == counted(old(self)@, is_valid),
            due == (is_valid && final(self)@.window_runs % (RUNS_PER_LOOK as nat) == 0),
    {
        if !is_valid {
            return false;
        }
        self.window_runs = self.window_runs.saturating_add(1);
        self.window_valid = self.window_valid.saturating_add(1);
        self.window_runs % RUNS_PER_LOOK == 0
    }

    /// Closes the window: its counts go into the totals, and a new window
    /// starts at zero. Returns what is to be printed of the window.
    pub fn close_window(&mut self) -> (window: Window)
        ensures
            final(self)@ == (Counts {
                total_runs: capped_sum(old(self)@.total_runs, old(self)@.window_runs),
                total_valid: capped_sum(old(self)@.total_valid, old(self)@.window_valid),
                window_runs: 0,
                window_valid: 0,
            }),
            window.total_runs == final(self)@.total_runs,
            window.total_valid == final(self)@.total_valid,
            window.window_runs == old(self)@.window_runs,
            window.window_valid == old(self)@.window_valid,
    {
        self.total_runs = self.total_runs.saturating_add(self.window_runs);
        self.total_valid = self.total_valid.saturating_add(self.window_valid);
        let window = Window {
            total_runs: self.total_runs,
            window_runs: self.window_runs,
            total_valid: self.total_valid,
            window_valid: self.window_valid,
        };
        self.window_runs = 0;
        self.window_valid = 0;
        window
    }
}

impl Window {
    /// Whether every run up to the end of the window counted.
    pub fn all_valid(&self) -> (all: bool)
        ensures
            all == (self.total_runs == self.total_valid),
    {
        self.total_runs == self.total_valid
    }
}

/// The counts after one more run: a run that counted adds one to the runs
/// and to the valid runs of the window, a rejected input changes nothing.
pub open spec fn counted(before: Counts, is_valid: bool) -> Counts {
    if is_valid {
        Counts {
            window_runs: capped_sum(before.window_runs, 1),
            window_valid: capped_sum(before.window_valid, 1),
            ..before
        }
    } else {
        before
    }
}

/// A rejected input is not counted: neither the runs nor the valid runs,
/// of the window or in total, change with it.
pub proof fn lemma_reject_is_not_counted(before: Counts)
    ensures
        counted(before, false) == before,
{
}

/// Every run that is counted is valid: where the runs and the valid runs of
/// the window agree, they agree after one more run.
pub proof fn lemma_runs_are_valid_runs(before: Counts, is_valid: bool)
    requires
        before.window_valid == before.window_runs,
    ensures
        counted(before, is_valid).window_valid == counted(before, is_valid).window_runs,
        counted(before, is_valid).total_runs == before.total_runs,
        counted(before, is_valid).total_valid == before.total_valid,
{
}

} // verus!
