use vstd::prelude::*;

verus! {

/// The terminal outcome of one processed item.
#[derive(Clone, Copy, Debug, PartialEq, Eq, Structural)]
pub enum Outcome {
    Skipped,
    Failed,
    Renamed,
}

/// Counters of a run: one of them grows by one for each item that reaches an outcome.
#[derive(Clone, Copy, Debug, PartialEq, Eq, Structural)]
pub struct Statistics {
    pub skipped_files: u64,
    pub failed_files: u64,
    pub renamed_files: u64,
}

impl Statistics {
    /// The counter that `outcome` increments.
    pub open spec fn counter(self, outcome: Outcome) -> u64 {
        match outcome {
            Outcome::Skipped => self.skipped_files,
            Outcome::Failed => self.failed_files,
            Outcome::Renamed => self.renamed_files,
        }
    }

    /// `self` with the counter of `outcome` raised by one.
    pub open spec fn after(self, outcome: Outcome) -> Statistics {
        match outcome {
            Outcome::Skipped => Statistics { skipped_files: (self.skipped_files + 1) as u64, ..self },
            Outcome::Failed => Statistics { failed_files: (self.failed_files + 1) as u64, ..self },
            Outcome::Renamed => Statistics { renamed_files: (self.renamed_files + 1) as u64, ..self },
        }
    }

    pub fn new() -> (r: Statistics)
        ensures
            r.skipped_files == 0,
            r.failed_files == 0,
            r.renamed_files == 0,
    {
        Statistics { skipped_files: 0, failed_files: 0, renamed_files: 0 }
    }

    /// Folds one item's outcome into the counters.
    pub fn record(&mut self, outcome: Outcome)
        requires
            old(self).counter(outcome) < u64::MAX,
        ensures
            *final(self) == old(self).after(outcome),
    {
        match outcome {
            Outcome::Skipped => self.skipped_files = self.skipped_files + 1,
            Outcome::Failed => self.failed_files = self.failed_files + 1,
            Outcome::Renamed => self.renamed_files = self.renamed_files + 1,
        }
    }

    /// Counts a move that was asked for: renamed where it went through,
    /// failed where not.
    pub fn record_move(&mut self, moved: bool)
        requires
            old(self).renamed_files < u64::MAX,
            old(self).failed_files < u64::MAX,
        ensures
            *final(self) == old(self).after(if moved { Outcome::Renamed } else { Outcome::Failed }),
    {
        if moved {
            self.record(Outcome::Renamed);
        } else {
            self.record(Outcome::Failed);
        }
    }

    /// Counts each discovery error as a failed item.
    pub fn record_discovery_errors(&mut self, count: u64)
        requires
            old(self).failed_files + count <= u64::MAX,
        ensures
            final(self).failed_files == old(self).failed_files + count,
            final(self).skipped_files == old(self).skipped_files,
            final(self).renamed_files == old(self).renamed_files,
    {
        self.failed_files = self.failed_files + count;
    }

    /// A run succeeds when no item failed.
    pub fn is_success(&self) -> (r: bool)
        ensures
            r == (self.failed_files == 0),
    {
        self.failed_files == 0
    }
}

} // verus!
