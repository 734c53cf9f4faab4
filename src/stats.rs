//! A snapshot of the state's statistics, computed on demand.
use vstd::prelude::*;
use crate::perf::PerformanceCount;

verus! {

/// Statistics reported to callers; computed on demand, never cached.
#[derive(Clone, Debug, Default, PartialEq, Eq)]
pub struct Stats {
    /// Number of the authoritative schema.
    pub schema: Option<u32>,
    /// Number of entries in the dataset.
    pub accounts_count: u64,
    /// Entries still to be copied by the migration in progress, plus one; zero when none is in progress.
    pub migration_countdown: Option<u32>,
    /// The most recent performance samples, oldest first.
    pub performance_counts: Vec<PerformanceCount>,
    /// Number of exceptional transaction ids that are held.
    pub exceptional_transactions_count: Option<u32>,
    /// Number of periodic tasks that have run.
    pub periodic_tasks_count: Option<u32>,
}

} // verus!
