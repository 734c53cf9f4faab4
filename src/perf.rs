//! Performance samples: a bounded ring buffer of instruction counts, and
//! diagnostic counters.
use vstd::prelude::*;
use std::collections::VecDeque;
use crate::stats::Stats;

verus! {

/// A snapshot of performance counters at a specific moment.
#[derive(Clone, Debug, Default, PartialEq, Eq)]
pub struct PerformanceCount {
    pub timestamp_ns_since_epoch: u64,
    pub name: String,
    pub instruction_count: u64,
}

/// Storage for recent performance counter snapshots.
#[derive(Clone, Debug, Default, PartialEq, Eq)]
pub struct PerformanceCounts {
    pub instruction_counts: VecDeque<PerformanceCount>,
    pub exceptional_transactions: Option<VecDeque<u64>>,
    pub periodic_tasks_count: Option<u32>,
}

/// Number of instruction-count samples that are kept.
pub const MAX_INSTRUCTION_COUNTS: usize = 100;

/// Number of exceptional transaction ids that are kept.
pub const MAX_EXCEPTIONAL_TRANSACTIONS: usize = 1000;

/// The samples after one more is saved: the oldest leaves first once the buffer is full.
pub open spec fn spec_after_save(samples: Seq<PerformanceCount>, count: PerformanceCount) -> Seq<
    PerformanceCount,
> {
    if samples.len() >= MAX_INSTRUCTION_COUNTS {
        samples.drop_first().push(count)
    } else {
        samples.push(count)
    }
}

/// The exceptional ids held, as a sequence; none are held when the list was never made.
pub open spec fn spec_exceptional_ids(ids: Option<VecDeque<u64>>) -> Seq<u64> {
    match ids {
        Some(v) => v@,
        None => Seq::empty(),
    }
}

/// The newest `MAX_EXCEPTIONAL_TRANSACTIONS` ids, newest first, after one more is recorded.
pub open spec fn spec_after_exceptional(ids: Seq<u64>, id: u64) -> Seq<u64> {
    let all = seq![id] + ids;
    if all.len() > MAX_EXCEPTIONAL_TRANSACTIONS {
        all.subrange(0, MAX_EXCEPTIONAL_TRANSACTIONS as int)
    } else {
        all
    }
}

/// A count that saturates at `u32::MAX`.
pub open spec fn spec_saturating_count(n: nat) -> u32 {
    if n > u32::MAX {
        u32::MAX
    } else {
        n as u32
    }
}

impl PerformanceCount {
    /// A sample with the given label, taken at the given time with the given counter value.
    pub fn new(name: &str, timestamp_ns_since_epoch: u64, instruction_count: u64) -> (r: Self)
        ensures
            r.name@ == name@,
            r.timestamp_ns_since_epoch == timestamp_ns_since_epoch,
            r.instruction_count == instruction_count,
    {
        PerformanceCount { timestamp_ns_since_epoch, name: name.to_owned(), instruction_count }
    }

    /// An equal copy of this sample.
    pub fn snapshot(&self) -> (r: Self)
        ensures
            r == *self,
    {
        PerformanceCount {
            timestamp_ns_since_epoch: self.timestamp_ns_since_epoch,
            name: self.name.clone(),
            instruction_count: self.instruction_count,
        }
    }
}

impl PerformanceCounts {
    /// Saves a performance counter snapshot, evicting the oldest when the buffer is full.
    pub fn save_instruction_count(&mut self, count: PerformanceCount)
        ensures
            final(self).instruction_counts@ == spec_after_save(
                old(self).instruction_counts@,
                count,
            ),
            final(self).exceptional_transactions == old(self).exceptional_transactions,
            final(self).periodic_tasks_count == old(self).periodic_tasks_count,
    {
        if self.instruction_counts.len() >= MAX_INSTRUCTION_COUNTS {
            self.instruction_counts.pop_front();
        }
        self.instruction_counts.push_back(count);
    }

    /// Writes the performance statistics into `stats`, leaving its other fields as they were.
    /// The count of exceptional transactions saturates at `u32::MAX`.
    pub fn get_stats(&self, stats: &mut Stats)
        ensures
            final(stats).performance_counts@ == self.instruction_counts@,
            final(stats).exceptional_transactions_count == Some(
                spec_saturating_count(spec_exceptional_ids(self.exceptional_transactions).len()),
            ),
            final(stats).periodic_tasks_count == self.periodic_tasks_count,
            final(stats).schema == old(stats).schema,
            final(stats).accounts_count == old(stats).accounts_count,
            final(stats).migration_countdown == old(stats).migration_countdown,
    {
        let mut samples: Vec<PerformanceCount> = Vec::new();
        let n = self.instruction_counts.len();
        let mut i: usize = 0;
        while i < n
            invariant
                n == self.instruction_counts@.len(),
                i <= n,
                samples@ == self.instruction_counts@.subrange(0, i as int),
            decreases n - i,
        {
            samples.push(self.instruction_counts[i].snapshot());
            i = i + 1;
            assert(samples@ =~= self.instruction_counts@.subrange(0, i as int));
        }
        assert(samples@ =~= self.instruction_counts@);
        stats.performance_counts = samples;
        let count: u32 = match &self.exceptional_transactions {
            Some(ids) => {
                if ids.len() > u32::MAX as usize {
                    u32::MAX
                } else {
                    ids.len() as u32
                }
            },
            None => 0,
        };
        stats.exceptional_transactions_count = Some(count);
        stats.periodic_tasks_count = self.periodic_tasks_count;
    }

    /// Saves an exceptional transaction id; only the newest `MAX_EXCEPTIONAL_TRANSACTIONS`
    /// are kept, newest first.
    pub fn record_exceptional_transaction_id(&mut self, transaction_id: u64)
        ensures
            final(self).exceptional_transactions matches Some(ids) && ids@ == spec_after_exceptional(
                spec_exceptional_ids(old(self).exceptional_transactions),
                transaction_id,
            ),
            final(self).instruction_counts == old(self).instruction_counts,
            final(self).periodic_tasks_count == old(self).periodic_tasks_count,
    {
        let mut ids: VecDeque<u64> = match self.exceptional_transactions.take() {
            Some(ids) => ids,
            None => VecDeque::new(),
        };
        ids.push_front(transaction_id);
        ids.truncate(MAX_EXCEPTIONAL_TRANSACTIONS);
        self.exceptional_transactions = Some(ids);
    }

    /// Counts one more run of the periodic tasks; the count saturates at `u32::MAX`.
    pub fn increment_periodic_tasks_run(&mut self)
        ensures
            final(self).periodic_tasks_count == Some(
                spec_saturating_count(
                    match old(self).periodic_tasks_count {
                        Some(n) => n as nat,
                        None => 0nat,
                    } + 1,
                ),
            ),
            final(self).instruction_counts == old(self).instruction_counts,
            final(self).exceptional_transactions == old(self).exceptional_transactions,
    {
        let n: u32 = match self.periodic_tasks_count {
            Some(n) => n,
            None => 0,
        };
        self.periodic_tasks_count = Some(n.saturating_add(1));
    }

    /// Sample data: three samples; the first and last unlabelled at time zero with a zero
    /// count, the middle one labelled "Nein" at time 999 with a count of one.
    pub fn test_data() -> (r: Self)
        ensures
            r.instruction_counts@.len() == 3,
            r.instruction_counts@[1].timestamp_ns_since_epoch == 999,
            r.instruction_counts@[1].name@ == "Nein"@,
            r.instruction_counts@[1].instruction_count == 1,
            r.instruction_counts@[0].timestamp_ns_since_epoch == 0,
            r.instruction_counts@[0].name@ == ""@,
            r.instruction_counts@[0].instruction_count == 0,
            r.instruction_counts@[2].timestamp_ns_since_epoch == 0,
            r.instruction_counts@[2].name@ == ""@,
            r.instruction_counts@[2].instruction_count == 0,
            r.exceptional_transactions is None,
            r.periodic_tasks_count is None,
    {
        let mut ans = PerformanceCounts {
            instruction_counts: VecDeque::new(),
            exceptional_transactions: None,
            periodic_tasks_count: None,
        };
        ans.save_instruction_count(PerformanceCount::new("", 0, 0));
        ans.save_instruction_count(PerformanceCount::new("Nein", 999, 1));
        ans.save_instruction_count(PerformanceCount::new("", 0, 0));
        ans
    }
}

} // verus!
