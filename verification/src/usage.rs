//! Rows: a record with the figures derived from it, for one record or for
//! all of a snapshot.

use vstd::prelude::*;
use crate::filter::StateFilter;
use crate::metrics::{
    cpu_percent, memory_percent, percent_of, priority_bucket, priority_bucket_spec, Percent,
    PriorityBucket,
};
use crate::record::ProcessRecord;
use crate::snapshot::{sampled_memory, Snapshot, SnapshotView};

verus! {

/// One row of the table: a record with the figures derived from it.
#[derive(Debug, PartialEq, Eq)]
pub struct ProcessUsage {
    pub record: ProcessRecord,
    /// The share of the system-wide processor ticks.
    pub cpu_usage: Percent,
    /// The share of the memory of the sample.
    pub memory_usage: Percent,
    pub priority: PriorityBucket,
}

/// The row of `record` in a snapshot with these totals.
pub open spec fn usage_of(record: ProcessRecord, total_cpu_ticks: u64, total_memory: u128)
    -> ProcessUsage {
    ProcessUsage {
        record,
        cpu_usage: percent_of(record.cpu_ticks as int, total_cpu_ticks as int),
        memory_usage: percent_of(record.virtual_memory_bytes as int, total_memory as int),
        priority: priority_bucket_spec(record.priority as int),
    }
}

impl Clone for ProcessUsage {
    /// A copy equal to the row in every field.
    fn clone(&self) -> (copy: ProcessUsage)
        ensures
            copy == *self,
    {
        ProcessUsage {
            record: self.record.clone(),
            cpu_usage: self.cpu_usage,
            memory_usage: self.memory_usage,
            priority: self.priority,
        }
    }
}

impl ProcessUsage {
    /// Derives the row of `record` in a snapshot with these totals.
    pub fn derive(record: &ProcessRecord, total_cpu_ticks: u64, total_memory: u128) -> (row:
        ProcessUsage)
        ensures
            row == usage_of(*record, total_cpu_ticks, total_memory),
            row.cpu_usage.wf(),
            row.memory_usage.wf(),
    {
        ProcessUsage {
            record: record.clone(),
            cpu_usage: cpu_percent(record.cpu_ticks, total_cpu_ticks),
            memory_usage: memory_percent(record.virtual_memory_bytes, total_memory),
            priority: priority_bucket(record.priority),
        }
    }
}

/// The rows of all records of a snapshot, in enumeration order.
pub open spec fn all_rows(snapshot: SnapshotView) -> Seq<ProcessUsage> {
    snapshot.records.map_values(
        |record: ProcessRecord|
            usage_of(record, snapshot.total_cpu_ticks, snapshot.total_sampled_memory),
    )
}

/// Derives the row of every record of a snapshot, in enumeration order.
pub fn get_processes(snapshot: &Snapshot) -> (rows: Vec<ProcessUsage>)
    ensures
        rows@ == all_rows(snapshot@),
{
    let records = snapshot.records();
    let total_cpu: u64 = snapshot.total_cpu_ticks();
    let total_memory: u128 = snapshot.total_sampled_memory();
    let mut rows: Vec<ProcessUsage> = Vec::new();
    let mut i: usize = 0;
    while i < records.len()
        invariant
            i <= records.len(),
            records@ == snapshot@.records,
            total_cpu == snapshot@.total_cpu_ticks,
            total_memory == snapshot@.total_sampled_memory,
            rows@ == all_rows(snapshot@).take(i as int),
        decreases records.len() - i,
    {
        rows.push(ProcessUsage::derive(&records[i], total_cpu, total_memory));
        assert(rows@ =~= all_rows(snapshot@).take(i + 1));
        i = i + 1;
    }
    assert(all_rows(snapshot@).take(records.len() as int) =~= all_rows(snapshot@));
    rows
}

/// The rows of `processes` whose state passes the filter, in their order.
pub open spec fn filtered_rows(processes: Seq<ProcessUsage>, filter: StateFilter) -> Seq<
    ProcessUsage,
> {
    processes.filter(|row: ProcessUsage| filter.passes(row.record.state_code))
}

/// Copies the rows whose state passes the filter, in their order. The empty
/// filter lets every row pass.
pub fn filter_process_info(processes: &[ProcessUsage], filter_by_states: &StateFilter) -> (kept:
    Vec<ProcessUsage>)
    ensures
        kept@ == filtered_rows(processes@, *filter_by_states),
{
    let ghost pass = |row: ProcessUsage| filter_by_states.passes(row.record.state_code);
    let mut kept: Vec<ProcessUsage> = Vec::new();
    let mut i: usize = 0;
    while i < processes.len()
        invariant
            i <= processes.len(),
            pass == |row: ProcessUsage| filter_by_states.passes(row.record.state_code),
            kept@ == processes@.take(i as int).filter(pass),
        decreases processes.len() - i,
    {
        proof {
            lemma_filter_step(processes@, pass, i as int);
        }
        if filter_by_states.keeps(processes[i].record.state_code) {
            kept.push(processes[i].clone());
        }
        i = i + 1;
    }
    assert(processes@.take(processes.len() as int) == processes@);
    kept
}

/// Filtering one element more keeps what was kept and adds the element if
/// it passes.
pub(crate) proof fn lemma_filter_step<T>(s: Seq<T>, pass: spec_fn(T) -> bool, i: int)
    requires
        0 <= i < s.len(),
    ensures
        s.take(i + 1).filter(pass) == if pass(s[i]) {
            s.take(i).filter(pass).push(s[i])
        } else {
            s.take(i).filter(pass)
        },
{
    assert(s.take(i + 1).drop_last() == s.take(i));
    reveal(Seq::filter);
}

/// The sum of the numerators of the memory shares of `records` in a sample
/// of `total` bytes.
pub open spec fn memory_share_sum(records: Seq<ProcessRecord>, total: u128) -> int
    decreases records.len(),
{
    if records.len() == 0 {
        0
    } else {
        memory_share_sum(records.drop_last(), total) + percent_of(
            records.last().virtual_memory_bytes as int,
            total as int,
        ).numerator
    }
}

/// The memory shares of a snapshot add up to the whole: where the sampled
/// memory is not zero, every share has it as its denominator, and the
/// numerators add up to a hundred times the sampled memory.
pub proof fn lemma_memory_shares_make_whole(snapshot: SnapshotView)
    requires
        snapshot.wf(),
        snapshot.total_sampled_memory > 0,
    ensures
        memory_share_sum(snapshot.records, snapshot.total_sampled_memory) == 100
            * snapshot.total_sampled_memory,
        forall|i: int|
            0 <= i < snapshot.records.len() ==> (#[trigger] all_rows(
                snapshot,
            )[i]).memory_usage.denominator == snapshot.total_sampled_memory,
{
    lemma_share_sum(snapshot.records, snapshot.total_sampled_memory);
}

/// The numerators of the shares of a total that is not zero add up to a
/// hundred times the sum of the sizes.
proof fn lemma_share_sum(records: Seq<ProcessRecord>, total: u128)
    requires
        total > 0,
    ensures
        memory_share_sum(records, total) == 100 * sampled_memory(records),
    decreases records.len(),
{
    if records.len() > 0 {
        lemma_share_sum(records.drop_last(), total);
        assert(100 * records.last().virtual_memory_bytes <= u128::MAX);
    }
}

} // verus!
