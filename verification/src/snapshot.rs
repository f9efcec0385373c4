//! A snapshot: every process sampled at one instant, with the totals that
//! the percentages are taken of.

use vstd::prelude::*;
use crate::failure::Failure;
use crate::record::{ProcessRecord, RawStat};

verus! {

/// The sum of the virtual memory sizes of `records`.
pub open spec fn sampled_memory(records: Seq<ProcessRecord>) -> nat
    decreases records.len(),
{
    if records.len() == 0 {
        0
    } else {
        sampled_memory(records.drop_last()) + records.last().virtual_memory_bytes as nat
    }
}

/// The records of the reports that could be read, in the order of the
/// reports; a report that could not be read leaves no trace.
pub open spec fn readable_records(readings: Seq<Option<RawStat>>) -> Seq<ProcessRecord> {
    readings.filter(|r: Option<RawStat>| r is Some).map_values(
        |r: Option<RawStat>| ProcessRecord::of_raw(r->0),
    )
}

/// The place of the first of `records` with this pid, if one has it.
pub open spec fn position_of(records: Seq<ProcessRecord>, pid: i32) -> Option<int>
    decreases records.len(),
{
    if records.len() == 0 {
        None
    } else {
        match position_of(records.drop_last(), pid) {
            Some(i) => Some(i),
            None => if records.last().pid == pid {
                Some(records.len() - 1)
            } else {
                None
            },
        }
    }
}

/// The place found holds the pid and no earlier place does; where none is
/// found, no record has the pid.
pub proof fn lemma_position_of(records: Seq<ProcessRecord>, pid: i32)
    ensures
        match position_of(records, pid) {
            Some(i) => {
                &&& 0 <= i < records.len()
                &&& records[i].pid == pid
                &&& forall|j: int| 0 <= j < i ==> records[j].pid != pid
            },
            None => forall|j: int| 0 <= j < records.len() ==> records[j].pid != pid,
        },
    decreases records.len(),
{
    if records.len() > 0 {
        lemma_position_of(records.drop_last(), pid);
        assert forall|j: int| 0 <= j < records.len() - 1 implies records[j]
            == records.drop_last()[j] by {}
    }
}

/// What a snapshot holds.
pub struct SnapshotView {
    /// The records, in the order in which the processes were enumerated.
    pub records: Seq<ProcessRecord>,
    /// The system-wide tick counter; it does not depend on the records.
    pub total_cpu_ticks: u64,
    /// The sum of the virtual memory sizes of the records.
    pub total_sampled_memory: u128,
}

/// One capture of the process table. A snapshot never changes: the next
/// sample is another snapshot.
pub struct Snapshot {
    records: Vec<ProcessRecord>,
    total_cpu_ticks: u64,
    total_sampled_memory: u128,
}

impl SnapshotView {
    /// The snapshot of no process: no record, and both totals zero.
    pub open spec fn empty() -> SnapshotView {
        SnapshotView { records: Seq::empty(), total_cpu_ticks: 0, total_sampled_memory: 0 }
    }

    /// The memory total is the sum over exactly the records held.
    pub open spec fn wf(self) -> bool {
        self.total_sampled_memory == sampled_memory(self.records)
    }
}

impl View for Snapshot {
    type V = SnapshotView;

    closed spec fn view(&self) -> SnapshotView {
        SnapshotView {
            records: self.records@,
            total_cpu_ticks: self.total_cpu_ticks,
            total_sampled_memory: self.total_sampled_memory,
        }
    }
}

/// The sum of `n` sizes is at most `n` times the largest size.
pub proof fn lemma_sampled_memory_bound(records: Seq<ProcessRecord>)
    ensures
        sampled_memory(records) <= records.len() * u64::MAX,
    decreases records.len(),
{
    if records.len() > 0 {
        lemma_sampled_memory_bound(records.drop_last());
        assert(sampled_memory(records) <= (records.len() - 1) * u64::MAX + u64::MAX);
        assert((records.len() - 1) * u64::MAX + u64::MAX == records.len() * u64::MAX)
            by (nonlinear_arith);
    }
}

impl Snapshot {
    /// The memory total is the sum over exactly the records held.
    #[verifier::type_invariant]
    pub open spec fn wf(self) -> bool {
        self@.wf()
    }

    /// A snapshot of no process, with both totals zero.
    pub fn empty() -> (snapshot: Snapshot)
        ensures
            snapshot.wf(),
            snapshot@ == SnapshotView::empty(),
            snapshot@.records.len() == 0,
            snapshot@.total_cpu_ticks == 0,
            snapshot@.total_sampled_memory == 0,
    {
        let snapshot = Snapshot {
            records: Vec::new(),
            total_cpu_ticks: 0,
            total_sampled_memory: 0,
        };
        assert(snapshot@.records =~= Seq::<ProcessRecord>::empty());
        snapshot
    }

    /// The snapshot of `records`, with the memory total computed from them.
    pub fn new(records: Vec<ProcessRecord>, total_cpu_ticks: u64) -> (snapshot: Snapshot)
        ensures
            snapshot.wf(),
            snapshot@.records == records@,
            snapshot@.total_cpu_ticks == total_cpu_ticks,
            snapshot@.total_sampled_memory == sampled_memory(records@),
    {
        let mut total: u128 = 0;
        let mut i: usize = 0;
        while i < records.len()
            invariant
                i <= records.len(),
                total == sampled_memory(records@.take(i as int)),
            decreases records.len() - i,
        {
            proof {
                let upto = records@.take(i as int + 1);
                assert(upto.drop_last() == records@.take(i as int));
                lemma_sampled_memory_bound(upto);
                assert(upto.len() * u64::MAX <= u64::MAX * u64::MAX) by (nonlinear_arith)
                    requires
                        upto.len() <= u64::MAX,
                ;
            }
            total = total + records[i].virtual_memory_bytes as u128;
            i = i + 1;
        }
        proof {
            assert(records@.take(records.len() as int) == records@);
        }
        Snapshot { records, total_cpu_ticks, total_sampled_memory: total }
    }

    /// The records, in enumeration order.
    pub fn records(&self) -> (records: &Vec<ProcessRecord>)
        ensures
            records@ == self@.records,
    {
        &self.records
    }

    /// The number of records.
    pub fn len(&self) -> (n: usize)
        ensures
            n == self@.records.len(),
    {
        self.records.len()
    }

    /// The system-wide tick counter.
    pub fn total_cpu_ticks(&self) -> (ticks: u64)
        ensures
            ticks == self@.total_cpu_ticks,
    {
        self.total_cpu_ticks
    }

    /// The sum of the virtual memory sizes of the records.
    pub fn total_sampled_memory(&self) -> (bytes: u128)
        ensures
            bytes == self@.total_sampled_memory,
            bytes == sampled_memory(self@.records),
    {
        proof {
            use_type_invariant(self);
        }
        self.total_sampled_memory
    }

    /// The place of the first record with this pid, if there is one.
    pub fn find(&self, pid: i32) -> (place: Option<usize>)
        ensures
            place is Some <==> position_of(self@.records, pid) is Some,
            place is Some ==> place->0 == position_of(self@.records, pid)->0,
            match place {
                Some(i) => {
                    &&& i < self@.records.len()
                    &&& self@.records[i as int].pid == pid
                    &&& forall|j: int| 0 <= j < i ==> self@.records[j].pid != pid
                },
                None => forall|j: int| 0 <= j < self@.records.len() ==> self@.records[j].pid != pid,
            },
    {
        let mut i: usize = 0;
        while i < self.records.len()
            invariant
                i <= self.records.len(),
                forall|j: int| 0 <= j < i ==> self.records@[j].pid != pid,
            decreases self.records.len() - i,
        {
            if self.records[i].pid == pid {
                proof {
                    lemma_position_of(self.records@, pid);
                }
                return Some(i);
            }
            i = i + 1;
        }
        proof {
            lemma_position_of(self.records@, pid);
        }
        None
    }
}

/// Builds the snapshot of one enumeration. Each entry of `readings` is one
/// process that the enumeration named: its report, or `None` where the
/// report could not be read, which happens when a process ends while the
/// table is walked. Such an entry is skipped; it is no failure.
pub fn collect(readings: &Vec<Option<RawStat>>, total_cpu_ticks: u64) -> (snapshot: Snapshot)
    ensures
        snapshot.wf(),
        snapshot@.records == readable_records(readings@),
        snapshot@.total_cpu_ticks == total_cpu_ticks,
        snapshot@.total_sampled_memory == sampled_memory(readable_records(readings@)),
{
    let mut records: Vec<ProcessRecord> = Vec::new();
    let mut i: usize = 0;
    while i < readings.len()
        invariant
            i <= readings.len(),
            records@ == readable_records(readings@.take(i as int)),
        decreases readings.len() - i,
    {
        proof {
            lemma_readable_step(readings@, i as int);
        }
        match &readings[i] {
            Some(raw) => {
                records.push(ProcessRecord::from_raw(raw));
            },
            None => {},
        }
        i = i + 1;
    }
    proof {
        assert(readings@.take(readings.len() as int) == readings@);
    }
    Snapshot::new(records, total_cpu_ticks)
}

/// Builds the snapshot of one attempt to enumerate the processes.
/// `enumeration` is `None` if the process table could not be walked at all:
/// that is a failure, for without the table there is nothing to show. If it
/// could be walked, the snapshot is that of `collect`, and a report that
/// could not be read is no failure.
pub fn sample(enumeration: Option<Vec<Option<RawStat>>>, total_cpu_ticks: u64) -> (outcome: Result<
    Snapshot,
    Failure,
>)
    ensures
        match enumeration {
            Some(readings) => {
                &&& outcome matches Ok(snapshot)
                &&& snapshot.wf()
                &&& snapshot@.records == readable_records(readings@)
                &&& snapshot@.total_cpu_ticks == total_cpu_ticks
                &&& snapshot@.total_sampled_memory == sampled_memory(readable_records(readings@))
            },
            None => outcome matches Err(failure) && failure == Failure::Enumeration,
        },
{
    match enumeration {
        Some(readings) => Ok(collect(&readings, total_cpu_ticks)),
        None => Err(Failure::Enumeration),
    }
}

/// Reading one more report adds its record, or nothing if it is unreadable.
proof fn lemma_readable_step(readings: Seq<Option<RawStat>>, i: int)
    requires
        0 <= i < readings.len(),
    ensures
        readable_records(readings.take(i + 1)) == match readings[i] {
            Some(raw) => readable_records(readings.take(i)).push(ProcessRecord::of_raw(raw)),
            None => readable_records(readings.take(i)),
        },
{
    let pred = |r: Option<RawStat>| r is Some;
    let conv = |r: Option<RawStat>| ProcessRecord::of_raw(r->0);
    let upto = readings.take(i + 1);
    assert(upto.drop_last() == readings.take(i));
    reveal(Seq::filter);
    assert(upto.filter(pred) == if pred(readings[i]) {
        readings.take(i).filter(pred).push(readings[i])
    } else {
        readings.take(i).filter(pred)
    });
    if readings[i] is Some {
        assert(readings.take(i).filter(pred).push(readings[i]).map_values(conv)
            == readings.take(i).filter(pred).map_values(conv).push(conv(readings[i])));
    }
}

} // verus!
