//! The process table: the latest snapshot with the active sort key and
//! state filter, and the ordered, filtered rows that are drawn from it.

use vstd::prelude::*;
use crate::filter::StateFilter;
use crate::metrics::percent_of;
use crate::snapshot::{Snapshot, SnapshotView};
use crate::usage::{usage_of, ProcessUsage};

verus! {

/// The column by which the table is ordered.
#[derive(Clone, Copy, Debug, PartialEq, Eq, Structural)]
pub enum SortKey {
    Unsorted,
    Cpu,
    Memory,
    Ppid,
    State,
    StartTime,
    Priority,
}

/// `a` stands before `b` by the key alone: for the two usage keys the
/// larger share first, for the others the smaller value first.
pub open spec fn key_before(key: SortKey, a: ProcessUsage, b: ProcessUsage) -> bool {
    match key {
        SortKey::Unsorted => false,
        SortKey::Cpu => a.cpu_usage.exceeds(b.cpu_usage),
        SortKey::Memory => a.memory_usage.exceeds(b.memory_usage),
        SortKey::Ppid => a.record.ppid < b.record.ppid,
        SortKey::State => a.record.state_code.rank() < b.record.state_code.rank(),
        SortKey::StartTime => a.record.start_ticks < b.record.start_ticks,
        SortKey::Priority => a.record.priority < b.record.priority,
    }
}

/// `a` stands before `b`: by the key, and where the key does not tell them
/// apart, by the smaller pid. Without a key nothing stands before anything.
pub open spec fn row_before(key: SortKey, a: ProcessUsage, b: ProcessUsage) -> bool {
    ||| key_before(key, a, b)
    ||| (key != SortKey::Unsorted && !key_before(key, b, a) && a.record.pid < b.record.pid)
}

/// What a table holds.
pub struct TableView {
    pub snapshot: SnapshotView,
    pub sort_key: SortKey,
    pub filter_set: StateFilter,
}

impl TableView {
    /// The number of records in the snapshot.
    pub open spec fn len(self) -> int {
        self.snapshot.records.len() as int
    }

    /// The record at place `i` of the snapshot passes the filter.
    pub open spec fn shows(self, i: int) -> bool {
        self.filter_set.passes(self.snapshot.records[i].state_code)
    }

    /// The row of the record at place `i` of the snapshot.
    pub open spec fn usage_at(self, i: int) -> ProcessUsage {
        usage_of(
            self.snapshot.records[i],
            self.snapshot.total_cpu_ticks,
            self.snapshot.total_sampled_memory,
        )
    }

    /// The record at place `i` is displayed above the one at place `j`: its
    /// row stands before the other, or neither row stands before the other
    /// and `i` was enumerated first.
    #[verifier::opaque]
    pub open spec fn precedes(self, i: int, j: int) -> bool {
        ||| row_before(self.sort_key, self.usage_at(i), self.usage_at(j))
        ||| (!row_before(self.sort_key, self.usage_at(j), self.usage_at(i)) && i < j)
    }

    /// `order` lists the places of exactly the records among the first `m`
    /// that pass the filter, each displayed above the next.
    pub open spec fn is_order_upto(self, m: int, order: Seq<int>) -> bool {
        &&& forall|k: int|
            0 <= k < order.len() ==> 0 <= #[trigger] order[k] < m && self.shows(order[k])
        &&& forall|i: int| 0 <= i < m && #[trigger] self.shows(i) ==> order.contains(i)
        &&& forall|a: int, b: int|
            0 <= a < b < order.len() ==> self.precedes(#[trigger] order[a], #[trigger] order[b])
    }

    /// `order` lists the places of exactly the records that pass the filter,
    /// each displayed above the next.
    pub open spec fn is_order(self, order: Seq<int>) -> bool {
        self.is_order_upto(self.len(), order)
    }

    /// Where place `x` goes into `order`: behind the last entry that is
    /// displayed above it.
    pub open spec fn insert_place(self, order: Seq<int>, x: int) -> int
        decreases order.len(),
    {
        if order.len() == 0 {
            0
        } else if self.precedes(order.last(), x) {
            order.len() as int
        } else {
            self.insert_place(order.drop_last(), x)
        }
    }

    /// The display order of the records among the first `m`.
    pub open spec fn order_upto(self, m: int) -> Seq<int>
        decreases m,
    {
        if m <= 0 {
            Seq::empty()
        } else {
            let before = self.order_upto(m - 1);
            if self.shows(m - 1) {
                before.insert(self.insert_place(before, m - 1), m - 1)
            } else {
                before
            }
        }
    }

    /// The places of the records that are displayed, from the top row down.
    pub open spec fn order(self) -> Seq<int> {
        self.order_upto(self.len())
    }

    /// The rows that are displayed, from the top down.
    pub open spec fn rows(self) -> Seq<ProcessUsage> {
        self.order().map_values(|i: int| self.usage_at(i))
    }

    /// The table at the start: no process, both totals zero, no sort key
    /// and no filter.
    pub open spec fn initial() -> TableView {
        TableView {
            snapshot: SnapshotView::empty(),
            sort_key: SortKey::Unsorted,
            filter_set: StateFilter::no_state(),
        }
    }

    /// The table ordered by `key`.
    pub open spec fn with_sort(self, key: SortKey) -> TableView {
        TableView { sort_key: key, ..self }
    }

    /// The table filtered by `filter`.
    pub open spec fn with_filter(self, filter: StateFilter) -> TableView {
        TableView { filter_set: filter, ..self }
    }

    /// The table holding `snapshot`.
    pub open spec fn with_snapshot(self, snapshot: SnapshotView) -> TableView {
        TableView { snapshot, ..self }
    }

    /// The number by which the key orders place `i`, smaller first.
    pub open spec fn rank(self, i: int) -> int {
        let record = self.snapshot.records[i];
        match self.sort_key {
            SortKey::Unsorted => 0,
            SortKey::Cpu => if self.snapshot.total_cpu_ticks == 0 {
                0
            } else {
                -(record.cpu_ticks as int)
            },
            SortKey::Memory => if self.snapshot.total_sampled_memory == 0 {
                0
            } else {
                -(record.virtual_memory_bytes as int)
            },
            SortKey::Ppid => record.ppid as int,
            SortKey::State => record.state_code.rank(),
            SortKey::StartTime => record.start_ticks as int,
            SortKey::Priority => record.priority as int,
        }
    }

    /// The key orders two places as their ranks do.
    pub proof fn lemma_key_before_by_rank(self, i: int, j: int)
        ensures
            key_before(self.sort_key, self.usage_at(i), self.usage_at(j)) <==> self.rank(i)
                < self.rank(j),
    {
        let a = self.snapshot.records[i];
        let b = self.snapshot.records[j];
        match self.sort_key {
            SortKey::Cpu => {
                let t = self.snapshot.total_cpu_ticks as int;
                if t != 0 {
                    lemma_share_order(a.cpu_ticks as int, b.cpu_ticks as int, t);
                }
            },
            SortKey::Memory => {
                let t = self.snapshot.total_sampled_memory as int;
                if t != 0 {
                    lemma_share_order(
                        a.virtual_memory_bytes as int,
                        b.virtual_memory_bytes as int,
                        t,
                    );
                }
            },
            _ => {},
        }
    }

    /// Two places are displayed in the order of their ranks, then of their
    /// pids where a key is set, then of the places themselves.
    pub proof fn lemma_precedes_by_rank(self, i: int, j: int)
        ensures
            self.precedes(i, j) <==> {
                ||| self.rank(i) < self.rank(j)
                ||| (self.rank(i) == self.rank(j) && self.sort_key != SortKey::Unsorted
                    && self.snapshot.records[i].pid < self.snapshot.records[j].pid)
                ||| (self.rank(i) == self.rank(j) && (self.sort_key == SortKey::Unsorted
                    || self.snapshot.records[i].pid == self.snapshot.records[j].pid) && i < j)
            },
    {
        reveal(TableView::precedes);
        self.lemma_key_before_by_rank(i, j);
        self.lemma_key_before_by_rank(j, i);
    }
}

/// The process table: the latest snapshot, the sort key and the state
/// filter. A new snapshot replaces the old one whole; the key and the filter
/// stay until a command changes them.
pub struct ProcessTable {
    pub snapshot: Snapshot,
    pub sort_key: SortKey,
    pub filter_set: StateFilter,
}

/// The entries of `order` as places.
pub open spec fn places(order: Seq<usize>) -> Seq<int> {
    order.map_values(|x: usize| x as int)
}

impl ProcessTable {
    /// What the table holds.
    pub open spec fn model(self) -> TableView {
        TableView {
            snapshot: self.snapshot@,
            sort_key: self.sort_key,
            filter_set: self.filter_set,
        }
    }

    /// A table with no process, no sort key and no filter.
    pub fn new() -> (table: ProcessTable)
        ensures
            table.model() == TableView::initial(),
            table.model().len() == 0,
            table.sort_key == SortKey::Unsorted,
            table.filter_set.is_empty_spec(),
    {
        let filter_set: StateFilter = StateFilter::empty();
        proof {
            filter_set.lemma_empty_is_no_state();
        }
        ProcessTable { snapshot: Snapshot::empty(), sort_key: SortKey::Unsorted, filter_set }
    }

    /// Replaces the snapshot. The sort key and the filter are untouched.
    pub fn apply(&mut self, snapshot: Snapshot)
        ensures
            final(self).snapshot == snapshot,
            final(self).sort_key == old(self).sort_key,
            final(self).filter_set == old(self).filter_set,
            final(self).model() == old(self).model().with_snapshot(snapshot@),
    {
        self.snapshot = snapshot;
    }

    /// Sets the sort key. The snapshot and the filter are untouched.
    pub fn set_sort(&mut self, key: SortKey)
        ensures
            final(self).snapshot == old(self).snapshot,
            final(self).sort_key == key,
            final(self).filter_set == old(self).filter_set,
            final(self).model() == old(self).model().with_sort(key),
    {
        self.sort_key = key;
    }

    /// Sets the filter. The snapshot and the sort key are untouched.
    pub fn set_filter(&mut self, filter: StateFilter)
        ensures
            final(self).snapshot == old(self).snapshot,
            final(self).sort_key == old(self).sort_key,
            final(self).filter_set == filter,
            final(self).model() == old(self).model().with_filter(filter),
    {
        self.filter_set = filter;
    }

    /// Computes the rank of place `i`.
    fn rank_value(&self, i: usize) -> (rank: i128)
        requires
            i < self.model().len(),
        ensures
            rank == self.model().rank(i as int),
    {
        let record = &self.snapshot.records()[i];
        match self.sort_key {
            SortKey::Unsorted => 0,
            SortKey::Cpu => if self.snapshot.total_cpu_ticks() == 0 {
                0
            } else {
                -(record.cpu_ticks as i128)
            },
            SortKey::Memory => if self.snapshot.total_sampled_memory() == 0 {
                0
            } else {
                -(record.virtual_memory_bytes as i128)
            },
            SortKey::Ppid => record.ppid as i128,
            SortKey::State => record.state_code.rank_value() as i128,
            SortKey::StartTime => record.start_ticks as i128,
            SortKey::Priority => record.priority as i128,
        }
    }

    /// Whether place `i` is displayed above place `j`.
    fn before(&self, i: usize, j: usize) -> (above: bool)
        requires
            i < self.model().len(),
            j < self.model().len(),
        ensures
            above == self.model().precedes(i as int, j as int),
    {
        proof {
            self.model().lemma_precedes_by_rank(i as int, j as int);
        }
        let rank_i: i128 = self.rank_value(i);
        let rank_j: i128 = self.rank_value(j);
        if rank_i != rank_j {
            return rank_i < rank_j;
        }
        let by_pid: bool = match self.sort_key {
            SortKey::Unsorted => false,
            _ => true,
        };
        let records = self.snapshot.records();
        if by_pid && records[i].pid != records[j].pid {
            records[i].pid < records[j].pid
        } else {
            i < j
        }
    }

    /// Finds where place `x` goes into `order`.
    fn place_for(&self, order: &Vec<usize>, x: usize) -> (p: usize)
        requires
            x < self.model().len(),
            forall|k: int| 0 <= k < order.len() ==> order[k] < self.model().len(),
        ensures
            p <= order.len(),
            p == self.model().insert_place(places(order@), x as int),
    {
        let ghost m = self.model();
        let mut p: usize = order.len();
        let mut searching: bool = true;
        proof {
            assert(places(order@).take(p as int) == places(order@));
        }
        while searching && p > 0
            invariant
                p <= order.len(),
                m == self.model(),
                x < m.len(),
                forall|k: int| 0 <= k < order.len() ==> order[k] < m.len(),
                searching ==> m.insert_place(places(order@), x as int) == m.insert_place(
                    places(order@).take(p as int),
                    x as int,
                ),
                !searching ==> m.insert_place(places(order@), x as int) == p,
            decreases p + if searching { 1nat } else { 0nat },
        {
            let ghost head = places(order@).take(p as int);
            proof {
                assert(head.last() == order[p - 1] as int);
                assert(head.drop_last() == places(order@).take(p - 1));
            }
            if self.before(order[p - 1], x) {
                searching = false;
            } else {
                p = p - 1;
            }
        }
        p
    }

    /// The rows to display: the records that pass the filter, ordered by the
    /// sort key and then by pid, and in enumeration order where no key is set
    /// or both are equal.
    pub fn view(&self) -> (rows: Vec<ProcessUsage>)
        ensures
            rows@ == self.model().rows(),
            rows@.len() == self.model().order().len(),
            self.model().is_order(self.model().order()),
            forall|k: int|
                0 <= k < rows@.len() ==> #[trigger] rows@[k] == self.model().usage_at(
                    self.model().order()[k],
                ),
    {
        let ghost m = self.model();
        proof {
            m.lemma_order_upto(m.len());
        }
        let records = self.snapshot.records();
        let total_cpu: u64 = self.snapshot.total_cpu_ticks();
        let total_memory: u128 = self.snapshot.total_sampled_memory();
        let mut order: Vec<usize> = Vec::new();
        let mut i: usize = 0;
        while i < records.len()
            invariant
                i <= records.len(),
                m == self.model(),
                records@ == m.snapshot.records,
                places(order@) == m.order_upto(i as int),
                forall|k: int| 0 <= k < order.len() ==> order[k] < i,
            decreases records.len() - i,
        {
            if self.filter_set.keeps(records[i].state_code) {
                let p: usize = self.place_for(&order, i);
                let ghost earlier = order@;
                order.insert(p, i);
                proof {
                    assert(places(order@) == places(earlier).insert(p as int, i as int));
                }
            }
            i = i + 1;
        }
        let mut rows: Vec<ProcessUsage> = Vec::new();
        let mut k: usize = 0;
        while k < order.len()
            invariant
                k <= order.len(),
                m == self.model(),
                records@ == m.snapshot.records,
                total_cpu == m.snapshot.total_cpu_ticks,
                total_memory == m.snapshot.total_sampled_memory,
                places(order@) == m.order(),
                forall|j: int| 0 <= j < order.len() ==> order[j] < records.len(),
                rows@.len() == k,
                forall|j: int| 0 <= j < k ==> #[trigger] rows@[j] == m.usage_at(order[j] as int),
            decreases order.len() - k,
        {
            rows.push(ProcessUsage::derive(&records[order[k]], total_cpu, total_memory));
            k = k + 1;
        }
        proof {
            assert forall|j: int| 0 <= j < rows@.len() implies #[trigger] rows@[j] == m.usage_at(
                m.order()[j],
            ) by {
                assert(places(order@)[j] == order[j] as int);
            }
            assert(rows@ =~= m.rows());
        }
        rows
    }
}

/// Of two shares of one positive total, the larger part is the larger share.
proof fn lemma_share_order(x: int, y: int, total: int)
    requires
        0 <= x <= u64::MAX,
        0 <= y <= u64::MAX,
        0 < total <= u128::MAX,
    ensures
        percent_of(x, total).exceeds(percent_of(y, total)) <==> x > y,
{
    assert(100 * x <= u128::MAX && 100 * y <= u128::MAX);
    assert(((100 * x) * total > (100 * y) * total) <==> x > y) by (nonlinear_arith)
        requires
            total > 0,
    ;
}

} // verus!
