//! The display order is well defined: what it lists, that it is sorted, and
//! that the sort key, the pid and the enumeration order leave no choice.

use vstd::prelude::*;
use crate::table::{row_before, SortKey, TableView};
use crate::usage::{all_rows, filtered_rows, lemma_filter_step, ProcessUsage};

verus! {

impl TableView {
    /// Each entry of `order` is displayed above the entries behind it.
    pub open spec fn is_sorted(self, order: Seq<int>) -> bool {
        forall|a: int, b: int|
            0 <= a < b < order.len() ==> self.precedes(#[trigger] order[a], #[trigger] order[b])
    }

    /// The display order is a strict total order of the places: no place is
    /// above itself, of two places exactly one is above the other, and
    /// above-ness carries over.
    pub proof fn lemma_precedes_total(self, i: int, j: int, k: int)
        ensures
            !self.precedes(i, i),
            i != j ==> (self.precedes(i, j) <==> !self.precedes(j, i)),
            self.precedes(i, j) && self.precedes(j, k) ==> self.precedes(i, k),
    {
        self.lemma_precedes_by_rank(i, i);
        self.lemma_precedes_by_rank(i, j);
        self.lemma_precedes_by_rank(j, i);
        self.lemma_precedes_by_rank(j, k);
        self.lemma_precedes_by_rank(i, k);
    }

    /// In a sorted order, the place found for `x` has above it exactly the
    /// entries that are displayed above `x`.
    proof fn lemma_insert_place(self, order: Seq<int>, x: int)
        requires
            self.is_sorted(order),
            !order.contains(x),
        ensures
            0 <= self.insert_place(order, x) <= order.len(),
            forall|k: int|
                0 <= k < self.insert_place(order, x) ==> self.precedes(#[trigger] order[k], x),
            forall|k: int|
                self.insert_place(order, x) <= k < order.len() ==> self.precedes(
                    x,
                    #[trigger] order[k],
                ),
        decreases order.len(),
    {
        if order.len() == 0 {
        } else if self.precedes(order.last(), x) {
            assert forall|k: int| 0 <= k < order.len() implies self.precedes(
                #[trigger] order[k],
                x,
            ) by {
                if k < order.len() - 1 {
                    self.lemma_precedes_total(order[k], order.last(), x);
                }
            }
        } else {
            let rest = order.drop_last();
            assert(self.is_sorted(rest)) by {
                assert forall|a: int, b: int| 0 <= a < b < rest.len() implies self.precedes(
                    #[trigger] rest[a],
                    #[trigger] rest[b],
                ) by {
                    assert(rest[a] == order[a] && rest[b] == order[b]);
                }
            }
            assert(!rest.contains(x)) by {
                if rest.contains(x) {
                    let w = choose|w: int| 0 <= w < rest.len() && rest[w] == x;
                    assert(order[w] == x);
                }
            }
            self.lemma_insert_place(rest, x);
            let p = self.insert_place(rest, x);
            assert(order.last() != x);
            self.lemma_precedes_total(order.last(), x, x);
            assert forall|k: int| p <= k < order.len() implies self.precedes(
                x,
                #[trigger] order[k],
            ) by {
                if k < order.len() - 1 {
                    assert(order[k] == rest[k]);
                }
            }
            assert forall|k: int| 0 <= k < p implies self.precedes(#[trigger] order[k], x) by {
                assert(order[k] == rest[k]);
            }
        }
    }

    /// The display order of the first `m` records lists exactly those among
    /// them that pass the filter, each above the next.
    pub proof fn lemma_order_upto(self, m: int)
        requires
            0 <= m <= self.len(),
        ensures
            self.is_order_upto(m, self.order_upto(m)),
        decreases m,
    {
        if m > 0 {
            self.lemma_order_upto(m - 1);
            let before = self.order_upto(m - 1);
            let x = m - 1;
            if self.shows(x) {
                assert(!before.contains(x)) by {
                    if before.contains(x) {
                        let w = choose|w: int| 0 <= w < before.len() && before[w] == x;
                        assert(before[w] < m - 1);
                    }
                }
                assert(self.is_sorted(before));
                self.lemma_insert_place(before, x);
                let p = self.insert_place(before, x);
                let after = before.insert(p, x);
                assert(after == self.order_upto(m));
                assert forall|k: int| 0 <= k < after.len() implies 0 <= #[trigger] after[k] < m
                    && self.shows(after[k]) by {
                    if k < p {
                        assert(after[k] == before[k]);
                    } else if k > p {
                        assert(after[k] == before[k - 1]);
                    }
                }
                assert forall|i: int| 0 <= i < m && #[trigger] self.shows(i) implies after.contains(
                    i,
                ) by {
                    if i == x {
                        assert(after[p] == x);
                    } else {
                        assert(before.contains(i));
                        let w = choose|w: int| 0 <= w < before.len() && before[w] == i;
                        if w < p {
                            assert(after[w] == i);
                        } else {
                            assert(after[w + 1] == i);
                        }
                    }
                }
                assert forall|a: int, b: int| 0 <= a < b < after.len() implies self.precedes(
                    #[trigger] after[a],
                    #[trigger] after[b],
                ) by {
                    if b < p {
                        assert(after[a] == before[a] && after[b] == before[b]);
                    } else if b == p {
                        assert(after[a] == before[a]);
                    } else if a < p {
                        assert(after[a] == before[a] && after[b] == before[b - 1]);
                    } else if a == p {
                        assert(after[b] == before[b - 1]);
                    } else {
                        assert(after[a] == before[a - 1] && after[b] == before[b - 1]);
                    }
                }
            } else {
                let order = self.order_upto(m);
                assert(order == before);
                assert forall|i: int| 0 <= i < m && #[trigger] self.shows(i) implies order.contains(
                    i,
                ) by {
                    assert(i < m - 1);
                }
            }
        }
    }

    /// Two sorted orders that list the same places are the same order.
    pub proof fn lemma_sorted_unique(self, a: Seq<int>, b: Seq<int>)
        requires
            self.is_sorted(a),
            self.is_sorted(b),
            forall|x: int| a.contains(x) <==> b.contains(x),
        ensures
            a == b,
        decreases a.len(),
    {
        if a.len() == 0 {
            if b.len() > 0 {
                assert(b.contains(b[0]));
            }
            assert(a =~= b);
        } else {
            assert(a.contains(a[0]));
            assert(b.len() > 0) by {
                if b.len() == 0 {
                    let w = choose|w: int| 0 <= w < b.len() && b[w] == a[0];
                }
            }
            let x = a.last();
            let y = b.last();
            assert(a.contains(x));
            assert(b.contains(y));
            let kb = choose|kb: int| 0 <= kb < b.len() && b[kb] == x;
            let ka = choose|ka: int| 0 <= ka < a.len() && a[ka] == y;
            self.lemma_precedes_total(x, y, x);
            assert(x == y);
            let a_rest = a.drop_last();
            let b_rest = b.drop_last();
            assert forall|z: int| a_rest.contains(z) <==> b_rest.contains(z) by {
                self.lemma_precedes_total(z, z, z);
                if a_rest.contains(z) {
                    let w = choose|w: int| 0 <= w < a_rest.len() && a_rest[w] == z;
                    assert(a[w] == z);
                    assert(self.precedes(a[w], a[a.len() - 1]));
                    assert(a.contains(z));
                    let v = choose|v: int| 0 <= v < b.len() && b[v] == z;
                    assert(b_rest[v] == z);
                }
                if b_rest.contains(z) {
                    let w = choose|w: int| 0 <= w < b_rest.len() && b_rest[w] == z;
                    assert(b[w] == z);
                    assert(self.precedes(b[w], b[b.len() - 1]));
                    assert(b.contains(z));
                    let v = choose|v: int| 0 <= v < a.len() && a[v] == z;
                    assert(a_rest[v] == z);
                }
            }
            assert(self.is_sorted(a_rest)) by {
                assert forall|i: int, j: int| 0 <= i < j < a_rest.len() implies self.precedes(
                    #[trigger] a_rest[i],
                    #[trigger] a_rest[j],
                ) by {
                    assert(a_rest[i] == a[i] && a_rest[j] == a[j]);
                }
            }
            assert(self.is_sorted(b_rest)) by {
                assert forall|i: int, j: int| 0 <= i < j < b_rest.len() implies self.precedes(
                    #[trigger] b_rest[i],
                    #[trigger] b_rest[j],
                ) by {
                    assert(b_rest[i] == b[i] && b_rest[j] == b[j]);
                }
            }
            self.lemma_sorted_unique(a_rest, b_rest);
            assert(a =~= a_rest.push(x));
            assert(b =~= b_rest.push(y));
        }
    }

    /// The display order is the only order that lists exactly the records
    /// passing the filter, each above the next: the sort key, the pid and
    /// the enumeration order leave no choice.
    pub proof fn lemma_order_determined(self, order: Seq<int>)
        requires
            self.is_order(order),
        ensures
            self.is_order(self.order()),
            order == self.order(),
    {
        self.lemma_order_upto(self.len());
        let own = self.order();
        assert forall|x: int| order.contains(x) <==> own.contains(x) by {
            if order.contains(x) {
                let w = choose|w: int| 0 <= w < order.len() && order[w] == x;
                assert(self.shows(order[w]));
            }
            if own.contains(x) {
                let w = choose|w: int| 0 <= w < own.len() && own[w] == x;
                assert(self.shows(own[w]));
            }
        }
        self.lemma_sorted_unique(order, own);
    }

    /// Every row is the row of a record that passes the filter.
    pub proof fn lemma_rows_pass(self, k: int)
        requires
            0 <= k < self.rows().len(),
        ensures
            0 <= self.order()[k] < self.len(),
            self.rows()[k] == self.usage_at(self.order()[k]),
            self.filter_set.passes(self.rows()[k].record.state_code),
    {
        self.lemma_order_upto(self.len());
    }

    /// Every record that passes the filter has a row.
    pub proof fn lemma_rows_complete(self, i: int)
        requires
            0 <= i < self.len(),
            self.shows(i),
        ensures
            exists|k: int|
                0 <= k < self.rows().len() && self.order()[k] == i && #[trigger] self.rows()[k]
                    == self.usage_at(i),
    {
        self.lemma_order_upto(self.len());
        assert(self.order().contains(i));
        let k = choose|k: int| 0 <= k < self.order().len() && self.order()[k] == i;
        assert(self.rows()[k] == self.usage_at(i));
    }

    /// The rows are sorted: a row never stands before a row shown above
    /// it, neither by the key nor, where the key is equal, by the pid.
    pub proof fn lemma_rows_sorted(self, a: int, b: int)
        requires
            0 <= a < b < self.rows().len(),
        ensures
            !row_before(self.sort_key, self.rows()[b], self.rows()[a]),
    {
        self.lemma_order_upto(self.len());
        let i = self.order()[a];
        let j = self.order()[b];
        assert(self.precedes(i, j));
        reveal(TableView::precedes);
        self.lemma_key_before_by_rank(i, j);
        self.lemma_key_before_by_rank(j, i);
    }

    /// Without a sort key the rows are those of the records that pass the
    /// filter, in enumeration order.
    pub proof fn lemma_unsorted_rows(self)
        requires
            self.sort_key == SortKey::Unsorted,
        ensures
            self.rows() == filtered_rows(all_rows(self.snapshot), self.filter_set),
    {
        self.lemma_unsorted_upto(self.len());
        assert(all_rows(self.snapshot).take(self.len()) == all_rows(self.snapshot));
    }

    proof fn lemma_unsorted_upto(self, m: int)
        requires
            self.sort_key == SortKey::Unsorted,
            0 <= m <= self.len(),
        ensures
            self.order_upto(m).map_values(|i: int| self.usage_at(i)) == filtered_rows(
                all_rows(self.snapshot).take(m),
                self.filter_set,
            ),
            forall|k: int| 0 <= k < self.order_upto(m).len() ==> #[trigger] self.order_upto(m)[k] < m,
        decreases m,
    {
        let pass = |row: ProcessUsage| self.filter_set.passes(row.record.state_code);
        let to_row = |i: int| self.usage_at(i);
        if m > 0 {
            self.lemma_unsorted_upto(m - 1);
            let before = self.order_upto(m - 1);
            lemma_filter_step(all_rows(self.snapshot), pass, m - 1);
            if self.shows(m - 1) {
                if before.len() > 0 {
                    self.lemma_precedes_by_rank(before.last(), m - 1);
                }
                assert(self.insert_place(before, m - 1) == before.len());
                assert(self.order_upto(m) =~= before.push(m - 1));
                assert(before.push(m - 1).map_values(to_row) =~= before.map_values(to_row).push(
                    to_row(m - 1),
                ));
            }
        } else {
            assert(all_rows(self.snapshot).take(0).filter(pass) =~= Seq::<ProcessUsage>::empty())
                by {
                reveal(Seq::filter);
            }
            assert(self.order_upto(0).map_values(to_row) =~= Seq::<ProcessUsage>::empty());
        }
    }

    /// The rows depend on the snapshot, the sort key and the filter and on
    /// nothing else: two tables that agree in these show the same rows.
    pub proof fn lemma_rows_repeat(self, other: TableView)
        requires
            self.snapshot == other.snapshot,
            self.sort_key == other.sort_key,
            self.filter_set == other.filter_set,
        ensures
            self.rows() == other.rows(),
    {
    }

    /// Ordering by one key, then by another, then by the first again gives
    /// the rows that ordering by the first gave, as long as the snapshot and
    /// the filter stay.
    pub proof fn lemma_sort_round_trip(self, first: SortKey, second: SortKey)
        ensures
            self.with_sort(first).with_sort(second).with_sort(first).rows() == self.with_sort(
                first,
            ).rows(),
    {
        assert(self.with_sort(first).with_sort(second).with_sort(first) == self.with_sort(first));
    }

    /// Where the system-wide tick counter is zero, every row shows a
    /// processor share of exactly zero.
    pub proof fn lemma_zero_ticks_zero_share(self, k: int)
        requires
            self.snapshot.total_cpu_ticks == 0,
            0 <= k < self.rows().len(),
        ensures
            self.rows()[k].cpu_usage.is_zero(),
    {
    }
}

} // verus!
