//! Sequences of operations, and what holds of every store that they lead to.

use crate::model::{
    lemma_add_keeps_wf, lemma_delete_absent, lemma_delete_keeps_wf, lemma_delete_present,
    lemma_position, lemma_position_of_present, lemma_toggle_keeps_wf, StoreView,
};
use crate::time::Timestamp;
use crate::todo::TodoView;
use vstd::prelude::*;

verus! {

/// One operation on a store, with the time at which it happens where the
/// operation reads the clock.
pub enum Op {
    Add { raw: Seq<char>, now: Timestamp },
    Toggle { id: int, now: Timestamp },
    Delete { id: int },
}

impl Op {
    /// The clock reading that the operation carries, if any.
    pub open spec fn time(self) -> Option<Timestamp> {
        match self {
            Op::Add { raw, now } => Some(now),
            Op::Toggle { id, now } => Some(now),
            Op::Delete { id } => None,
        }
    }
}

impl StoreView {
    /// The store after one operation.
    pub open spec fn apply(self, op: Op) -> StoreView {
        match op {
            Op::Add { raw, now } => self.after_add(raw, now),
            Op::Toggle { id, now } => self.after_toggle(id, now),
            Op::Delete { id } => self.after_delete(id),
        }
    }

    /// The store after the operations `ops`, first to last.
    pub open spec fn run(self, ops: Seq<Op>) -> StoreView
        decreases ops.len(),
    {
        if ops.len() == 0 {
            self
        } else {
            self.run(ops.drop_last()).apply(ops.last())
        }
    }

    /// Every item was created at `t` or before.
    pub open spec fn created_by(self, t: Timestamp) -> bool {
        forall|i: int| 0 <= i < self.items.len() ==> (#[trigger] self.items[i]).created.le(t)
    }
}

/// The clock readings in `ops` never go back.
pub open spec fn clock_never_goes_back(ops: Seq<Op>) -> bool {
    forall|j: int, k: int|
        0 <= j < k < ops.len() && (#[trigger] ops[j]).time() is Some && (#[trigger] ops[k]).time() is Some
            ==> ops[j].time()->0.le(ops[k].time()->0)
}

/// No reading in `ops` is later than `t`.
pub open spec fn read_by(ops: Seq<Op>, t: Timestamp) -> bool {
    forall|k: int|
        0 <= k < ops.len() && (#[trigger] ops[k]).time() is Some ==> ops[k].time()->0.le(t)
}

/// The number of completed items is never more than the number of items.
pub proof fn lemma_count_bounded(m: StoreView)
    ensures
        m.count().0 <= m.count().1,
        m.count().1 == m.items.len(),
        m.count().0 == m.items.filter(|t: TodoView| t.is_completed()).len(),
{
    m.items.lemma_filter_len(|t: TodoView| t.is_completed());
}

/// One operation keeps a well-formed store well formed, and never lowers the
/// counter.
pub proof fn lemma_apply_keeps_wf(m: StoreView, op: Op)
    requires
        m.wf(),
    ensures
        m.apply(op).wf(),
        m.apply(op).next_id >= m.next_id,
        m.apply(op).count().0 <= m.apply(op).count().1,
{
    match op {
        Op::Add { raw, now } => lemma_add_keeps_wf(m, raw, now),
        Op::Toggle { id, now } => lemma_toggle_keeps_wf(m, id, now),
        Op::Delete { id } => lemma_delete_keeps_wf(m, id),
    }
    lemma_count_bounded(m.apply(op));
}

/// Whatever operations are run on a well-formed store, the store stays well
/// formed, the counter never goes down, and the count of completed items
/// stays within the count of all items.
pub proof fn lemma_run_keeps_wf(m: StoreView, ops: Seq<Op>)
    requires
        m.wf(),
    ensures
        m.run(ops).wf(),
        m.run(ops).next_id >= m.next_id,
        m.run(ops).count().0 <= m.run(ops).count().1,
    decreases ops.len(),
{
    if ops.len() > 0 {
        lemma_run_keeps_wf(m, ops.drop_last());
        lemma_apply_keeps_wf(m.run(ops.drop_last()), ops.last());
    } else {
        lemma_count_bounded(m);
    }
}

/// Every store that operations reach from the empty store is well formed:
/// its identifiers are distinct and below the counter, and its titles are
/// trimmed and not empty.
pub proof fn lemma_reachable_wf(ops: Seq<Op>)
    ensures
        StoreView::empty().run(ops).wf(),
        StoreView::empty().run(ops).count().0 <= StoreView::empty().run(ops).count().1,
{
    lemma_run_keeps_wf(StoreView::empty(), ops);
}

/// In a well-formed store no two items have the same identifier.
pub proof fn lemma_ids_distinct(m: StoreView, i: int, j: int)
    requires
        m.wf(),
        0 <= i < m.items.len(),
        0 <= j < m.items.len(),
        i != j,
    ensures
        m.items[i].id != m.items[j].id,
{
    if i < j {
        assert(m.items[i].id < m.items[j].id);
    } else {
        assert(m.items[j].id < m.items[i].id);
    }
}

/// One operation brings no identifier below the counter into the store.
proof fn lemma_apply_brings_no_old_id(m: StoreView, op: Op, id: int)
    requires
        m.wf(),
        id < m.next_id,
        !m.has_id(id),
    ensures
        !m.apply(op).has_id(id),
{
    let after = m.apply(op);
    lemma_apply_keeps_wf(m, op);
    if after.has_id(id) {
        let k = choose|k: int| 0 <= k < after.items.len() && (#[trigger] after.items[k]).id == id;
        match op {
            Op::Add { raw, now } => {
                lemma_add_keeps_wf(m, raw, now);
                if k < m.items.len() {
                    assert(m.items[k].id == id);
                }
            },
            Op::Toggle { id: target, now } => {
                lemma_toggle_keeps_wf(m, target, now);
                if m.has_id(target) {
                    lemma_position_of_present(m, target);
                }
                assert(m.items[k].id == id);
            },
            Op::Delete { id: target } => {
                if m.has_id(target) {
                    lemma_delete_present(m, target);
                    let p = m.position(target);
                    if k < p {
                        assert(m.items[k].id == id);
                    } else {
                        assert(m.items[k + 1].id == id);
                    }
                } else {
                    lemma_delete_absent(m, target);
                    assert(m.items[k].id == id);
                }
            },
        }
    }
}

/// Identifiers are never given twice: one below the counter that no item has
/// (it was deleted, or is not positive) is the identifier of no item ever
/// after, whatever operations follow.
pub proof fn lemma_ids_never_reused(m: StoreView, ops: Seq<Op>, id: int)
    requires
        m.wf(),
        id < m.next_id,
        !m.has_id(id),
    ensures
        !m.run(ops).has_id(id),
    decreases ops.len(),
{
    if ops.len() > 0 {
        lemma_ids_never_reused(m, ops.drop_last(), id);
        lemma_run_keeps_wf(m, ops.drop_last());
        lemma_apply_brings_no_old_id(m.run(ops.drop_last()), ops.last(), id);
    }
}

/// After a deletion the deleted identifier never comes back.
pub proof fn lemma_deleted_id_stays_out(m: StoreView, id: int, ops: Seq<Op>)
    requires
        m.wf(),
        m.has_id(id),
    ensures
        !m.after_delete(id).run(ops).has_id(id),
{
    lemma_delete_present(m, id);
    lemma_delete_keeps_wf(m, id);
    lemma_position_of_present(m, id);
    lemma_ids_never_reused(m.after_delete(id), ops, id);
}

/// Two toggles of one identifier leave every item as completed or not as it
/// was. All items but the toggled one are untouched; the toggled one is as
/// before if it was incomplete, and completed at the time of the second toggle
/// if it was completed. One toggle alone flips it.
pub proof fn lemma_toggle_twice_in_store(
    m: StoreView,
    id: int,
    first: Timestamp,
    second: Timestamp,
)
    ensures
        ({
            let once = m.after_toggle(id, first);
            let twice = once.after_toggle(id, second);
            let p = m.position(id);
            &&& twice.next_id == m.next_id
            &&& twice.items.len() == m.items.len()
            &&& forall|i: int|
                0 <= i < m.items.len() ==> (#[trigger] twice.items[i]).is_completed()
                    == m.items[i].is_completed()
            &&& !m.has_id(id) ==> twice == m
            &&& m.has_id(id) ==> {
                &&& 0 <= p < m.items.len()
                &&& once.items[p].is_completed() != m.items[p].is_completed()
                &&& forall|i: int|
                    0 <= i < m.items.len() && i != p ==> #[trigger] twice.items[i] == m.items[i]
                &&& !m.items[p].is_completed() ==> twice == m
                &&& m.items[p].is_completed() ==> twice.items[p] == (TodoView {
                    completed: Some(second),
                    ..m.items[p]
                })
            }
        }),
{
    if m.has_id(id) {
        lemma_position_of_present(m, id);
        let p = m.position(id);
        let once = m.after_toggle(id, first);
        assert(once.items[p].id == id);
        assert forall|j: int| 0 <= j < p implies (#[trigger] once.items[j]).id != id by {
            assert(once.items[j] == m.items[j]);
        }
        lemma_position(once, id, p);
        let twice = once.after_toggle(id, second);
        if !m.items[p].is_completed() {
            assert(twice.items =~= m.items);
        }
    }
}

/// Where the clock never goes back, no item is completed before it was
/// created: a store in time order, none of whose items was created after any
/// reading in `ops`, is in time order after `ops`.
pub proof fn lemma_run_keeps_time_order(m: StoreView, ops: Seq<Op>)
    requires
        m.wf(),
        m.chronological(),
        clock_never_goes_back(ops),
        forall|k: int|
            0 <= k < ops.len() && (#[trigger] ops[k]).time() is Some ==> m.created_by(
                ops[k].time()->0,
            ),
    ensures
        m.run(ops).chronological(),
        forall|t: Timestamp|
            m.created_by(t) && read_by(ops, t) ==> #[trigger] m.run(ops).created_by(t),
    decreases ops.len(),
{
    if ops.len() > 0 {
        let front = ops.drop_last();
        let op = ops.last();
        assert forall|k: int| 0 <= k < front.len() implies #[trigger] front[k] == ops[k] by {}
        lemma_run_keeps_time_order(m, front);
        lemma_run_keeps_wf(m, front);
        let mid = m.run(front);
        let after = mid.apply(op);
        assert(after == m.run(ops));
        if op.time() is Some {
            let now = op.time()->0;
            assert(ops[ops.len() - 1].time() is Some);
            assert(m.created_by(now));
            assert(read_by(front, now)) by {
                assert forall|k: int|
                    0 <= k < front.len() && (#[trigger] front[k]).time() is Some implies front[k].time()->0.le(
                    now,
                ) by {
                    assert(ops[k].time() is Some);
                    assert(ops[k].time()->0.le(ops[ops.len() - 1].time()->0));
                }
            }
            assert(mid.created_by(now));
        }
        match op {
            Op::Add { raw, now } => {
                lemma_add_keeps_wf(mid, raw, now);
            },
            Op::Toggle { id, now } => {
                lemma_toggle_keeps_wf(mid, id, now);
                if mid.has_id(id) {
                    lemma_position_of_present(mid, id);
                }
            },
            Op::Delete { id } => {
                lemma_delete_keeps_wf(mid, id);
            },
        }
        assert forall|t: Timestamp| m.created_by(t) && read_by(ops, t) implies #[trigger] after.created_by(
            t,
        ) by {
            assert(read_by(front, t)) by {
                assert forall|k: int|
                    0 <= k < front.len() && (#[trigger] front[k]).time() is Some implies front[k].time()->0.le(
                    t,
                ) by {
                    assert(ops[k].time() is Some);
                }
            }
            assert(mid.created_by(t));
            lemma_apply_keeps_created_by(mid, op, t);
        }
    }
}

/// One operation that does not read the clock after `t` leaves every item
/// created at `t` or before.
proof fn lemma_apply_keeps_created_by(m: StoreView, op: Op, t: Timestamp)
    requires
        m.wf(),
        m.created_by(t),
        op.time() is Some ==> op.time()->0.le(t),
    ensures
        m.apply(op).created_by(t),
{
    let after = m.apply(op);
    match op {
        Op::Add { raw, now } => {
            lemma_add_keeps_wf(m, raw, now);
        },
        Op::Toggle { id, now } => {
            if m.has_id(id) {
                lemma_position_of_present(m, id);
            }
        },
        Op::Delete { id } => {
            if m.has_id(id) {
                lemma_delete_present(m, id);
                let p = m.position(id);
                assert forall|i: int| 0 <= i < after.items.len() implies (#[trigger] after.items[i]).created.le(
                    t,
                ) by {
                    if i < p {
                        assert(after.items[i] == m.items[i]);
                    } else {
                        assert(after.items[i] == m.items[i + 1]);
                    }
                }
            } else {
                lemma_delete_absent(m, id);
            }
        },
    }
}

/// From the empty store, with a clock that never goes back, every item that
/// is completed was completed at or after its creation.
pub proof fn lemma_reachable_in_time_order(ops: Seq<Op>)
    requires
        clock_never_goes_back(ops),
    ensures
        StoreView::empty().run(ops).chronological(),
{
    lemma_run_keeps_time_order(StoreView::empty(), ops);
}

} // verus!
