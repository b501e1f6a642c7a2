//! The mathematical model of the store: a sequence of items and a counter.

use crate::text::{is_blank, lemma_trimmed_empty_iff_blank, lemma_trimmed_is_middle, trimmed};
use crate::time::Timestamp;
use crate::todo::TodoView;
use vstd::prelude::*;

verus! {

/// What a store stands for: its items in the order in which they were added,
/// and the identifier that the next item will get.
pub struct StoreView {
    pub items: Seq<TodoView>,
    pub next_id: int,
}

impl StoreView {
    /// The store at the start: no items, and 1 as the first identifier.
    pub open spec fn empty() -> StoreView {
        StoreView { items: Seq::empty(), next_id: 1 }
    }

    /// What holds of every store that the operations can reach: identifiers
    /// are positive, below the counter, and grow along the list (so no two
    /// are equal), and every title is a title.
    pub open spec fn wf(self) -> bool {
        &&& 1 <= self.next_id
        &&& forall|i: int| 0 <= i < self.items.len() ==> 1 <= (#[trigger] self.items[i]).id < self.next_id
        &&& forall|i: int, j: int|
            0 <= i < j < self.items.len() ==> (#[trigger] self.items[i]).id < (#[trigger] self.items[j]).id
        &&& forall|i: int| 0 <= i < self.items.len() ==> (#[trigger] self.items[i]).titled()
    }

    /// No item was completed before it was created.
    pub open spec fn chronological(self) -> bool {
        forall|i: int| 0 <= i < self.items.len() ==> (#[trigger] self.items[i]).chronological()
    }

    /// Whether an item has the identifier `id`.
    pub open spec fn has_id(self, id: int) -> bool {
        exists|i: int| 0 <= i < self.items.len() && (#[trigger] self.items[i]).id == id
    }

    /// The place of the first item with the identifier `id`. Meaningful where
    /// `has_id(id)`.
    pub open spec fn position(self, id: int) -> int {
        choose|i: int|
            0 <= i < self.items.len() && (#[trigger] self.items[i]).id == id && forall|j: int|
                0 <= j < i ==> (#[trigger] self.items[j]).id != id
    }

    /// The store after `raw` was submitted at `now`. A blank `raw` changes
    /// nothing. Otherwise a new, incomplete item with the trimmed text as its
    /// title and the counter as its identifier stands at the end, and the
    /// counter has grown by one.
    pub open spec fn after_add(self, raw: Seq<char>, now: Timestamp) -> StoreView {
        if is_blank(raw) {
            self
        } else {
            StoreView {
                items: self.items.push(TodoView::fresh(self.next_id, trimmed(raw), now)),
                next_id: self.next_id + 1,
            }
        }
    }

    /// The store after the item `id` was toggled at `now`: the first item with
    /// that identifier is toggled, and nothing changes where there is none.
    pub open spec fn after_toggle(self, id: int, now: Timestamp) -> StoreView {
        if self.has_id(id) {
            StoreView {
                items: self.items.update(
                    self.position(id),
                    self.items[self.position(id)].toggled(now),
                ),
                ..self
            }
        } else {
            self
        }
    }

    /// The store after the item `id` was deleted: every item with that
    /// identifier is gone, the others keep their order, and the counter stays.
    pub open spec fn after_delete(self, id: int) -> StoreView {
        StoreView { items: self.items.filter(|t: TodoView| t.id != id), ..self }
    }

    /// The number of completed items.
    pub open spec fn completed_count(self) -> nat {
        self.items.filter(|t: TodoView| t.is_completed()).len()
    }

    /// The pair that `count` reports: completed items, all items.
    pub open spec fn count(self) -> (nat, nat) {
        (self.completed_count(), self.items.len())
    }
}

/// Where the first item with the identifier `id` stands, `position` finds it.
pub proof fn lemma_position(m: StoreView, id: int, i: int)
    requires
        0 <= i < m.items.len(),
        m.items[i].id == id,
        forall|j: int| 0 <= j < i ==> (#[trigger] m.items[j]).id != id,
    ensures
        m.has_id(id),
        m.position(id) == i,
{
    let p = m.position(id);
    assert(0 <= p < m.items.len() && m.items[p].id == id && forall|j: int|
        0 <= j < p ==> (#[trigger] m.items[j]).id != id);
    if p < i {
        assert(m.items[p].id != id);
    }
    if i < p {
        assert(m.items[i].id != id);
    }
}

/// Where an item has the identifier `id`, `position` is the place of the first
/// such item.
pub proof fn lemma_position_of_present(m: StoreView, id: int)
    requires
        m.has_id(id),
    ensures
        0 <= m.position(id) < m.items.len(),
        m.items[m.position(id)].id == id,
        forall|j: int| 0 <= j < m.position(id) ==> (#[trigger] m.items[j]).id != id,
{
    let k = choose|k: int| 0 <= k < m.items.len() && (#[trigger] m.items[k]).id == id;
    lemma_first_with_id(m.items, id, k);
}

/// Before any item with the identifier `id` stands a first one.
proof fn lemma_first_with_id(items: Seq<TodoView>, id: int, k: int)
    requires
        0 <= k < items.len(),
        items[k].id == id,
    ensures
        exists|i: int|
            0 <= i < items.len() && (#[trigger] items[i]).id == id && forall|j: int|
                0 <= j < i ==> (#[trigger] items[j]).id != id,
    decreases k,
{
    if exists|j: int| 0 <= j < k && (#[trigger] items[j]).id == id {
        let j = choose|j: int| 0 <= j < k && (#[trigger] items[j]).id == id;
        lemma_first_with_id(items, id, j);
    } else {
        assert(0 <= k < items.len() && items[k].id == id && forall|j: int|
            0 <= j < k ==> (#[trigger] items[j]).id != id);
    }
}

/// Adding keeps the store well formed and in time order. A blank text changes
/// nothing; any other text adds one item at the end, under an identifier that
/// no item had.
pub proof fn lemma_add_keeps_wf(m: StoreView, raw: Seq<char>, now: Timestamp)
    requires
        m.wf(),
    ensures
        m.after_add(raw, now).wf(),
        m.chronological() ==> m.after_add(raw, now).chronological(),
        is_blank(raw) ==> m.after_add(raw, now) == m,
        !is_blank(raw) ==> m.after_add(raw, now).items.len() == m.items.len() + 1,
        !is_blank(raw) ==> m.after_add(raw, now).next_id == m.next_id + 1,
        !is_blank(raw) ==> m.after_add(raw, now).items.last() == TodoView::fresh(
            m.next_id,
            trimmed(raw),
            now,
        ),
        !m.has_id(m.next_id),
{
    if !is_blank(raw) {
        lemma_trimmed_empty_iff_blank(raw);
        lemma_trimmed_is_middle(raw);
    }
    if m.has_id(m.next_id) {
        let k = choose|k: int| 0 <= k < m.items.len() && (#[trigger] m.items[k]).id == m.next_id;
        assert(m.items[k].id < m.next_id);
    }
}

/// Toggling keeps the store well formed, its length and its counter. It keeps
/// the time order where the toggled item was not created after `now`.
pub proof fn lemma_toggle_keeps_wf(m: StoreView, id: int, now: Timestamp)
    requires
        m.wf(),
    ensures
        m.after_toggle(id, now).wf(),
        m.after_toggle(id, now).items.len() == m.items.len(),
        m.after_toggle(id, now).next_id == m.next_id,
        !m.has_id(id) ==> m.after_toggle(id, now) == m,
        m.chronological() && (m.has_id(id) ==> m.items[m.position(id)].created.le(now))
            ==> m.after_toggle(id, now).chronological(),
{
    if m.has_id(id) {
        lemma_position_of_present(m, id);
    }
}

/// Deleting keeps the store well formed and in time order, and the counter as
/// it was.
pub proof fn lemma_delete_keeps_wf(m: StoreView, id: int)
    requires
        m.wf(),
    ensures
        m.after_delete(id).wf(),
        m.after_delete(id).next_id == m.next_id,
        m.chronological() ==> m.after_delete(id).chronological(),
{
    if m.has_id(id) {
        lemma_delete_present(m, id);
        let p = m.position(id);
        let after = m.after_delete(id);
        assert forall|i: int| 0 <= i < after.items.len() implies #[trigger] after.items[i] == m.items[if i
            < p {
            i
        } else {
            i + 1
        }] by {}
    } else {
        lemma_delete_absent(m, id);
    }
}

/// Deleting an identifier that no item has changes nothing.
pub proof fn lemma_delete_absent(m: StoreView, id: int)
    requires
        !m.has_id(id),
    ensures
        m.after_delete(id) == m,
{
    assert forall|i: int| 0 <= i < m.items.len() implies (#[trigger] m.items[i]).id != id by {
        if m.items[i].id == id {
            assert(m.has_id(id));
        }
    }
    lemma_keep_all(m.items, id);
}

/// Deleting the identifier of an item removes that one item: the others stay,
/// in their order, and the counter stays.
pub proof fn lemma_delete_present(m: StoreView, id: int)
    requires
        m.wf(),
        m.has_id(id),
    ensures
        0 <= m.position(id) < m.items.len(),
        m.items[m.position(id)].id == id,
        m.after_delete(id).items == m.items.remove(m.position(id)),
        m.after_delete(id).items.len() == m.items.len() - 1,
        m.after_delete(id).next_id == m.next_id,
        !m.after_delete(id).has_id(id),
{
    lemma_position_of_present(m, id);
    let p = m.position(id);
    assert forall|j: int| 0 <= j < m.items.len() && j != p implies (#[trigger] m.items[j]).id
        != id by {
        if j < p {
            assert(m.items[j].id < m.items[p].id);
        } else {
            assert(m.items[p].id < m.items[j].id);
        }
    }
    lemma_drop_one(m.items, id, p);
    let after = m.after_delete(id);
    if after.has_id(id) {
        let k = choose|k: int| 0 <= k < after.items.len() && (#[trigger] after.items[k]).id == id;
        if k < p {
            assert(after.items[k] == m.items[k]);
        } else {
            assert(after.items[k] == m.items[k + 1]);
        }
    }
}

/// A filter by identifier keeps a list in which no item has the identifier.
proof fn lemma_keep_all(items: Seq<TodoView>, id: int)
    requires
        forall|i: int| 0 <= i < items.len() ==> (#[trigger] items[i]).id != id,
    ensures
        items.filter(|t: TodoView| t.id != id) == items,
    decreases items.len(),
{
    reveal(Seq::filter);
    if items.len() > 0 {
        let front = items.drop_last();
        assert forall|i: int| 0 <= i < front.len() implies (#[trigger] front[i]).id != id by {
            assert(front[i] == items[i]);
        }
        lemma_keep_all(front, id);
        assert(items.last().id != id);
        assert(front.push(items.last()) =~= items);
    }
}

/// A filter by identifier removes the item at `p` where that item alone has
/// the identifier.
proof fn lemma_drop_one(items: Seq<TodoView>, id: int, p: int)
    requires
        0 <= p < items.len(),
        items[p].id == id,
        forall|j: int| 0 <= j < items.len() && j != p ==> (#[trigger] items[j]).id != id,
    ensures
        items.filter(|t: TodoView| t.id != id) == items.remove(p),
    decreases items.len(),
{
    reveal(Seq::filter);
    let front = items.drop_last();
    if p == items.len() - 1 {
        assert forall|i: int| 0 <= i < front.len() implies (#[trigger] front[i]).id != id by {
            assert(front[i] == items[i]);
        }
        lemma_keep_all(front, id);
        assert(front =~= items.remove(p));
    } else {
        assert forall|j: int| 0 <= j < front.len() && j != p implies (#[trigger] front[j]).id
            != id by {
            assert(front[j] == items[j]);
        }
        assert(front[p] == items[p]);
        lemma_drop_one(front, id, p);
        assert(items.last().id != id);
        assert(front.remove(p).push(items.last()) =~= items.remove(p));
    }
}

} // verus!
