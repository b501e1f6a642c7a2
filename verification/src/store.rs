//! The store: the list of items and the counter that numbers them.

use crate::model::{
    lemma_add_keeps_wf, lemma_delete_absent, lemma_delete_keeps_wf, lemma_delete_present,
    lemma_position, lemma_toggle_keeps_wf, StoreView,
};
use crate::text::{is_blank, is_blank_text, lemma_trimmed_empty_iff_blank, trim};
use crate::time::{clock_now, Timestamp};
use crate::todo::{Todo, TodoView};
use vstd::prelude::*;

verus! {

/// What a list of items stands for, item by item.
pub open spec fn views_of(todos: Seq<Todo>) -> Seq<TodoView> {
    Seq::new(todos.len(), |i: int| todos[i]@)
}

/// The items in the order in which they were added, and the identifier that
/// the next item gets. Identifiers start at 1 and are never given twice.
pub struct TodoStore {
    todos: Vec<Todo>,
    next_id: i32,
}

impl View for TodoStore {
    type V = StoreView;

    closed spec fn view(&self) -> StoreView {
        StoreView { items: views_of(self.todos@), next_id: self.next_id as int }
    }
}

impl TodoStore {
    /// The store is well formed, and its counter is an `i32`.
    pub open spec fn wf(&self) -> bool {
        self@.wf() && self@.next_id <= i32::MAX
    }

    /// An empty store, whose first item will be number 1.
    pub fn new() -> (r: TodoStore)
        ensures
            r@ == StoreView::empty(),
            r.wf(),
    {
        let r = TodoStore { todos: Vec::new(), next_id: 1 };
        assert(r@.items =~= Seq::<TodoView>::empty());
        r
    }

    /// The place of the item with the identifier `id`, if there is one.
    pub fn find(&self, id: i32) -> (r: Option<usize>)
        ensures
            r is Some <==> self@.has_id(id as int),
            r is Some ==> r->0 == self@.position(id as int) && r->0 < self@.items.len(),
    {
        let n: usize = self.todos.len();
        let mut i: usize = 0;
        while i < n
            invariant
                n == self.todos.len(),
                i <= n,
                forall|j: int| 0 <= j < i ==> (#[trigger] self@.items[j]).id != id,
            decreases n - i,
        {
            if self.todos[i].id == id {
                proof {
                    lemma_position(self@, id as int, i as int);
                }
                return Some(i);
            }
            i = i + 1;
        }
        proof {
            if self@.has_id(id as int) {
                let k = choose|k: int|
                    0 <= k < self@.items.len() && (#[trigger] self@.items[k]).id == id as int;
                assert(self@.items[k].id != id);
            }
        }
        None
    }

    /// Appends a new, incomplete item with the given title, created at `now`,
    /// and returns its identifier.
    fn insert(&mut self, title: String, now: Timestamp) -> (id: i32)
        requires
            old(self).wf(),
            old(self)@.next_id < i32::MAX,
        ensures
            id == old(self)@.next_id,
            final(self)@.items == old(self)@.items.push(
                TodoView::fresh(old(self)@.next_id, title@, now),
            ),
            final(self)@.next_id == old(self)@.next_id + 1,
    {
        let id: i32 = self.next_id;
        self.todos.push(Todo { id, title, created: now, completed: None });
        self.next_id = id + 1;
        assert(self@.items =~= old(self)@.items.push(
            TodoView::fresh(old(self)@.next_id, title@, now),
        ));
        id
    }

    /// Whether `raw` can be submitted: a text that adds an item needs a counter
    /// that can still grow.
    pub open spec fn accepts(&self, raw: Seq<char>) -> bool {
        is_blank(raw) || self@.next_id < i32::MAX
    }

    /// Whether `raw` can be submitted.
    pub fn can_add(&self, raw: &str) -> (r: bool)
        ensures
            r == self.accepts(raw@),
    {
        self.next_id < i32::MAX || is_blank_text(raw)
    }

    /// Submits `raw` as the title of a new item, created at `now`.
    ///
    /// A text of nothing but whitespace is ignored: the store stays as it is
    /// and the result is `None`. Otherwise the trimmed text becomes the title
    /// of a new, incomplete item at the end of the list, the counter grows by
    /// one, and the result is the new item's identifier.
    pub fn add_at(&mut self, raw: &str, now: Timestamp) -> (r: Option<i32>)
        requires
            old(self).wf(),
            old(self).accepts(raw@),
        ensures
            final(self).wf(),
            final(self)@ == old(self)@.after_add(raw@, now),
            r == if is_blank(raw@) {
                None
            } else {
                Some(old(self)@.next_id as i32)
            },
            old(self)@.chronological() ==> final(self)@.chronological(),
    {
        let title = trim(raw);
        proof {
            lemma_trimmed_empty_iff_blank(raw@);
            lemma_add_keeps_wf(old(self)@, raw@, now);
        }
        if title.as_str().is_empty() {
            None
        } else {
            Some(self.insert(title, now))
        }
    }

    /// Submits `raw` as the title of a new item, created at the time that the
    /// system clock gives. The clock is read only where an item is added.
    pub fn add(&mut self, raw: &str) -> (r: Option<i32>)
        requires
            old(self).wf(),
            old(self).accepts(raw@),
        ensures
            final(self).wf(),
            exists|now: Timestamp| final(self)@ == #[trigger] old(self)@.after_add(raw@, now),
            r == if is_blank(raw@) {
                None
            } else {
                Some(old(self)@.next_id as i32)
            },
            old(self)@.chronological() ==> final(self)@.chronological(),
    {
        let title = trim(raw);
        proof {
            lemma_trimmed_empty_iff_blank(raw@);
        }
        if title.as_str().is_empty() {
            proof {
                let any = Timestamp { secs: 0, nanos: 0 };
                lemma_add_keeps_wf(old(self)@, raw@, any);
                assert(self@ == old(self)@.after_add(raw@, any));
            }
            None
        } else {
            let now = clock_now();
            proof {
                lemma_add_keeps_wf(old(self)@, raw@, now);
            }
            let id = self.insert(title, now);
            assert(self@ == old(self)@.after_add(raw@, now));
            Some(id)
        }
    }

    /// Sets the completion time of the item at place `i`.
    fn set_completed(&mut self, i: usize, completed: Option<Timestamp>)
        requires
            i < old(self)@.items.len(),
        ensures
            final(self)@.items == old(self)@.items.update(
                i as int,
                (TodoView { completed, ..old(self)@.items[i as int] }),
            ),
            final(self)@.next_id == old(self)@.next_id,
    {
        self.todos[i].completed = completed;
        assert(self@.items =~= old(self)@.items.update(
            i as int,
            (TodoView { completed, ..old(self)@.items[i as int] }),
        ));
    }

    /// Toggles the item with the identifier `id`, at the time `now`.
    ///
    /// An incomplete item becomes completed at `now`, a completed one becomes
    /// incomplete. Where no item has that identifier nothing changes. The
    /// result says whether an item was toggled.
    pub fn toggle_at(&mut self, id: i32, now: Timestamp) -> (r: bool)
        requires
            old(self).wf(),
        ensures
            final(self).wf(),
            final(self)@ == old(self)@.after_toggle(id as int, now),
            r == old(self)@.has_id(id as int),
            old(self)@.chronological() && (r ==> old(self)@.items[old(self)@.position(
                id as int,
            )].created.le(now)) ==> final(self)@.chronological(),
    {
        proof {
            lemma_toggle_keeps_wf(old(self)@, id as int, now);
        }
        match self.find(id) {
            Some(i) => {
                let completed = if self.todos[i].completed.is_some() {
                    None
                } else {
                    Some(now)
                };
                self.set_completed(i, completed);
                true
            },
            None => false,
        }
    }

    /// Toggles the item with the identifier `id`, at the time that the system
    /// clock gives. The clock is read only where an item becomes completed.
    pub fn toggle(&mut self, id: i32) -> (r: bool)
        requires
            old(self).wf(),
        ensures
            final(self).wf(),
            exists|now: Timestamp| final(self)@ == #[trigger] old(self)@.after_toggle(id as int, now),
            r == old(self)@.has_id(id as int),
    {
        match self.find(id) {
            Some(i) => {
                if self.todos[i].completed.is_some() {
                    let ghost any = Timestamp { secs: 0, nanos: 0 };
                    self.set_completed(i, None);
                    proof {
                        lemma_toggle_keeps_wf(old(self)@, id as int, any);
                        assert(self@ == old(self)@.after_toggle(id as int, any));
                    }
                } else {
                    let now = clock_now();
                    self.set_completed(i, Some(now));
                    proof {
                        lemma_toggle_keeps_wf(old(self)@, id as int, now);
                        assert(self@ == old(self)@.after_toggle(id as int, now));
                    }
                }
                true
            },
            None => {
                proof {
                    let any = Timestamp { secs: 0, nanos: 0 };
                    lemma_toggle_keeps_wf(old(self)@, id as int, any);
                    assert(self@ == old(self)@.after_toggle(id as int, any));
                }
                false
            },
        }
    }

    /// Deletes the item with the identifier `id`.
    ///
    /// The other items keep their order and the counter stays as it is, so
    /// the identifier is not given again. Where no item has that identifier
    /// nothing changes. The result says whether an item was deleted.
    pub fn delete(&mut self, id: i32) -> (r: bool)
        requires
            old(self).wf(),
        ensures
            final(self).wf(),
            final(self)@ == old(self)@.after_delete(id as int),
            r == old(self)@.has_id(id as int),
            r ==> final(self)@.items == old(self)@.items.remove(old(self)@.position(id as int)),
            !r ==> final(self)@ == old(self)@,
            !final(self)@.has_id(id as int),
            old(self)@.chronological() ==> final(self)@.chronological(),
    {
        proof {
            lemma_delete_keeps_wf(old(self)@, id as int);
        }
        match self.find(id) {
            Some(i) => {
                self.todos.remove(i);
                proof {
                    lemma_delete_present(old(self)@, id as int);
                    assert(self@.items =~= old(self)@.items.remove(i as int));
                }
                true
            },
            None => {
                proof {
                    lemma_delete_absent(old(self)@, id as int);
                }
                false
            },
        }
    }

    /// The number of completed items, and the number of all items.
    pub fn count(&self) -> (r: (usize, usize))
        ensures
            r.0 == self@.completed_count(),
            r.1 == self@.items.len(),
            r.0 <= r.1,
    {
        let n: usize = self.todos.len();
        let mut done: usize = 0;
        let mut i: usize = 0;
        while i < n
            invariant
                n == self.todos.len(),
                i <= n,
                done <= i,
                done == self@.items.take(i as int).filter(|t: TodoView| t.is_completed()).len(),
            decreases n - i,
        {
            proof {
                let front = self@.items.take(i as int);
                assert(self@.items.take(i + 1) =~= front.push(self@.items[i as int]));
                front.lemma_filter_len_push(|t: TodoView| t.is_completed(), self@.items[i as int]);
            }
            if self.todos[i].completed.is_some() {
                done = done + 1;
            }
            i = i + 1;
        }
        assert(self@.items.take(n as int) =~= self@.items);
        (done, n)
    }

    /// The number of items.
    pub fn len(&self) -> (r: usize)
        ensures
            r == self@.items.len(),
    {
        self.todos.len()
    }

    /// Whether the store holds no item.
    pub fn is_empty(&self) -> (r: bool)
        ensures
            r == (self@.items.len() == 0),
    {
        self.todos.len() == 0
    }

    /// The identifier that the next item gets.
    pub fn next_id(&self) -> (r: i32)
        ensures
            r == self@.next_id,
    {
        self.next_id
    }

    /// The items, in the order in which they were added.
    pub fn todos(&self) -> (r: &Vec<Todo>)
        ensures
            views_of(r@) == self@.items,
    {
        &self.todos
    }

    /// The item at place `i`, if the list is that long.
    pub fn get(&self, i: usize) -> (r: Option<&Todo>)
        ensures
            r is Some <==> i < self@.items.len(),
            r is Some ==> r->0@ == self@.items[i as int],
    {
        if i < self.todos.len() {
            Some(&self.todos[i])
        } else {
            None
        }
    }
}

} // verus!
