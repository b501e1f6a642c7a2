//! A single todo item.

use crate::text::is_title;
use crate::time::Timestamp;
use vstd::prelude::*;

verus! {

/// One task: its identifier, its title, when it was created and, once it is
/// done, when it was completed.
#[derive(Debug)]
pub struct Todo {
    pub id: i32,
    pub title: String,
    pub created: Timestamp,
    pub completed: Option<Timestamp>,
}

/// What a `Todo` stands for.
pub struct TodoView {
    pub id: int,
    pub title: Seq<char>,
    pub created: Timestamp,
    pub completed: Option<Timestamp>,
}

impl View for Todo {
    type V = TodoView;

    open spec fn view(&self) -> TodoView {
        TodoView {
            id: self.id as int,
            title: self.title@,
            created: self.created,
            completed: self.completed,
        }
    }
}

impl TodoView {
    /// A new item: not completed.
    pub open spec fn fresh(id: int, title: Seq<char>, created: Timestamp) -> TodoView {
        TodoView { id, title, created, completed: None }
    }

    /// Whether the item is done.
    pub open spec fn is_completed(self) -> bool {
        self.completed is Some
    }

    /// The item after a toggle at `now`: a completed item becomes incomplete, an
    /// incomplete one is completed at `now`. Nothing else changes.
    pub open spec fn toggled(self, now: Timestamp) -> TodoView {
        TodoView {
            completed: if self.completed is Some {
                None
            } else {
                Some(now)
            },
            ..self
        }
    }

    /// The title is a title: not empty, no whitespace at its ends.
    pub open spec fn titled(self) -> bool {
        is_title(self.title)
    }

    /// A completed item was not completed before it was created.
    pub open spec fn chronological(self) -> bool {
        self.completed is Some ==> self.created.le(self.completed->0)
    }
}

impl Todo {
    /// Whether the item is done.
    pub fn is_completed(&self) -> (r: bool)
        ensures
            r == self@.is_completed(),
    {
        self.completed.is_some()
    }

    /// A copy of the item.
    pub fn duplicate(&self) -> (r: Todo)
        ensures
            r@ == self@,
    {
        Todo {
            id: self.id,
            title: self.title.clone(),
            created: self.created,
            completed: self.completed,
        }
    }
}

/// Two toggles leave an item as completed or not as it was: an incomplete item
/// is as before, a completed one is completed again, at the time of the second
/// toggle.
pub proof fn lemma_toggle_twice(t: TodoView, first: Timestamp, second: Timestamp)
    ensures
        t.toggled(first).toggled(second).is_completed() == t.is_completed(),
        !t.is_completed() ==> t.toggled(first).toggled(second) == t,
        t.is_completed() ==> t.toggled(first).toggled(second) == (TodoView {
            completed: Some(second),
            ..t
        }),
        t.toggled(first).is_completed() != t.is_completed(),
{
}

} // verus!
