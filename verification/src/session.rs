//! The state of one running user interface, and how each event changes it.

use crate::model::StoreView;
use crate::screen::{render, screen_of, Event, EventView, Screen};
use crate::store::TodoStore;
use crate::text::is_blank;
use crate::time::Timestamp;
use vstd::prelude::*;

verus! {

/// What a session stands for: the store, and the text in the input field.
pub struct SessionView {
    pub store: StoreView,
    pub draft: Seq<char>,
}

impl SessionView {
    /// The session at the start: an empty store and an empty input field.
    pub open spec fn start() -> SessionView {
        SessionView { store: StoreView::empty(), draft: Seq::empty() }
    }

    /// The session after `event`, handled at the time `now`.
    ///
    /// Typing replaces the input text. A submission adds the input text to the
    /// store and empties the input field, whether or not an item was added. A
    /// click on a title toggles that item, and a use of a delete control
    /// deletes it.
    pub open spec fn after(self, event: EventView, now: Timestamp) -> SessionView {
        match event {
            EventView::DraftChanged(text) => SessionView { draft: text, ..self },
            EventView::Submitted => SessionView {
                store: self.store.after_add(self.draft, now),
                draft: Seq::empty(),
            },
            EventView::TitleClicked(id) => SessionView {
                store: self.store.after_toggle(id, now),
                ..self
            },
            EventView::DeleteClicked(id) => SessionView {
                store: self.store.after_delete(id),
                ..self
            },
        }
    }

    /// Whether `event` can be handled: a submission that adds an item needs a
    /// counter that can still grow.
    pub open spec fn accepts(self, event: EventView) -> bool {
        event is Submitted ==> is_blank(self.draft) || self.store.next_id < i32::MAX
    }
}

/// One running user interface: its store, and the text in its input field.
pub struct Session {
    store: TodoStore,
    draft: String,
}

impl View for Session {
    type V = SessionView;

    closed spec fn view(&self) -> SessionView {
        SessionView { store: self.store@, draft: self.draft@ }
    }
}

impl Session {
    /// The store of the session is well formed.
    pub open spec fn wf(&self) -> bool {
        self@.store.wf() && self@.store.next_id <= i32::MAX
    }

    /// A session with an empty store and an empty input field.
    pub fn new() -> (r: Session)
        ensures
            r@ == SessionView::start(),
            r.wf(),
    {
        Session { store: TodoStore::new(), draft: String::new() }
    }

    /// Whether `event` can be handled.
    pub fn can_handle(&self, event: &Event) -> (r: bool)
        ensures
            r == self@.accepts(event@),
    {
        match event {
            Event::Submitted => self.store.can_add(self.draft.as_str()),
            _ => true,
        }
    }

    /// Handles `event` at the time `now`.
    pub fn handle_at(&mut self, event: Event, now: Timestamp)
        requires
            old(self).wf(),
            old(self)@.accepts(event@),
        ensures
            final(self).wf(),
            final(self)@ == old(self)@.after(event@, now),
            old(self)@.store.chronological() && (event@ is TitleClicked && old(self)@.store.has_id(
                event@->TitleClicked_0,
            ) ==> old(self)@.store.items[old(self)@.store.position(
                event@->TitleClicked_0,
            )].created.le(now)) ==> final(self)@.store.chronological(),
    {
        match event {
            Event::DraftChanged(text) => {
                self.draft = text;
            },
            Event::Submitted => {
                self.store.add_at(self.draft.as_str(), now);
                self.draft = String::new();
            },
            Event::TitleClicked(id) => {
                self.store.toggle_at(id, now);
            },
            Event::DeleteClicked(id) => {
                self.store.delete(id);
            },
        }
    }

    /// Handles `event` at the time that the system clock gives. The clock is
    /// read only where an item is added or becomes completed.
    pub fn handle(&mut self, event: Event)
        requires
            old(self).wf(),
            old(self)@.accepts(event@),
        ensures
            final(self).wf(),
            exists|now: Timestamp| final(self)@ == #[trigger] old(self)@.after(event@, now),
    {
        let ghost any = Timestamp { secs: 0, nanos: 0 };
        match event {
            Event::DraftChanged(text) => {
                self.draft = text;
                assert(self@ == old(self)@.after(event@, any));
            },
            Event::Submitted => {
                self.store.add(self.draft.as_str());
                self.draft = String::new();
                let ghost now = choose|now: Timestamp|
                    self@.store == #[trigger] old(self)@.store.after_add(old(self)@.draft, now);
                assert(self@ == old(self)@.after(event@, now));
            },
            Event::TitleClicked(id) => {
                self.store.toggle(id);
                let ghost now = choose|now: Timestamp|
                    self@.store == #[trigger] old(self)@.store.after_toggle(id as int, now);
                assert(self@ == old(self)@.after(event@, now));
            },
            Event::DeleteClicked(id) => {
                self.store.delete(id);
                assert(self@ == old(self)@.after(event@, any));
            },
        }
    }

    /// The store.
    pub fn store(&self) -> (r: &TodoStore)
        ensures
            r@ == self@.store,
            r.wf() == self.wf(),
    {
        &self.store
    }

    /// The text in the input field.
    pub fn draft(&self) -> (r: &str)
        ensures
            r@ == self@.draft,
    {
        self.draft.as_str()
    }

    /// What the session shows.
    pub fn screen(&self) -> (r: Screen)
        ensures
            r@ == screen_of(self@.store, self@.draft),
    {
        render(&self.store, self.draft.as_str())
    }
}

} // verus!
