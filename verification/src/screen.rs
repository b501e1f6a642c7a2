//! What a user interface shows of a store: a header with the counts, one row
//! for each item, and the text of the input field.

use crate::model::StoreView;
use crate::store::{views_of, TodoStore};
use crate::todo::TodoView;
use vstd::prelude::*;
use vstd::string::StringExecFns;

verus! {

/// The character for one decimal digit.
pub open spec fn digit(d: nat) -> char {
    if d == 0 {
        '0'
    } else if d == 1 {
        '1'
    } else if d == 2 {
        '2'
    } else if d == 3 {
        '3'
    } else if d == 4 {
        '4'
    } else if d == 5 {
        '5'
    } else if d == 6 {
        '6'
    } else if d == 7 {
        '7'
    } else if d == 8 {
        '8'
    } else {
        '9'
    }
}

/// `n` written in decimal, without leading zeros.
pub open spec fn decimal(n: nat) -> Seq<char>
    decreases n,
{
    if n < 10 {
        seq![digit(n)]
    } else {
        decimal(n / 10).push(digit(n % 10))
    }
}

/// The header for `done` completed items out of `all`: the two numbers with a
/// slash between them.
pub open spec fn header_text(done: nat, all: nat) -> Seq<char> {
    decimal(done) + seq!['/'] + decimal(all)
}

/// One decimal digit as a string.
fn digit_str(d: usize) -> (r: &'static str)
    requires
        d < 10,
    ensures
        r@ == seq![digit(d as nat)],
{
    proof {
        reveal_strlit("0");
        reveal_strlit("1");
        reveal_strlit("2");
        reveal_strlit("3");
        reveal_strlit("4");
        reveal_strlit("5");
        reveal_strlit("6");
        reveal_strlit("7");
        reveal_strlit("8");
        reveal_strlit("9");
    }
    let r = if d == 0 {
        "0"
    } else if d == 1 {
        "1"
    } else if d == 2 {
        "2"
    } else if d == 3 {
        "3"
    } else if d == 4 {
        "4"
    } else if d == 5 {
        "5"
    } else if d == 6 {
        "6"
    } else if d == 7 {
        "7"
    } else if d == 8 {
        "8"
    } else {
        "9"
    };
    assert(r@ =~= seq![digit(d as nat)]);
    r
}

/// `n` written in decimal.
pub fn to_decimal(n: usize) -> (r: String)
    ensures
        r@ == decimal(n as nat),
    decreases n,
{
    if n < 10 {
        String::from_str(digit_str(n))
    } else {
        let mut r = to_decimal(n / 10);
        r.append(digit_str(n % 10));
        assert(r@ =~= decimal(n as nat));
        r
    }
}

/// The header for `done` completed items out of `all`.
pub fn header(done: usize, all: usize) -> (r: String)
    ensures
        r@ == header_text(done as nat, all as nat),
{
    let mut r = to_decimal(done);
    proof {
        reveal_strlit("/");
    }
    r.append("/");
    let total = to_decimal(all);
    r.append(total.as_str());
    assert(r@ =~= header_text(done as nat, all as nat));
    r
}

/// Something that the user did on the screen.
#[derive(Clone, Debug)]
pub enum Event {
    /// The text of the input field is now this.
    DraftChanged(String),
    /// The form was submitted.
    Submitted,
    /// The title of the item with this identifier was clicked.
    TitleClicked(i32),
    /// The delete control of the item with this identifier was used.
    DeleteClicked(i32),
}

/// What an `Event` stands for.
pub enum EventView {
    DraftChanged(Seq<char>),
    Submitted,
    TitleClicked(int),
    DeleteClicked(int),
}

impl View for Event {
    type V = EventView;

    open spec fn view(&self) -> EventView {
        match self {
            Event::DraftChanged(text) => EventView::DraftChanged(text@),
            Event::Submitted => EventView::Submitted,
            Event::TitleClicked(id) => EventView::TitleClicked(*id as int),
            Event::DeleteClicked(id) => EventView::DeleteClicked(*id as int),
        }
    }
}

/// One row of the list: the item's identifier and title, and whether the
/// title is struck through, which it is for a completed item.
#[derive(Debug)]
pub struct Row {
    pub id: i32,
    pub title: String,
    pub struck: bool,
}

/// What a `Row` stands for.
pub struct RowView {
    pub id: int,
    pub title: Seq<char>,
    pub struck: bool,
}

impl View for Row {
    type V = RowView;

    open spec fn view(&self) -> RowView {
        RowView { id: self.id as int, title: self.title@, struck: self.struck }
    }
}

/// The row that shows the item `t`.
pub open spec fn row_of(t: TodoView) -> RowView {
    RowView { id: t.id, title: t.title, struck: t.is_completed() }
}

impl Row {
    /// The event of a click on this row's title.
    pub fn title_clicked(&self) -> (e: Event)
        ensures
            e@ == EventView::TitleClicked(self@.id),
    {
        Event::TitleClicked(self.id)
    }

    /// The event of a use of this row's delete control.
    pub fn delete_clicked(&self) -> (e: Event)
        ensures
            e@ == EventView::DeleteClicked(self@.id),
    {
        Event::DeleteClicked(self.id)
    }
}

/// All that is shown: the header, the rows in the order of the list, and the
/// text of the input field.
#[derive(Debug)]
pub struct Screen {
    pub header: String,
    pub rows: Vec<Row>,
    pub draft: String,
}

/// What a `Screen` stands for.
pub struct ScreenView {
    pub header: Seq<char>,
    pub rows: Seq<RowView>,
    pub draft: Seq<char>,
}

impl View for Screen {
    type V = ScreenView;

    open spec fn view(&self) -> ScreenView {
        ScreenView {
            header: self.header@,
            rows: Seq::new(self.rows@.len(), |i: int| self.rows@[i]@),
            draft: self.draft@,
        }
    }
}

/// The screen for the store `m` and the input text `draft`.
pub open spec fn screen_of(m: StoreView, draft: Seq<char>) -> ScreenView {
    ScreenView {
        header: header_text(m.count().0, m.count().1),
        rows: Seq::new(m.items.len(), |i: int| row_of(m.items[i])),
        draft,
    }
}

/// Renders the store and the input text: the header holds the counts, and
/// each item has its row, in the order of the list.
pub fn render(store: &TodoStore, draft: &str) -> (r: Screen)
    ensures
        r@ == screen_of(store@, draft@),
{
    let (done, all) = store.count();
    let todos = store.todos();
    let mut rows: Vec<Row> = Vec::new();
    let mut i: usize = 0;
    while i < all
        invariant
            all == todos@.len(),
            views_of(todos@) == store@.items,
            i <= all,
            rows@.len() == i,
            forall|j: int| 0 <= j < i ==> (#[trigger] rows@[j])@ == row_of(store@.items[j]),
        decreases all - i,
    {
        let todo = &todos[i];
        assert(todo@ == views_of(todos@)[i as int]);
        rows.push(Row { id: todo.id, title: todo.title.clone(), struck: todo.is_completed() });
        i = i + 1;
    }
    let r = Screen { header: header(done, all), rows, draft: String::from_str(draft) };
    assert(r@.rows =~= screen_of(store@, draft@).rows);
    r
}

} // verus!
