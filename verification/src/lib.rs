//! An in-memory todo list: an ordered store of items with add, toggle and
//! delete, and the view model that a user interface renders from it.

pub mod history;
pub mod model;
pub mod screen;
pub mod session;
pub mod store;
pub mod text;
pub mod time;
pub mod todo;

pub use screen::{Event, Row, Screen};
pub use session::Session;
pub use store::TodoStore;
pub use time::Timestamp;
pub use todo::Todo;
