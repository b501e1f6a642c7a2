use todos::{Timestamp, Todo, TodoStore};

fn at(secs: i64) -> Timestamp {
    Timestamp { secs, nanos: 0 }
}

fn ids(store: &TodoStore) -> Vec<i32> {
    store.todos().iter().map(|t| t.id).collect()
}

fn titles(store: &TodoStore) -> Vec<String> {
    store.todos().iter().map(|t| t.title.clone()).collect()
}

fn three(store: &mut TodoStore) {
    assert_eq!(store.add_at("one", at(1)), Some(1));
    assert_eq!(store.add_at("two", at(2)), Some(2));
    assert_eq!(store.add_at("three", at(3)), Some(3));
}

#[test]
fn new_store_is_empty_and_starts_at_one() {
    let store = TodoStore::new();
    assert_eq!(store.len(), 0);
    assert!(store.is_empty());
    assert_eq!(store.next_id(), 1);
    assert_eq!(store.count(), (0, 0));
    assert!(store.get(0).is_none());
}

#[test]
fn add_blank_changes_nothing() {
    let mut store = TodoStore::new();
    assert_eq!(store.add_at("  ", at(1)), None);
    assert_eq!(store.len(), 0);
    assert_eq!(store.next_id(), 1);
    assert_eq!(store.add_at("", at(1)), None);
    assert_eq!(store.add_at("\t\n \r", at(1)), None);
    assert_eq!(store.add_at("\u{00A0}\u{2003}\u{3000}", at(1)), None);
    assert_eq!(store.len(), 0);
    assert_eq!(store.next_id(), 1);
}

#[test]
fn add_blank_after_items_changes_nothing() {
    let mut store = TodoStore::new();
    three(&mut store);
    assert_eq!(store.add_at("   ", at(9)), None);
    assert_eq!(store.len(), 3);
    assert_eq!(store.next_id(), 4);
    assert_eq!(ids(&store), vec![1, 2, 3]);
}

#[test]
fn add_trims_the_title() {
    let mut store = TodoStore::new();
    assert_eq!(store.add_at("  Buy milk  ", at(7)), Some(1));
    assert_eq!(store.len(), 1);
    assert_eq!(store.next_id(), 2);
    let todo: &Todo = store.get(0).unwrap();
    assert_eq!(todo.id, 1);
    assert_eq!(todo.title, "Buy milk");
    assert_eq!(todo.created, at(7));
    assert_eq!(todo.completed, None);
    assert!(!todo.is_completed());
}

#[test]
fn add_keeps_inner_whitespace() {
    let mut store = TodoStore::new();
    store.add_at("\n a  b\tc \u{2028}", at(1));
    assert_eq!(titles(&store), vec!["a  b\tc".to_string()]);
}

#[test]
fn add_appends_at_the_end() {
    let mut store = TodoStore::new();
    three(&mut store);
    assert_eq!(titles(&store), vec!["one".to_string(), "two".to_string(), "three".to_string()]);
    assert_eq!(ids(&store), vec![1, 2, 3]);
    assert_eq!(store.next_id(), 4);
}

#[test]
fn ids_are_not_reused_after_delete() {
    let mut store = TodoStore::new();
    let first = store.add_at("a", at(1)).unwrap();
    let second = store.add_at("b", at(2)).unwrap();
    assert!(store.delete(first));
    let third = store.add_at("c", at(3)).unwrap();
    assert_eq!((first, second, third), (1, 2, 3));
    assert_eq!(ids(&store), vec![2, 3]);
}

#[test]
fn ids_are_not_reused_after_deleting_the_last() {
    let mut store = TodoStore::new();
    three(&mut store);
    assert!(store.delete(3));
    assert_eq!(store.next_id(), 4);
    assert_eq!(store.add_at("four", at(4)), Some(4));
    assert_eq!(ids(&store), vec![1, 2, 4]);
}

#[test]
fn toggle_completes_at_the_given_time() {
    let mut store = TodoStore::new();
    three(&mut store);
    assert!(store.toggle_at(2, Timestamp { secs: 10, nanos: 5 }));
    assert_eq!(store.get(1).unwrap().completed, Some(Timestamp { secs: 10, nanos: 5 }));
    assert_eq!(store.get(0).unwrap().completed, None);
    assert_eq!(store.get(2).unwrap().completed, None);
    assert_eq!(store.len(), 3);
    assert_eq!(store.next_id(), 4);
}

#[test]
fn toggle_twice_returns_to_unset() {
    let mut store = TodoStore::new();
    store.add_at("a", at(1));
    assert!(store.toggle_at(1, at(2)));
    assert_eq!(store.get(0).unwrap().completed, Some(at(2)));
    assert!(store.toggle_at(1, at(3)));
    assert_eq!(store.get(0).unwrap().completed, None);
}

#[test]
fn toggle_twice_on_completed_takes_the_second_time() {
    let mut store = TodoStore::new();
    store.add_at("a", at(1));
    store.toggle_at(1, at(2));
    store.toggle_at(1, at(3));
    store.toggle_at(1, at(4));
    assert_eq!(store.get(0).unwrap().completed, Some(at(4)));
}

#[test]
fn toggle_keeps_title_id_and_creation() {
    let mut store = TodoStore::new();
    store.add_at("keep", at(1));
    store.toggle_at(1, at(2));
    let todo = store.get(0).unwrap();
    assert_eq!(todo.id, 1);
    assert_eq!(todo.title, "keep");
    assert_eq!(todo.created, at(1));
}

#[test]
fn toggle_unknown_id_changes_nothing() {
    let mut store = TodoStore::new();
    three(&mut store);
    assert!(!store.toggle_at(99, at(5)));
    assert!(!store.toggle_at(0, at(5)));
    assert!(!store.toggle_at(-1, at(5)));
    assert_eq!(store.count(), (0, 3));
    assert_eq!(ids(&store), vec![1, 2, 3]);
}

#[test]
fn delete_removes_exactly_one() {
    let mut store = TodoStore::new();
    three(&mut store);
    assert!(store.delete(2));
    assert_eq!(ids(&store), vec![1, 3]);
    assert_eq!(titles(&store), vec!["one".to_string(), "three".to_string()]);
    assert_eq!(store.next_id(), 4);
}

#[test]
fn delete_unknown_id_changes_nothing() {
    let mut store = TodoStore::new();
    three(&mut store);
    assert!(!store.delete(99));
    assert_eq!(ids(&store), vec![1, 2, 3]);
    assert_eq!(store.next_id(), 4);
}

#[test]
fn delete_twice_is_delete_once() {
    let mut store = TodoStore::new();
    three(&mut store);
    assert!(store.delete(1));
    assert!(!store.delete(1));
    assert_eq!(ids(&store), vec![2, 3]);
}

#[test]
fn delete_keeps_completion_of_the_others() {
    let mut store = TodoStore::new();
    three(&mut store);
    store.toggle_at(3, at(8));
    store.delete(1);
    assert_eq!(store.get(0).unwrap().completed, None);
    assert_eq!(store.get(1).unwrap().completed, Some(at(8)));
}

#[test]
fn count_follows_every_operation() {
    let mut store = TodoStore::new();
    assert_eq!(store.count(), (0, 0));
    three(&mut store);
    assert_eq!(store.count(), (0, 3));
    store.toggle_at(1, at(4));
    assert_eq!(store.count(), (1, 3));
    store.toggle_at(3, at(5));
    assert_eq!(store.count(), (2, 3));
    store.toggle_at(1, at(6));
    assert_eq!(store.count(), (1, 3));
    store.delete(3);
    assert_eq!(store.count(), (0, 2));
    store.delete(2);
    store.delete(1);
    assert_eq!(store.count(), (0, 0));
}

#[test]
fn count_is_completed_and_length() {
    let mut store = TodoStore::new();
    for i in 0..20 {
        store.add_at("item", at(i));
    }
    for id in [2, 4, 6, 8, 8, 10] {
        store.toggle_at(id, at(100));
    }
    store.delete(4);
    store.delete(5);
    let (done, all) = store.count();
    let expected = store.todos().iter().filter(|t| t.completed.is_some()).count();
    assert_eq!(done, expected);
    assert_eq!(done, 3);
    assert_eq!(all, store.len());
    assert_eq!(all, 18);
    assert!(done <= all);
}

#[test]
fn end_to_end() {
    let mut store = TodoStore::new();
    let a = store.add_at("Task A", at(1)).unwrap();
    let b = store.add_at("Task B", at(2)).unwrap();
    store.toggle_at(a, at(3));
    assert_eq!(store.count(), (1, 2));
    store.delete(b);
    assert_eq!(store.count(), (1, 1));
    let left = store.get(0).unwrap();
    assert_eq!(left.title, "Task A");
    assert!(left.completed.is_some());
    assert!(left.is_completed());
}

#[test]
fn end_to_end_with_the_clock() {
    let mut store = TodoStore::new();
    let a = store.add("Task A").unwrap();
    let b = store.add("Task B").unwrap();
    assert!(store.toggle(a));
    assert_eq!(store.count(), (1, 2));
    assert!(store.delete(b));
    assert_eq!(store.count(), (1, 1));
    let left = store.get(0).unwrap();
    assert_eq!(left.title, "Task A");
    assert!(left.completed.is_some());
}

#[test]
fn add_with_the_clock_stamps_the_current_time() {
    let before = chrono::Utc::now().timestamp();
    let mut store = TodoStore::new();
    assert_eq!(store.add("  now  "), Some(1));
    let after = chrono::Utc::now().timestamp();
    let todo = store.get(0).unwrap();
    assert_eq!(todo.title, "now");
    assert_eq!(todo.completed, None);
    assert!(before - 1 <= todo.created.secs && todo.created.secs <= after + 1);
    assert!(todo.created.secs > 1_600_000_000);
}

#[test]
fn add_with_the_clock_ignores_blank() {
    let mut store = TodoStore::new();
    assert_eq!(store.add(" \t "), None);
    assert_eq!(store.len(), 0);
    assert_eq!(store.next_id(), 1);
}

#[test]
fn toggle_with_the_clock_sets_and_clears() {
    let before = chrono::Utc::now().timestamp();
    let mut store = TodoStore::new();
    store.add("a");
    assert!(store.toggle(1));
    let done = store.get(0).unwrap().completed.unwrap();
    let after = chrono::Utc::now().timestamp();
    assert!(before - 1 <= done.secs && done.secs <= after + 1);
    assert!(store.toggle(1));
    assert_eq!(store.get(0).unwrap().completed, None);
    assert!(!store.toggle(5));
}

#[test]
fn find_gives_the_place() {
    let mut store = TodoStore::new();
    three(&mut store);
    store.delete(1);
    assert_eq!(store.find(1), None);
    assert_eq!(store.find(2), Some(0));
    assert_eq!(store.find(3), Some(1));
    assert_eq!(store.find(4), None);
}

#[test]
fn can_add_until_the_counter_is_full() {
    let mut store = TodoStore::new();
    assert!(store.can_add("x"));
    assert!(store.can_add(" "));
    three(&mut store);
    assert!(store.can_add("x"));
}

#[test]
fn duplicate_copies_every_field() {
    let mut store = TodoStore::new();
    store.add_at("copy me", at(3));
    store.toggle_at(1, at(4));
    let copy = store.get(0).unwrap().duplicate();
    assert_eq!(copy.id, 1);
    assert_eq!(copy.title, "copy me");
    assert_eq!(copy.created, at(3));
    assert_eq!(copy.completed, Some(at(4)));
}

#[test]
fn timestamps_order_by_seconds_then_nanoseconds() {
    let a = Timestamp { secs: 1, nanos: 900 };
    let b = Timestamp { secs: 2, nanos: 0 };
    let c = Timestamp { secs: 2, nanos: 1 };
    let d = Timestamp { secs: -5, nanos: 999_999_999 };
    assert!(a.not_after(&b));
    assert!(!b.not_after(&a));
    assert!(b.not_after(&c));
    assert!(!c.not_after(&b));
    assert!(c.not_after(&c));
    assert!(d.not_after(&a));
    assert!(!a.not_after(&d));
}
