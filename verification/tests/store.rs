use todo_api::clock::Timestamp;
use todo_api::model::{AppState, CreateTodoSchema, Todo, UpdateTodoSchema};

fn at(secs: i64) -> Timestamp {
    Timestamp { secs, nanos: 0 }
}

fn add(store: &mut AppState, id: &str, title: &str, secs: i64) -> Todo {
    let payload = CreateTodoSchema { title: title.to_string(), content: format!("{} body", title) };
    store.create(Todo::draft(payload, at(secs)), id.to_string(), at(secs))
}

fn five() -> AppState {
    let mut store = AppState::init();
    add(&mut store, "a", "A", 1);
    add(&mut store, "b", "B", 2);
    add(&mut store, "c", "C", 3);
    add(&mut store, "d", "D", 4);
    add(&mut store, "e", "E", 5);
    store
}

fn titles(todos: &[Todo]) -> Vec<String> {
    todos.iter().map(|t| t.title.clone()).collect()
}

#[test]
fn new_store_is_empty() {
    let store = AppState::init();
    assert_eq!(store.len(), 0);
    assert!(store.todo_db.is_empty());
}

#[test]
fn draft_has_no_id_and_one_instant() {
    let payload = CreateTodoSchema { title: "T".to_string(), content: "C".to_string() };
    let todo = Todo::draft(payload, Timestamp { secs: 7, nanos: 9 });
    assert_eq!(todo.id, None);
    assert_eq!(todo.title, "T");
    assert_eq!(todo.content, "C");
    assert_eq!(todo.completed, None);
    assert_eq!(todo.createdAt, Some(Timestamp { secs: 7, nanos: 9 }));
    assert_eq!(todo.updatedAt, Some(Timestamp { secs: 7, nanos: 9 }));
}

#[test]
fn from_payload_stamps_both_times_alike() {
    let payload = CreateTodoSchema { title: "T".to_string(), content: "C".to_string() };
    let todo = Todo::from(payload);
    assert_eq!(todo.id, None);
    assert_eq!(todo.title, "T");
    assert_eq!(todo.content, "C");
    assert_eq!(todo.completed, None);
    assert!(todo.createdAt.is_some());
    assert_eq!(todo.createdAt, todo.updatedAt);
    assert!(todo.createdAt.unwrap().secs > 1_600_000_000);
}

#[test]
fn create_appends_and_returns_the_stored_record() {
    let mut store = AppState::init();
    let first = add(&mut store, "a", "A", 1);
    let second = add(&mut store, "b", "B", 2);
    assert_eq!(first.id, Some("a".to_string()));
    assert_eq!(first.title, "A");
    assert_eq!(first.content, "A body");
    assert_eq!(first.completed, None);
    assert_eq!(first.createdAt, Some(at(1)));
    assert_eq!(first.updatedAt, Some(at(1)));
    assert_eq!(second.id, Some("b".to_string()));
    assert_eq!(store.len(), 2);
    assert_eq!(titles(&store.todo_db), vec!["A".to_string(), "B".to_string()]);
}

#[test]
fn create_overrides_what_the_draft_carried() {
    let mut store = AppState::init();
    let payload = CreateTodoSchema { title: "T".to_string(), content: "C".to_string() };
    let mut draft = Todo::draft(payload, at(1));
    draft.completed = Some(true);
    draft.id = Some("old".to_string());
    let stored = store.create(draft, "new".to_string(), at(9));
    assert_eq!(stored.id, Some("new".to_string()));
    assert_eq!(stored.completed, None);
    assert_eq!(stored.createdAt, Some(at(9)));
    assert_eq!(stored.updatedAt, Some(at(9)));
}

#[test]
fn round_trip_create_then_get() {
    let mut store = five();
    let made = add(&mut store, "f", "F", 6);
    let found = store.get_by_id(&"f".to_string()).unwrap();
    assert_eq!(found.id, made.id);
    assert_eq!(found.title, "F");
    assert_eq!(found.content, "F body");
    assert_eq!(found.completed, None);
    assert_eq!(found.createdAt, Some(at(6)));
    assert_eq!(found.updatedAt, Some(at(6)));
}

#[test]
fn get_returns_the_first_match() {
    let mut store = AppState::init();
    add(&mut store, "x", "first", 1);
    add(&mut store, "x", "second", 2);
    assert_eq!(store.position(&"x".to_string()), Some(0));
    assert_eq!(store.get_by_id(&"x".to_string()).unwrap().title, "first");
}

#[test]
fn position_finds_each_record() {
    let store = five();
    assert_eq!(store.position(&"a".to_string()), Some(0));
    assert_eq!(store.position(&"c".to_string()), Some(2));
    assert_eq!(store.position(&"e".to_string()), Some(4));
    assert_eq!(store.position(&"z".to_string()), None);
    assert_eq!(store.position(&"".to_string()), None);
}

#[test]
fn pagination_second_page_of_two() {
    let store = five();
    let page = store.list(2, 2);
    assert_eq!(titles(&page), vec!["C".to_string(), "D".to_string()]);
    assert_eq!(store.len(), 5);
}

#[test]
fn pagination_on_empty_store() {
    let store = AppState::init();
    assert!(store.list(10, 1).is_empty());
    assert_eq!(store.len(), 0);
}

#[test]
fn pagination_edges() {
    let store = five();
    assert_eq!(titles(&store.list(2, 1)), vec!["A".to_string(), "B".to_string()]);
    assert_eq!(titles(&store.list(2, 3)), vec!["E".to_string()]);
    assert!(store.list(2, 4).is_empty());
    assert!(store.list(5, 2).is_empty());
    assert_eq!(store.list(5, 1).len(), 5);
    assert_eq!(store.list(10, 1).len(), 5);
    assert!(store.list(0, 1).is_empty());
    assert!(store.list(0, 7).is_empty());
    assert_eq!(titles(&store.list(1, 5)), vec!["E".to_string()]);
    assert_eq!(store.list(usize::MAX, 1).len(), 5);
    assert!(store.list(usize::MAX, 2).is_empty());
    assert!(store.list(usize::MAX, usize::MAX).is_empty());
    assert!(store.list(3, usize::MAX).is_empty());
}

#[test]
fn page_zero_is_empty() {
    let store = five();
    assert!(store.list(2, 0).is_empty());
    assert!(store.list(0, 0).is_empty());
    assert!(store.list(1, 0).is_empty());
    assert!(store.list(usize::MAX, 0).is_empty());
    assert_eq!(store.len(), 5);
    assert!(AppState::init().list(10, 0).is_empty());
}

#[test]
fn update_completed_only_keeps_texts() {
    let mut store = five();
    let body = UpdateTodoSchema { title: None, content: None, completed: Some(true) };
    let changed = store.update_by_id(&"c".to_string(), at(50), body).unwrap();
    assert_eq!(changed.id, Some("c".to_string()));
    assert_eq!(changed.title, "C");
    assert_eq!(changed.content, "C body");
    assert_eq!(changed.completed, Some(true));
    assert_eq!(changed.createdAt, Some(at(3)));
    assert_eq!(changed.updatedAt, Some(at(50)));
    let stored = store.get_by_id(&"c".to_string()).unwrap();
    assert_eq!(stored.title, "C");
    assert_eq!(stored.completed, Some(true));
    assert_eq!(stored.updatedAt, Some(at(50)));
    let other = store.get_by_id(&"b".to_string()).unwrap();
    assert_eq!(other.completed, None);
    assert_eq!(other.updatedAt, Some(at(2)));
}

#[test]
fn update_replaces_the_texts_it_holds() {
    let mut store = five();
    let body = UpdateTodoSchema {
        title: Some("New".to_string()),
        content: None,
        completed: Some(false),
    };
    let changed = store.update_by_id(&"a".to_string(), at(9), body).unwrap();
    assert_eq!(changed.title, "New");
    assert_eq!(changed.content, "A body");
    assert_eq!(changed.completed, Some(false));
    let body = UpdateTodoSchema {
        title: None,
        content: Some("text".to_string()),
        completed: Some(true),
    };
    let changed = store.update_by_id(&"a".to_string(), at(10), body).unwrap();
    assert_eq!(changed.title, "New");
    assert_eq!(changed.content, "text");
    assert_eq!(changed.completed, Some(true));
}

#[test]
fn update_without_completed_clears_it() {
    let mut store = five();
    let body = UpdateTodoSchema { title: None, content: None, completed: Some(true) };
    store.update_by_id(&"d".to_string(), at(6), body).unwrap();
    let body = UpdateTodoSchema { title: Some("D2".to_string()), content: None, completed: None };
    let changed = store.update_by_id(&"d".to_string(), at(7), body).unwrap();
    assert_eq!(changed.completed, None);
    assert_eq!(changed.title, "D2");
    assert_eq!(changed.updatedAt, Some(at(7)));
    assert_eq!(store.get_by_id(&"d".to_string()).unwrap().completed, None);
}

#[test]
fn update_of_unknown_id_changes_nothing() {
    let mut store = five();
    let body = UpdateTodoSchema {
        title: Some("x".to_string()),
        content: Some("y".to_string()),
        completed: Some(true),
    };
    assert!(store.update_by_id(&"zz".to_string(), at(9), body).is_none());
    assert_eq!(store.len(), 5);
    assert_eq!(
        titles(&store.todo_db),
        vec!["A".to_string(), "B".to_string(), "C".to_string(), "D".to_string(), "E".to_string()]
    );
    for t in store.todo_db.iter() {
        assert_eq!(t.completed, None);
        assert_eq!(t.createdAt, t.updatedAt);
    }
}

#[test]
fn delete_is_final() {
    let mut store = five();
    assert!(store.delete_by_id(&"b".to_string()));
    assert!(store.get_by_id(&"b".to_string()).is_none());
    assert!(!store.delete_by_id(&"b".to_string()));
    assert_eq!(store.len(), 4);
    assert_eq!(
        titles(&store.todo_db),
        vec!["A".to_string(), "C".to_string(), "D".to_string(), "E".to_string()]
    );
}

#[test]
fn delete_of_unknown_id_changes_nothing() {
    let mut store = five();
    assert!(!store.delete_by_id(&"zz".to_string()));
    assert_eq!(store.len(), 5);
    let mut empty = AppState::init();
    assert!(!empty.delete_by_id(&"a".to_string()));
    assert!(empty.get_by_id(&"a".to_string()).is_none());
}

#[test]
fn order_survives_updates_and_deletes() {
    let mut store = five();
    let body = UpdateTodoSchema { title: None, content: None, completed: Some(true) };
    store.update_by_id(&"e".to_string(), at(100), body).unwrap();
    let body = UpdateTodoSchema { title: None, content: None, completed: Some(true) };
    store.update_by_id(&"a".to_string(), at(200), body).unwrap();
    let ids: Vec<Option<String>> = store.list(10, 1).iter().map(|t| t.id.clone()).collect();
    let expected: Vec<Option<String>> =
        ["a", "b", "c", "d", "e"].iter().map(|s| Some(s.to_string())).collect();
    assert_eq!(ids, expected);
    assert!(store.delete_by_id(&"c".to_string()));
    assert_eq!(titles(&store.list(2, 2)), vec!["D".to_string(), "E".to_string()]);
    add(&mut store, "f", "F", 300);
    assert_eq!(titles(&store.list(3, 2)), vec!["E".to_string(), "F".to_string()]);
}

#[test]
fn listed_records_are_copies() {
    let store = five();
    let mut page = store.list(5, 1);
    page[0].title = "changed".to_string();
    assert_eq!(store.todo_db[0].title, "A");
    let mut found = store.get_by_id(&"a".to_string()).unwrap();
    found.title = "changed".to_string();
    assert_eq!(store.get_by_id(&"a".to_string()).unwrap().title, "A");
}

#[test]
fn clone_keeps_every_field() {
    let mut store = five();
    let body = UpdateTodoSchema { title: None, content: None, completed: Some(true) };
    let t = store.update_by_id(&"a".to_string(), at(8), body).unwrap();
    let c = t.clone();
    assert_eq!(c.id, t.id);
    assert_eq!(c.title, t.title);
    assert_eq!(c.content, t.content);
    assert_eq!(c.completed, Some(true));
    assert_eq!(c.createdAt, Some(at(1)));
    assert_eq!(c.updatedAt, Some(at(8)));
}

#[test]
fn timestamps_compare_by_seconds_then_nanoseconds() {
    let a = Timestamp { secs: 1, nanos: 500 };
    let b = Timestamp { secs: 1, nanos: 501 };
    let c = Timestamp { secs: 2, nanos: 0 };
    let d = Timestamp { secs: -1, nanos: 999 };
    assert!(a.is_le(&a) && !a.is_lt(&a));
    assert!(a.is_le(&b) && a.is_lt(&b));
    assert!(!b.is_le(&a) && !b.is_lt(&a));
    assert!(b.is_lt(&c) && !c.is_le(&b));
    assert!(d.is_lt(&a) && !a.is_lt(&d));
    assert_eq!(a, Timestamp { secs: 1, nanos: 500 });
}
