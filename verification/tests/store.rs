use todo_api::item::{TodoItem, UpdateTodoItem};
use todo_api::store::{Store, StoreError};
use todo_api::time::Timestamp;

fn at(secs: i64) -> Timestamp {
    Timestamp::new(secs, 0)
}

fn titles(items: &[TodoItem]) -> Vec<String> {
    items.iter().map(|item| item.title.clone()).collect()
}

fn no_change() -> UpdateTodoItem {
    UpdateTodoItem { title: None, completed: None }
}

#[test]
fn new_store_lists_nothing() {
    let store = Store::new();
    assert!(store.list().is_empty());
}

#[test]
fn insert_with_appends_and_returns_whole_list() {
    let mut store = Store::new();
    let first = store.insert_with(1, String::from("a"), false, at(10));
    assert_eq!(first.len(), 1);
    let second = store.insert_with(2, String::from("b"), true, at(11));
    assert_eq!(second.len(), 2);
    assert_eq!(second[0].id, 1);
    assert_eq!(second[0].title, "a");
    assert!(!second[0].completed);
    assert_eq!(second[0].created_at, at(10));
    assert_eq!(second[0].updated_at, None);
    assert_eq!(second[1].id, 2);
    assert_eq!(second[1].title, "b");
    assert!(second[1].completed);
    assert_eq!(second[1].created_at, at(11));
    assert_eq!(second[1].updated_at, None);
}

#[test]
fn list_keeps_insertion_order() {
    let mut store = Store::new();
    for (n, title) in ["one", "two", "three", "four"].iter().enumerate() {
        store.insert_with(100 - n as u128, String::from(*title), false, at(n as i64));
    }
    let items = store.list();
    assert_eq!(titles(&items), vec!["one", "two", "three", "four"]);
    let ids: Vec<u128> = items.iter().map(|item| item.id).collect();
    assert_eq!(ids, vec![100, 99, 98, 97]);
}

#[test]
fn insert_accepts_empty_title() {
    let mut store = Store::new();
    let items = store.insert(String::new(), true);
    assert_eq!(items.len(), 1);
    assert_eq!(items[0].title, "");
    assert!(items[0].completed);
}

#[test]
fn insert_draws_distinct_ids() {
    let mut store = Store::new();
    for n in 0..50 {
        store.insert(format!("task {}", n), false);
    }
    let items = store.list();
    assert_eq!(items.len(), 50);
    for i in 0..items.len() {
        assert_eq!(items[i].title, format!("task {}", i));
        for j in (i + 1)..items.len() {
            assert_ne!(items[i].id, items[j].id);
        }
    }
}

#[test]
fn insert_then_list_shows_new_item() {
    let mut store = Store::new();
    store.insert(String::from("old"), true);
    let returned = store.insert(String::from("new"), false);
    let listed = store.list();
    assert_eq!(listed.len(), 2);
    assert_eq!(returned.len(), 2);
    let item = &listed[1];
    assert_eq!(item.title, "new");
    assert!(!item.completed);
    assert_eq!(item.updated_at, None);
    assert!(item.created_at.secs > 0);
    assert_eq!(returned[1].id, item.id);
    assert_eq!(returned[1].created_at, item.created_at);
}

#[test]
fn insert_uses_version_four_identifier() {
    let mut store = Store::new();
    let items = store.insert(String::from("x"), false);
    assert!(todo_api::ident::has_random_shape(items[0].id));
    let id = uuid::Uuid::from_u128(items[0].id);
    assert_eq!(id.get_version_num(), 4);
    assert_eq!(id.get_variant(), uuid::Variant::RFC4122);
}

#[test]
fn insert_reads_the_clock() {
    let before = chrono::Utc::now();
    let mut store = Store::new();
    let items = store.insert(String::from("x"), false);
    let after = chrono::Utc::now();
    let stamp = items[0].created_at;
    assert!(stamp.nanos < 1_000_000_000);
    let low = Timestamp::new(before.timestamp(), before.timestamp_subsec_nanos());
    let high = Timestamp::new(after.timestamp(), after.timestamp_subsec_nanos());
    assert!(low.is_not_after(&stamp));
    assert!(stamp.is_not_after(&high));
}

#[test]
fn update_at_changes_only_given_fields() {
    let mut store = Store::new();
    store.insert_with(1, String::from("a"), false, at(10));
    store.insert_with(2, String::from("b"), false, at(11));

    let patch = UpdateTodoItem { title: None, completed: Some(true) };
    let item = store.update_at(2, &patch, at(20)).unwrap();
    assert_eq!(item.id, 2);
    assert_eq!(item.title, "b");
    assert!(item.completed);
    assert_eq!(item.created_at, at(11));
    assert_eq!(item.updated_at, Some(at(20)));

    let patch = UpdateTodoItem { title: Some(String::from("c")), completed: None };
    let item = store.update_at(2, &patch, at(30)).unwrap();
    assert_eq!(item.title, "c");
    assert!(item.completed);
    assert_eq!(item.updated_at, Some(at(30)));

    let patch = UpdateTodoItem { title: Some(String::from("d")), completed: Some(false) };
    let item = store.update_at(2, &patch, at(40)).unwrap();
    assert_eq!(item.title, "d");
    assert!(!item.completed);
    assert_eq!(item.updated_at, Some(at(40)));

    let items = store.list();
    assert_eq!(items.len(), 2);
    assert_eq!(items[0].title, "a");
    assert_eq!(items[0].updated_at, None);
    assert_eq!(items[1].title, "d");
    assert_eq!(items[1].updated_at, Some(at(40)));
}

#[test]
fn update_with_empty_patch_refreshes_updated_at() {
    let mut store = Store::new();
    store.insert_with(1, String::from("a"), true, at(10));
    let item = store.update_at(1, &no_change(), at(15)).unwrap();
    assert_eq!(item.title, "a");
    assert!(item.completed);
    assert_eq!(item.created_at, at(10));
    assert_eq!(item.updated_at, Some(at(15)));
}

#[test]
fn update_keeps_position() {
    let mut store = Store::new();
    store.insert_with(1, String::from("a"), false, at(1));
    store.insert_with(2, String::from("b"), false, at(2));
    store.insert_with(3, String::from("c"), false, at(3));
    store.update_at(1, &UpdateTodoItem { title: Some(String::from("z")), completed: None }, at(9))
        .unwrap();
    assert_eq!(titles(&store.list()), vec!["z", "b", "c"]);
}

#[test]
fn update_stamps_no_earlier_than_creation() {
    let mut store = Store::new();
    let created = store.insert(String::from("a"), false).remove(0);
    let item = store.update(created.id, &no_change()).unwrap();
    let stamp = item.updated_at.unwrap();
    assert_eq!(item.created_at, created.created_at);
    assert!(item.created_at.is_not_after(&stamp));
    assert!(stamp.nanos < 1_000_000_000);
    assert_eq!(store.list()[0].updated_at, Some(stamp));
}

#[test]
fn update_of_missing_id_changes_nothing() {
    let mut store = Store::new();
    store.insert_with(1, String::from("a"), false, at(10));
    let patch = UpdateTodoItem { title: Some(String::from("x")), completed: Some(true) };
    assert_eq!(store.update_at(2, &patch, at(20)).unwrap_err(), StoreError::NotFound);
    assert_eq!(store.update(2, &patch).unwrap_err(), StoreError::NotFound);
    let items = store.list();
    assert_eq!(items.len(), 1);
    assert_eq!(items[0].title, "a");
    assert!(!items[0].completed);
    assert_eq!(items[0].updated_at, None);
}

#[test]
fn update_on_empty_store_is_not_found() {
    let mut store = Store::new();
    assert_eq!(store.update_at(1, &no_change(), at(1)).unwrap_err(), StoreError::NotFound);
    assert!(store.list().is_empty());
}

#[test]
fn update_changes_first_of_equal_ids() {
    let mut store = Store::new();
    store.insert_with(7, String::from("a"), false, at(1));
    store.insert_with(7, String::from("b"), false, at(2));
    let item = store.update_at(7, &UpdateTodoItem { title: None, completed: Some(true) }, at(3))
        .unwrap();
    assert_eq!(item.title, "a");
    let items = store.list();
    assert!(items[0].completed);
    assert_eq!(items[0].updated_at, Some(at(3)));
    assert!(!items[1].completed);
    assert_eq!(items[1].updated_at, None);
}

#[test]
fn delete_removes_the_matching_item_only() {
    let mut store = Store::new();
    store.insert_with(1, String::from("a"), false, at(1));
    store.insert_with(2, String::from("b"), true, at(2));
    store.insert_with(3, String::from("c"), false, at(3));
    store.update_at(3, &no_change(), at(4)).unwrap();

    let left = store.delete(2).unwrap();
    assert_eq!(left.len(), 2);
    assert_eq!(left[0].id, 1);
    assert_eq!(left[0].title, "a");
    assert!(!left[0].completed);
    assert_eq!(left[0].created_at, at(1));
    assert_eq!(left[0].updated_at, None);
    assert_eq!(left[1].id, 3);
    assert_eq!(left[1].title, "c");
    assert!(!left[1].completed);
    assert_eq!(left[1].created_at, at(3));
    assert_eq!(left[1].updated_at, Some(at(4)));
    assert_eq!(titles(&store.list()), vec!["a", "c"]);
}

#[test]
fn delete_first_and_last() {
    let mut store = Store::new();
    store.insert_with(1, String::from("a"), false, at(1));
    store.insert_with(2, String::from("b"), false, at(2));
    store.insert_with(3, String::from("c"), false, at(3));
    assert_eq!(titles(&store.delete(1).unwrap()), vec!["b", "c"]);
    assert_eq!(titles(&store.delete(3).unwrap()), vec!["b"]);
    assert!(store.delete(2).unwrap().is_empty());
    assert!(store.list().is_empty());
}

#[test]
fn delete_of_missing_id_changes_nothing() {
    let mut store = Store::new();
    store.insert_with(1, String::from("a"), false, at(1));
    assert_eq!(store.delete(9).unwrap_err(), StoreError::NotFound);
    let items = store.list();
    assert_eq!(items.len(), 1);
    assert_eq!(items[0].id, 1);
    assert_eq!(items[0].title, "a");
}

#[test]
fn delete_on_empty_store_is_not_found() {
    let mut store = Store::new();
    assert_eq!(store.delete(1).unwrap_err(), StoreError::NotFound);
}

#[test]
fn delete_twice_is_not_found_the_second_time() {
    let mut store = Store::new();
    store.insert_with(1, String::from("a"), false, at(1));
    store.insert_with(2, String::from("b"), false, at(2));
    let after_first = store.delete(1).unwrap();
    assert_eq!(store.delete(1).unwrap_err(), StoreError::NotFound);
    let after_second = store.list();
    assert_eq!(after_first.len(), after_second.len());
    assert_eq!(after_second.len(), 1);
    assert_eq!(after_first[0].id, after_second[0].id);
    assert_eq!(after_first[0].title, after_second[0].title);
    assert_eq!(after_first[0].completed, after_second[0].completed);
    assert_eq!(after_first[0].created_at, after_second[0].created_at);
    assert_eq!(after_first[0].updated_at, after_second[0].updated_at);
}

#[test]
fn delete_removes_every_item_with_the_id() {
    let mut store = Store::new();
    store.insert_with(7, String::from("a"), false, at(1));
    store.insert_with(8, String::from("b"), false, at(2));
    store.insert_with(7, String::from("c"), false, at(3));
    assert_eq!(titles(&store.delete(7).unwrap()), vec!["b"]);
}

#[test]
fn snapshot_is_a_copy() {
    let mut store = Store::new();
    let mut snapshot = store.insert_with(1, String::from("a"), false, at(1));
    snapshot[0].title = String::from("changed");
    snapshot.clear();
    let items = store.list();
    assert_eq!(items.len(), 1);
    assert_eq!(items[0].title, "a");
}
