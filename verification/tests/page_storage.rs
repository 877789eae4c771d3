use incular_widgets::page_storage::{PageStorage, PageStorageBucket, PageStorageIdentifier, PageStorageKey};
use incular_widgets::widget::Widget;
use serde_json::Value;

fn id(keys: &[u64]) -> PageStorageIdentifier {
    PageStorageIdentifier::new(keys.iter().map(|k| PageStorageKey::new(*k)).collect())
}

#[test]
fn read_gives_back_what_was_written() {
    let mut bucket = PageStorageBucket::new();
    assert!(bucket.write_state(id(&[1, 2]), Value::from(42)));
    assert_eq!(bucket.read_state(&id(&[1, 2])), Some(Value::from(42)));
    assert_eq!(bucket.read_state(&id(&[1])), None);
    assert_eq!(bucket.revision(), 1);
    assert_eq!(bucket.len(), 1);
}

#[test]
fn writing_an_equal_value_changes_nothing() {
    let mut bucket = PageStorageBucket::new();
    assert!(bucket.write_state(id(&[5]), Value::from("a")));
    assert!(!bucket.write_state(id(&[5]), Value::from("a")));
    assert_eq!(bucket.revision(), 1);
    assert!(bucket.write_state(id(&[5]), Value::from("b")));
    assert_eq!(bucket.revision(), 2);
    assert_eq!(bucket.read_state(&id(&[5])), Some(Value::from("b")));
    assert_eq!(bucket.len(), 1);
}

#[test]
fn empty_identifier_stores_nothing() {
    let mut bucket = PageStorageBucket::new();
    assert!(!bucket.write_state(id(&[]), Value::from(1)));
    assert!(bucket.is_empty());
    assert_eq!(bucket.read_state(&id(&[])), None);
    assert!(!bucket.contains(&id(&[])));
    assert_eq!(bucket.revision(), 0);
}

#[test]
fn remove_returns_the_value_and_forgets_it() {
    let mut bucket = PageStorageBucket::new();
    bucket.write_state(id(&[1]), Value::from(1));
    bucket.write_state(id(&[2]), Value::from(2));
    assert_eq!(bucket.remove_state(&id(&[1])), Some(Value::from(1)));
    assert_eq!(bucket.remove_state(&id(&[1])), None);
    assert!(!bucket.contains(&id(&[1])));
    assert!(bucket.contains(&id(&[2])));
    assert_eq!(bucket.revision(), 3);
}

#[test]
fn clear_counts_what_it_removed() {
    let mut bucket = PageStorageBucket::new();
    assert_eq!(bucket.clear(), 0);
    assert_eq!(bucket.revision(), 0);
    bucket.write_state(id(&[1]), Value::from(true));
    bucket.write_state(id(&[1, 1]), Value::from(false));
    assert_eq!(bucket.clear(), 2);
    assert!(bucket.is_empty());
    assert_eq!(bucket.revision(), 3);
}

#[test]
fn identifier_chains_are_ordered() {
    let mut i = PageStorageIdentifier::key(PageStorageKey::new(3));
    i.push(PageStorageKey::new(4));
    assert_eq!(i.keys().iter().map(|k| k.key_id()).collect::<Vec<_>>(), vec![3, 4]);
    assert!(!i.is_empty());
    assert!(i.same_as(&id(&[3, 4])));
    assert!(!i.same_as(&id(&[4, 3])));
    assert!(i.copy().same_as(&i));
}

#[test]
fn page_storage_scope_owns_a_fresh_bucket() {
    let scope = PageStorage::new(Widget::Empty);
    assert!(scope.bucket().is_empty());
    assert!(matches!(scope.child(), Widget::Empty));
    let mut bucket = PageStorageBucket::new();
    bucket.write_state(id(&[9]), Value::from(9));
    let scope = PageStorage::with_bucket(bucket, Widget::Empty);
    assert_eq!(scope.bucket().read_state(&id(&[9])), Some(Value::from(9)));
}

#[test]
fn a_write_leaves_other_identifiers_alone() {
    let mut bucket = PageStorageBucket::new();
    bucket.write_state(id(&[1]), Value::from("one"));
    bucket.write_state(id(&[2]), Value::from("two"));
    bucket.write_state(id(&[1]), Value::from("uno"));
    assert_eq!(bucket.read_state(&id(&[2])), Some(Value::from("two")));
    assert_eq!(bucket.read_state(&id(&[1])), Some(Value::from("uno")));
}
