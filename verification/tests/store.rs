use rs_google_photos_sync::clock::Timestamp;
use rs_google_photos_sync::my_db::{find, put, KeyValueStore, PERSIST_INTERVAL_MILLIS};

fn at(millis: i64) -> Timestamp {
    Timestamp { millis }
}

fn key(text: &str) -> String {
    text.to_string()
}

#[test]
fn new_store_is_empty_and_keeps_its_path() {
    let store: KeyValueStore<u32> = KeyValueStore::new_at("secrets/photos.data", at(42));
    assert_eq!(store.len(), 0);
    assert_eq!(store.path, "secrets/photos.data");
    assert_eq!(store.last_save_at, at(42));
    assert!(store.get_all().is_empty());
}

#[test]
fn new_store_by_the_clock_is_empty() {
    let store: KeyValueStore<u32> = KeyValueStore::new("catalog.json");
    assert_eq!(store.len(), 0);
    assert_eq!(store.path, "catalog.json");
    assert!(store.last_save_at.millis > 1_500_000_000_000);
}

#[test]
fn set_then_get_returns_the_record() {
    let mut store: KeyValueStore<u32> = KeyValueStore::new_at("catalog.json", at(0));
    let outcome = store.set_at(&key("a"), 7, at(10));
    assert_eq!(outcome.previous, None);
    assert!(!outcome.persist_due);
    assert_eq!(store.get(&key("a")), Some(&7));
    assert_eq!(store.get(&key("b")), None);
}

#[test]
fn set_replaces_in_place_and_returns_the_previous_record() {
    let mut store: KeyValueStore<u32> = KeyValueStore::new_at("catalog.json", at(0));
    store.set_at(&key("a"), 1, at(1));
    store.set_at(&key("b"), 2, at(2));
    let outcome = store.set_at(&key("a"), 3, at(3));
    assert_eq!(outcome.previous, Some(1));
    assert_eq!(store.len(), 2);
    assert_eq!(store.get_all(), vec![&3, &2]);
    assert_eq!(store.data[0].0, "a");
    assert_eq!(store.data[1].0, "b");
}

#[test]
fn set_by_the_clock_files_the_record() {
    let mut store: KeyValueStore<u32> = KeyValueStore::new_at("catalog.json", at(0));
    let outcome = store.set(&key("a"), 5);
    assert_eq!(outcome.previous, None);
    assert!(outcome.persist_due);
    assert!(store.last_save_at.millis > 0);
    let again = store.set(&key("a"), 6);
    assert_eq!(again.previous, Some(5));
    assert!(!again.persist_due);
    assert_eq!(store.get_cloned(&key("a")), Some(6));
}

#[test]
fn get_cloned_hands_out_an_independent_copy() {
    let mut store: KeyValueStore<Vec<u8>> = KeyValueStore::new_at("catalog.json", at(0));
    store.set_at(&key("a"), vec![1, 2], at(1));
    let mut copy = store.get_cloned(&key("a")).unwrap();
    copy.push(3);
    assert_eq!(store.get(&key("a")), Some(&vec![1, 2]));
    assert_eq!(store.get_cloned(&key("zz")), None);
}

#[test]
fn two_writes_within_the_interval_ask_for_one_snapshot_at_most() {
    let mut store: KeyValueStore<u32> = KeyValueStore::new_at("catalog.json", at(0));
    let first = store.set_at(&key("a"), 1, at(6000));
    let second = store.set_at(&key("b"), 2, at(6000 + PERSIST_INTERVAL_MILLIS));
    assert!(first.persist_due);
    assert!(!second.persist_due);
    assert_eq!(store.last_save_at, at(6000));

    let mut quiet: KeyValueStore<u32> = KeyValueStore::new_at("catalog.json", at(0));
    let first = quiet.set_at(&key("a"), 1, at(1000));
    let second = quiet.set_at(&key("b"), 2, at(4000));
    assert!(!first.persist_due);
    assert!(!second.persist_due);
    assert_eq!(quiet.last_save_at, at(0));
}

#[test]
fn two_writes_across_the_interval_ask_for_a_snapshot_each() {
    let mut store: KeyValueStore<u32> = KeyValueStore::new_at("catalog.json", at(0));
    let first = store.set_at(&key("a"), 1, at(5001));
    let second = store.set_at(&key("b"), 2, at(10002));
    assert!(first.persist_due);
    assert!(second.persist_due);
    assert_eq!(store.last_save_at, at(10002));
}

#[test]
fn a_write_exactly_at_the_interval_asks_for_no_snapshot() {
    let mut store: KeyValueStore<u32> = KeyValueStore::new_at("catalog.json", at(100));
    assert!(!store.should_persist(at(5100)));
    assert!(store.should_persist(at(5101)));
    let outcome = store.set_at(&key("a"), 1, at(5100));
    assert!(!outcome.persist_due);
    assert_eq!(store.last_save_at, at(100));
}

#[test]
fn throttle_is_safe_at_the_ends_of_time() {
    let store: KeyValueStore<u32> = KeyValueStore::new_at("catalog.json", at(i64::MIN));
    assert!(store.should_persist(at(i64::MAX)));
    let late: KeyValueStore<u32> = KeyValueStore::new_at("catalog.json", at(i64::MAX));
    assert!(!late.should_persist(at(i64::MIN)));
}

#[test]
fn filter_values_keeps_order_and_honours_the_limit() {
    let mut store: KeyValueStore<u32> = KeyValueStore::new_at("catalog.json", at(0));
    for (i, name) in ["a", "b", "c", "d", "e"].iter().enumerate() {
        store.set_at(&key(name), i as u32, at(1));
    }
    let even = |entry: &(&String, &u32)| entry.1 % 2 == 0;
    assert_eq!(store.filter_values(even, None), vec![0, 2, 4]);
    assert_eq!(store.filter_values(even, Some(2)), vec![0, 2]);
    assert_eq!(store.filter_values(even, Some(3)), vec![0, 2, 4]);
    assert_eq!(store.filter_values(even, Some(10)), vec![0, 2, 4]);
    assert_eq!(store.filter_values(even, Some(0)), Vec::<u32>::new());
    let by_key = |entry: &(&String, &u32)| entry.0.as_str() > "b";
    assert_eq!(store.filter_values(by_key, Some(2)), vec![2, 3]);
}

#[test]
fn load_replaces_the_records_and_a_later_duplicate_stands() {
    let mut store: KeyValueStore<u32> = KeyValueStore::new_at("catalog.json", at(7));
    store.set_at(&key("old"), 9, at(8));
    store.load(vec![(key("a"), 1), (key("b"), 2), (key("a"), 3)]);
    assert_eq!(store.len(), 2);
    assert_eq!(store.get(&key("a")), Some(&3));
    assert_eq!(store.get(&key("b")), Some(&2));
    assert_eq!(store.get(&key("old")), None);
    assert_eq!(store.data[0].0, "a");
    assert_eq!(store.path, "catalog.json");
    assert_eq!(store.last_save_at, at(7));
}

#[test]
fn put_and_find_work_on_a_plain_table() {
    let mut table: Vec<(String, u8)> = Vec::new();
    assert_eq!(put(&mut table, &key("x"), 1), None);
    assert_eq!(put(&mut table, &key("y"), 2), None);
    assert_eq!(put(&mut table, &key("x"), 3), Some(1));
    assert_eq!(find(&table, &key("y")), Some(1));
    assert_eq!(find(&table, &key("x")), Some(0));
    assert_eq!(find(&table, &key("z")), None);
    assert_eq!(table, vec![(key("x"), 3), (key("y"), 2)]);
}
