use storage_node::file_store::{FileEntry, FileStore, FileStoreFunc, RecoverEntry};

fn entry(hash: &str, name: &str) -> FileEntry {
    FileEntry {
        hash: String::from(hash),
        file_name: String::from(name),
        content_type: String::from("text/plain"),
        path: format!("/state/files/{}", hash),
    }
}

fn request(hash: &str, last_checked: i64) -> RecoverEntry {
    RecoverEntry { hash: String::from(hash), last_checked }
}

#[test]
fn new_store_is_empty() {
    let store = FileStore::new(100, "/state", vec![]);
    assert_eq!(store.hashes(), Vec::<String>::new());
    assert_eq!(store.rejected_hashes(), Vec::<String>::new());
    assert_eq!(store.uploaded_hashes(), Vec::<String>::new());
    assert!(store.get_file("h1").is_none());
    assert_eq!(store.capacity_left(&vec![]), 100);
}

#[test]
fn new_store_indexes_loaded_entries_in_order() {
    let store = FileStore::new(100, "/state", vec![entry("h1", "a"), entry("h2", "b")]);
    assert_eq!(store.hashes(), vec![String::from("h1"), String::from("h2")]);
    assert_eq!(store.get_file("h2").unwrap().file_name, "b");
}

#[test]
fn new_store_keeps_the_later_of_two_entries_with_one_hash() {
    let store = FileStore::new(100, "/state", vec![entry("h1", "a"), entry("h2", "b"), entry("h1", "c")]);
    assert_eq!(store.hashes(), vec![String::from("h1"), String::from("h2")]);
    assert_eq!(store.get_file("h1").unwrap().file_name, "c");
}

#[test]
fn file_path_lies_under_the_files_directory() {
    let store = FileStore::new(100, "/state", vec![]);
    assert_eq!(store.file_path("abc"), "/state/files/abc");
}

#[test]
fn save_file_indexes_the_file_at_its_path() {
    let mut store = FileStore::new(100, "/state", vec![]);
    store.save_file("h1", "text/plain", "g.txt");
    let found = store.get_file("h1").unwrap();
    assert_eq!(found.hash, "h1");
    assert_eq!(found.file_name, "g.txt");
    assert_eq!(found.content_type, "text/plain");
    assert_eq!(found.path, "/state/files/h1");
    assert_eq!(store.hashes(), vec![String::from("h1")]);
}

#[test]
fn save_file_twice_overwrites_in_place() {
    let mut store = FileStore::new(100, "/state", vec![]);
    store.save_file("h1", "text/plain", "a.txt");
    store.save_file("h2", "text/plain", "b.txt");
    store.save_file("h1", "image/png", "c.png");
    assert_eq!(store.hashes(), vec![String::from("h1"), String::from("h2")]);
    let found = store.get_file("h1").unwrap();
    assert_eq!(found.file_name, "c.png");
    assert_eq!(found.content_type, "image/png");
}

#[test]
fn remove_file_takes_the_entry_out() {
    let mut store = FileStore::new(100, "/state", vec![]);
    store.save_file("h1", "text/plain", "a.txt");
    store.save_file("h2", "text/plain", "b.txt");
    store.remove_file("h1");
    assert!(store.get_file("h1").is_none());
    assert_eq!(store.hashes(), vec![String::from("h2")]);
    store.remove_file("missing");
    assert_eq!(store.hashes(), vec![String::from("h2")]);
}

#[test]
fn waited_enough_needs_more_than_five_minutes() {
    let e = request("h", 1000);
    assert!(!e.waited_enough_at(1000));
    assert!(!e.waited_enough_at(1300));
    assert!(e.waited_enough_at(1301));
    assert!(!e.waited_enough_at(0));
}

#[test]
fn waited_enough_at_the_ends_of_the_range() {
    assert!(request("h", i64::MIN).waited_enough_at(i64::MAX));
    assert!(!request("h", i64::MAX).waited_enough_at(i64::MIN));
    assert!(request("h", -1).waited_enough_at(i64::MAX));
    assert!(!request("h", 1).waited_enough_at(i64::MIN));
}

#[test]
fn waited_enough_by_the_clock() {
    assert!(request("h", 61).waited_enough());
    assert!(!request("h", i64::MAX).waited_enough());
}

#[test]
fn recover_requests_are_queued_in_order() {
    let mut store = FileStore::new(100, "/state", vec![]);
    store.insert_files_to_recover(vec![request("h1", 61), request("h2", 61)]);
    let first = store.next_file_to_recover_at(1000).unwrap();
    assert_eq!(first.hash, "h1");
    assert_eq!(first.last_checked, 61);
    assert_eq!(store.next_file_to_recover_at(1000).unwrap().hash, "h2");
    assert!(store.next_file_to_recover_at(1000).is_none());
    assert_eq!(store.rejected_hashes(), Vec::<String>::new());
}

#[test]
fn recover_request_for_a_held_file_is_rejected() {
    let mut store = FileStore::new(100, "/state", vec![]);
    store.save_file("h4", "text/plain", "a.txt");
    store.insert_files_to_recover(vec![request("h3", 61), request("h4", 61), request("h5", 61)]);
    assert_eq!(store.rejected_hashes(), vec![String::from("h4")]);
    assert_eq!(store.next_file_to_recover_at(1000).unwrap().hash, "h3");
    assert_eq!(store.next_file_to_recover_at(1000).unwrap().hash, "h5");
    assert!(store.next_file_to_recover_at(1000).is_none());
}

#[test]
fn next_file_to_recover_skips_entries_that_rest() {
    let mut store = FileStore::new(100, "/state", vec![]);
    store.insert_files_to_recover(vec![request("h1", 900), request("h2", 100), request("h3", 100)]);
    assert_eq!(store.next_file_to_recover_at(1000).unwrap().hash, "h2");
    assert_eq!(store.next_file_to_recover_at(1000).unwrap().hash, "h3");
    assert!(store.next_file_to_recover_at(1000).is_none());
    assert!(store.next_file_to_recover_at(1200).is_none());
    assert_eq!(store.next_file_to_recover_at(1201).unwrap().hash, "h1");
}

#[test]
fn recover_cool_down() {
    let mut store = FileStore::new(100, "/state", vec![]);
    store.insert_files_to_recover(vec![request("h3", 61)]);
    let first = store.next_file_to_recover_at(1_000_000).unwrap();
    assert_eq!(first.hash, "h3");
    // the attempt fails, and the entry is queued again with the time of the failure
    store.insert_files_to_recover(vec![request("h3", 1_000_000)]);
    assert!(store.next_file_to_recover_at(1_000_060).is_none());
    assert_eq!(store.next_file_to_recover_at(1_000_310).unwrap().hash, "h3");
}

#[test]
fn next_file_to_recover_by_the_clock() {
    let mut store = FileStore::new(100, "/state", vec![]);
    store.insert_files_to_recover(vec![request("later", i64::MAX), request("now", 61)]);
    assert_eq!(store.next_file_to_recover().unwrap().hash, "now");
    assert!(store.next_file_to_recover().is_none());
}

#[test]
fn distribution_queue_is_first_in_first_out() {
    let mut store = FileStore::new(100, "/state", vec![]);
    assert!(store.next_file_to_distribute().is_none());
    store.insert_file_to_distribute("h1");
    store.insert_file_to_distribute("h2");
    assert_eq!(store.next_file_to_distribute(), Some(String::from("h1")));
    store.insert_file_to_distribute("h3");
    assert_eq!(store.next_file_to_distribute(), Some(String::from("h2")));
    assert_eq!(store.next_file_to_distribute(), Some(String::from("h3")));
    assert_eq!(store.next_file_to_distribute(), None);
}

#[test]
fn capacity_left_is_quota_less_sizes() {
    let store = FileStore::new(100, "/state", vec![]);
    assert_eq!(store.capacity_left(&vec![10, 20, 30]), 40);
    assert_eq!(store.capacity_left(&vec![100]), 0);
    assert_eq!(store.capacity_left(&vec![60, 60]), 0);
    assert_eq!(store.capacity_left(&vec![u64::MAX, u64::MAX]), 0);
    assert_eq!(store.capacity_left(&vec![60, 60, 0]), 0);
}

#[test]
fn capacity_left_never_exceeds_the_quota() {
    let store = FileStore::new(10 * 1024 * 1024, "/state", vec![]);
    assert_eq!(store.capacity_left(&vec![]), 10 * 1024 * 1024);
    assert_eq!(store.capacity_left(&vec![5]), 10 * 1024 * 1024 - 5);
}

#[test]
fn rejected_hashes_are_listed_and_cleared() {
    let mut store = FileStore::new(100, "/state", vec![]);
    store.reject_hash("h1");
    store.reject_hash("h2");
    store.reject_hash("h1");
    assert_eq!(
        store.rejected_hashes(),
        vec![String::from("h1"), String::from("h2"), String::from("h1")]
    );
    store.clear_rejected_hashes();
    assert_eq!(store.rejected_hashes(), Vec::<String>::new());
}

#[test]
fn uploaded_hashes_are_listed_and_cleared() {
    let mut store = FileStore::new(100, "/state", vec![]);
    store.add_hash_to_uploaded_hashes("h1");
    store.add_hash_to_uploaded_hashes("h2");
    assert_eq!(store.uploaded_hashes(), vec![String::from("h1"), String::from("h2")]);
    store.clear_uploaded_hashes();
    assert_eq!(store.uploaded_hashes(), Vec::<String>::new());
}

#[test]
fn reloading_the_entries_gives_the_same_index() {
    let mut store = FileStore::new(100, "/state", vec![]);
    store.save_file("h1", "text/plain", "a.txt");
    store.save_file("h2", "image/png", "b.png");
    store.save_file("h1", "text/html", "c.html");
    let saved = store.entries();
    let again = FileStore::new(100, "/state", saved);
    assert_eq!(again.hashes(), store.hashes());
    let before = store.entries();
    let after = again.entries();
    assert_eq!(before.len(), after.len());
    for i in 0..before.len() {
        assert_eq!(before[i].hash, after[i].hash);
        assert_eq!(before[i].file_name, after[i].file_name);
        assert_eq!(before[i].content_type, after[i].content_type);
        assert_eq!(before[i].path, after[i].path);
    }
}
