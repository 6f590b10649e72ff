use storage_node::app_state::AppState;
use storage_node::config::ConfigFromFile;
use storage_node::config_store::Monitor;
use storage_node::file_store::{FileStoreFunc, RecoverEntry};
use storage_node::recover_service::{RecoverService, RecoverStep};
use storage_node::server::DownloadResponse;
use storage_node::stat_store::Stats;

const H_HELLO: &str = "aaf4c61ddcc5e8a2dabede0f3b482cd9aea9434d";

fn monitor(addr: &str, region: &str) -> Monitor {
    Monitor { addr: String::from(addr), bound: vec![String::from(region)] }
}

fn state() -> AppState {
    AppState::new(
        ConfigFromFile {
            fingerprint: String::from("node-1"),
            port: 8080,
            manager_addr: String::from("http://manager"),
            ipv6: None,
        },
        Stats {
            first_online: 1000,
            region: String::from("europe"),
            uptime: vec![8, 20],
            capacity: 1000,
            connection: 20000,
            uptime_counter: 500,
        },
        monitor("http://m1", "europe"),
        vec![monitor("http://m1", "europe")],
        false,
        false,
        "/state",
        vec![],
    )
}

fn request(hash: &str, last_checked: i64) -> RecoverEntry {
    RecoverEntry { hash: String::from(hash), last_checked }
}

#[test]
fn next_step_rests_when_nothing_is_queued() {
    let service = RecoverService::new(10);
    assert_eq!(service.timeout, 10);
    let mut state = state();
    assert!(matches!(service.next_step_at(&mut state, &vec![], 1000), RecoverStep::Sleep(10)));
}

#[test]
fn next_step_rests_while_the_only_entry_rests() {
    let service = RecoverService::new(10);
    let mut state = state();
    state.file_store.insert_files_to_recover(vec![request("h1", 900)]);
    assert!(matches!(service.next_step_at(&mut state, &vec![], 1000), RecoverStep::Sleep(10)));
    match service.next_step_at(&mut state, &vec![], 1201) {
        RecoverStep::Lookup(entry) => {
            assert_eq!(entry.hash, "h1");
            assert_eq!(entry.last_checked, 900);
        }
        _ => panic!("the entry was due"),
    }
}

#[test]
fn next_step_rejects_when_no_room_is_left() {
    let service = RecoverService::new(10);
    let mut state = state();
    state.file_store.insert_files_to_recover(vec![request("h1", 61), request("h2", 61)]);
    match service.next_step_at(&mut state, &vec![1000], 1000) {
        RecoverStep::Rejected(hash) => assert_eq!(hash, "h1"),
        _ => panic!("no room was left"),
    }
    assert_eq!(state.file_store.rejected_hashes(), vec![String::from("h1")]);
    match service.next_step_at(&mut state, &vec![999], 1000) {
        RecoverStep::Lookup(entry) => assert_eq!(entry.hash, "h2"),
        _ => panic!("room was left"),
    }
    assert_eq!(state.file_store.rejected_hashes(), vec![String::from("h1")]);
}

#[test]
fn next_step_by_the_clock() {
    let service = RecoverService::new(10);
    let mut state = state();
    state.file_store.insert_files_to_recover(vec![request("later", i64::MAX), request("h1", 61)]);
    match service.next_step(&mut state, &vec![]) {
        RecoverStep::Lookup(entry) => assert_eq!(entry.hash, "h1"),
        _ => panic!("an entry was due"),
    }
    assert!(matches!(service.next_step(&mut state, &vec![]), RecoverStep::Sleep(10)));
}

#[test]
fn a_failed_attempt_is_queued_again_to_rest() {
    let mut state = state();
    RecoverService::handle_lookup_fail_at(&mut state, "h3", 5000);
    assert!(state.file_store.next_file_to_recover_at(5060).is_none());
    assert!(state.file_store.next_file_to_recover_at(5300).is_none());
    let again = state.file_store.next_file_to_recover_at(5310).unwrap();
    assert_eq!(again.hash, "h3");
    assert_eq!(again.last_checked, 5000);
}

#[test]
fn a_failed_attempt_for_a_file_held_by_now_is_rejected() {
    let mut state = state();
    let h = state.add_new_file(b"hello", "text/plain", "a.txt", false);
    RecoverService::handle_lookup_fail_at(&mut state, &h, 5000);
    assert!(state.file_store.next_file_to_recover_at(i64::MAX).is_none());
    assert_eq!(state.file_store.rejected_hashes(), vec![h]);
}

#[test]
fn a_failed_attempt_by_the_clock_rests_from_now() {
    let mut state = state();
    RecoverService::handle_lookup_fail(&mut state, "h3");
    assert!(state.file_store.next_file_to_recover().is_none());
    let again = state.file_store.next_file_to_recover_at(i64::MAX).unwrap();
    assert_eq!(again.hash, "h3");
    assert!(again.last_checked > 1_600_000_000);
}

#[test]
fn a_fetched_file_is_stored_but_not_distributed() {
    let mut state = state();
    let download = DownloadResponse {
        hash: String::from(H_HELLO),
        content: b"hello".to_vec(),
        content_type: String::from("text/plain"),
        file_name: String::from("g.txt"),
    };
    let hash = RecoverService::handle_lookup_success(&mut state, &download);
    assert_eq!(hash, H_HELLO);
    assert!(state.force_ping);
    let entry = state.file_store.get_file(H_HELLO).unwrap();
    assert_eq!(entry.file_name, "g.txt");
    assert_eq!(entry.content_type, "text/plain");
    assert_eq!(state.file_store.uploaded_hashes(), vec![String::from(H_HELLO)]);
    assert_eq!(state.file_store.next_file_to_distribute(), None);
}
