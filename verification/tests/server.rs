use storage_node::app_state::AppState;
use storage_node::config::ConfigFromFile;
use storage_node::config_store::Monitor;
use storage_node::file_store::FileStoreFunc;
use storage_node::server::{
    download_reply, forwarded_lookup, is_upload_part, lookup_reply, ping_reply, store_upload,
    upload_redirect, DownloadReply, LookupReply, MAX_UPLOAD_BYTES, STATUS_NOT_FOUND, STATUS_OK,
};
use storage_node::stat_store::Stats;

const H_HELLO: &str = "aaf4c61ddcc5e8a2dabede0f3b482cd9aea9434d";

fn monitor(addr: &str, region: &str) -> Monitor {
    Monitor { addr: String::from(addr), bound: vec![String::from(region)] }
}

fn state() -> AppState {
    AppState::new(
        ConfigFromFile {
            fingerprint: String::from("node-1"),
            port: 8080,
            manager_addr: String::from("http://manager"),
            ipv6: None,
        },
        Stats {
            first_online: 1000,
            region: String::from("europe"),
            uptime: vec![8, 20],
            capacity: 10 * 1024 * 1024,
            connection: 20000,
            uptime_counter: 500,
        },
        monitor("http://m1", "europe"),
        vec![monitor("http://m1", "europe")],
        false,
        false,
        "/state",
        vec![],
    )
}

#[test]
fn constants() {
    assert_eq!(MAX_UPLOAD_BYTES, 10 * 1024 * 1024);
    assert_eq!(STATUS_OK, 200);
    assert_eq!(STATUS_NOT_FOUND, 404);
    assert_eq!(ping_reply(), "pong");
}

#[test]
fn upload_then_download() {
    let mut state = state();
    assert!(is_upload_part("upload[data]"));
    let hash = store_upload(&mut state, b"hello", Some("text/plain"), Some("g.txt"));
    assert_eq!(hash, H_HELLO);
    assert_eq!(
        upload_redirect(&state, Some(hash.as_str())),
        format!("http://manager?status=success&hash={}", H_HELLO)
    );
    assert!(state.force_ping);
    assert_eq!(state.file_store.next_file_to_distribute(), Some(String::from(H_HELLO)));
    let reply = download_reply(&state, &hash);
    assert_eq!(reply.status(), 200);
    match reply {
        DownloadReply::Found { path, content_type, content_disposition } => {
            assert_eq!(path, format!("/state/files/{}", H_HELLO));
            assert_eq!(content_type, "text/plain");
            assert_eq!(content_disposition, ":attachment; filename=g.txt");
        }
        DownloadReply::NotFound => panic!("the file was stored"),
    }
}

#[test]
fn upload_without_type_and_name_gets_the_defaults() {
    let mut state = state();
    let hash = store_upload(&mut state, b"hello", None, None);
    let entry = state.file_store.get_file(&hash).unwrap();
    assert_eq!(entry.content_type, "application/octet-stream");
    assert_eq!(entry.file_name, "unknown");
}

#[test]
fn upload_of_nothing_redirects_with_an_error() {
    let state = state();
    assert_eq!(upload_redirect(&state, None), "http://manager?status=error");
}

#[test]
fn only_the_data_part_of_a_form_is_a_file() {
    assert!(is_upload_part("upload[data]"));
    assert!(!is_upload_part("upload"));
    assert!(!is_upload_part("upload[data] "));
    assert!(!is_upload_part(""));
}

#[test]
fn download_of_an_unknown_hash_is_not_found() {
    let state = state();
    let reply = download_reply(&state, "nope");
    assert_eq!(reply.status(), 404);
    assert!(matches!(reply, DownloadReply::NotFound));
}

#[test]
fn lookup_answers_from_the_inventory_or_asks_the_monitor() {
    let mut state = state();
    let hash = store_upload(&mut state, b"hello", Some("text/plain"), Some("g.txt"));
    match lookup_reply(&state, &hash) {
        LookupReply::Local(entry) => {
            assert_eq!(entry.hash, H_HELLO);
            assert_eq!(entry.file_name, "g.txt");
            assert_eq!(entry.content_type, "text/plain");
            assert_eq!(entry.path, format!("/state/files/{}", H_HELLO));
        }
        LookupReply::Forward(_) => panic!("the file was stored"),
    }
    match lookup_reply(&state, "other") {
        LookupReply::Forward(url) => assert_eq!(url, "http://m1/lookup/other?forward=true"),
        LookupReply::Local(_) => panic!("the file is not stored"),
    }
}

#[test]
fn forwarded_lookup_names_the_node() {
    let response = forwarded_lookup("abc", "http://n2:8080");
    assert_eq!(response.hash, "abc");
    assert_eq!(response.content, "http://n2:8080");
}
