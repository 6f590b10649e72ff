use storage_node::http_requests::{
    distribute_url, download_url, get_file_name, has_file_name_value, lookup_url, ping_url,
    read_download, register_url, shutdown_url, RegisterRequest,
};
use storage_node::stat_store::Stats;

#[test]
fn urls() {
    assert_eq!(register_url("http://manager"), "http://manager/api/register/node");
    assert_eq!(lookup_url("http://m1", "abc"), "http://m1/lookup/abc?forward=true");
    assert_eq!(ping_url("http://m1"), "http://m1/ping");
    assert_eq!(download_url("http://n2:8080", "abc"), "http://n2:8080/download/abc");
    assert_eq!(shutdown_url("http://m1", "node-1"), "http://m1/shutdown/node-1");
    assert_eq!(distribute_url("http://m1", "abc"), "http://m1/distribute/abc?forward=false");
}

#[test]
fn register_request_comes_from_the_descriptors() {
    let stats = Stats {
        first_online: 0,
        region: String::from("asia"),
        uptime: vec![6, 22],
        capacity: 100,
        connection: 1,
        uptime_counter: 0,
    };
    let request = RegisterRequest::from_stats(&stats, Some(String::from("::1")));
    assert_eq!(request.region, "asia");
    assert_eq!(request.uptime, vec![6, 22]);
    assert_eq!(request.ipv6, Some(String::from("::1")));
    let request = RegisterRequest::from_stats(&stats, None);
    assert_eq!(request.ipv6, None);
}

#[test]
fn file_name_of_a_download_header() {
    assert_eq!(get_file_name(":attachment; filename=g.txt"), "g.txt");
    assert_eq!(get_file_name("attachment; filename='my file.txt'"), "my file.txt");
    assert_eq!(get_file_name("attachment; filename= spaced.txt "), "spaced.txt");
    assert_eq!(get_file_name("filename=a.txt; filename=b.txt"), "a.txt");
    assert_eq!(get_file_name("attachment; filename=a=b"), "a");
    assert_eq!(get_file_name("attachment; filename="), "");
    assert_eq!(get_file_name("attachment; filename*=x; filename=y"), "x");
}

#[test]
fn file_name_is_trimmed_after_the_apostrophes_are_taken_out() {
    assert_eq!(get_file_name("attachment; filename=' a '"), "a");
    assert_eq!(get_file_name("attachment; filename=\u{3000}a'\u{a0}\t"), "a");
    assert_eq!(get_file_name("attachment; filename=a b"), "a b");
    assert_eq!(get_file_name("attachment; filename=\"q.txt\""), "\"q.txt\"");
}

#[test]
fn file_name_of_a_header_without_one() {
    assert_eq!(get_file_name("attachment"), "Does not contain filename");
    assert_eq!(get_file_name(""), "Does not contain filename");
    assert_eq!(get_file_name("file; name=x"), "Does not contain filename");
}

#[test]
fn a_file_name_needs_an_equals_sign() {
    assert!(has_file_name_value(":attachment; filename=g.txt"));
    assert!(has_file_name_value("attachment"));
    assert!(has_file_name_value(""));
    assert!(!has_file_name_value("attachment; filename"));
    assert!(!has_file_name_value("filename; x=1"));
    assert!(has_file_name_value("a=1; filename=x"));
}

#[test]
fn read_download_takes_type_and_name_from_the_headers() {
    let download = read_download(
        "abc",
        Some("text/plain"),
        ":attachment; filename=g.txt",
        b"hello".to_vec(),
    );
    assert_eq!(download.hash, "abc");
    assert_eq!(download.content, b"hello".to_vec());
    assert_eq!(download.content_type, "text/plain");
    assert_eq!(download.file_name, "g.txt");
    let download = read_download("abc", None, "attachment", vec![]);
    assert_eq!(download.content_type, "application/octet-stream");
    assert_eq!(download.file_name, "Does not contain filename");
}
