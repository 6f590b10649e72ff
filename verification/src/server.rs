//! What the node's HTTP endpoints answer.

use vstd::prelude::*;
use crate::app_state::AppState;
use crate::config_store::{sha1_hex, ConfigStoreFunc, MAX_CONTENT_LEN};
use crate::file_store::{position_of, FileEntry, FileStoreFunc};
use crate::http_requests::{lookup_url, lookup_url_of};
use crate::text::{join2, join3};

verus! {

/// A stored file as it travels between nodes: its bytes with what
/// describes them.
pub struct DownloadResponse {
    pub hash: String,
    pub content: Vec<u8>,
    pub content_type: String,
    pub file_name: String,
}

/// What a [`DownloadResponse`] holds.
pub struct DownloadResponseView {
    pub hash: Seq<char>,
    pub content: Seq<u8>,
    pub content_type: Seq<char>,
    pub file_name: Seq<char>,
}

impl View for DownloadResponse {
    type V = DownloadResponseView;

    open spec fn view(&self) -> DownloadResponseView {
        DownloadResponseView {
            hash: self.hash@,
            content: self.content@,
            content_type: self.content_type@,
            file_name: self.file_name@,
        }
    }
}


/// The largest request body, in bytes, that the upload endpoint takes.
pub const MAX_UPLOAD_BYTES: u64 = 10485760;

/// The status of an answer that carries what was asked for.
pub const STATUS_OK: u16 = 200;

/// The status of an answer to a request for a file that is not known.
pub const STATUS_NOT_FOUND: u16 = 404;

/// What the download endpoint answers.
pub enum DownloadReply {
    /// The file is held: status 200, the bytes at `path` as the body, under
    /// the given `Content-Type` and `Content-Disposition` headers.
    Found { path: String, content_type: String, content_disposition: String },
    /// The file is not held: status 404, with an empty body.
    NotFound,
}

impl DownloadReply {
    /// The status of the answer: 200 with the file, 404 without.
    pub fn status(&self) -> (status: u16)
        ensures
            status == if self is Found { STATUS_OK } else { STATUS_NOT_FOUND },
    {
        match self {
            DownloadReply::Found { .. } => STATUS_OK,
            DownloadReply::NotFound => STATUS_NOT_FOUND,
        }
    }
}

/// What the lookup endpoint does.
pub enum LookupReply {
    /// The file is held: status 200, with the file itself, its bytes read
    /// from the path of the entry.
    Local(FileEntry),
    /// The file is not held: the monitor is asked at this address, and its
    /// answer passed on.
    Forward(String),
}

/// What the lookup endpoint answers when the monitor knows a node that
/// stores the file: the hash, and as content the address of that node.
pub struct LookupResponse {
    pub hash: String,
    pub content: String,
}

/// The `Content-Disposition` header under which a file of the given name
/// is handed out.
pub open spec fn content_disposition_of(file_name: Seq<char>) -> Seq<char> {
    ":attachment; filename="@ + file_name
}

/// Where the uploader is sent after an upload: back to the manager, with
/// the hash of the stored file, or with an error where nothing was taken.
pub open spec fn upload_redirect_of(manager_addr: Seq<char>, hash: Option<Seq<char>>) -> Seq<char> {
    match hash {
        Some(h) => manager_addr + "?"@ + "status=success&hash="@ + h,
        None => manager_addr + "?"@ + "status=error"@,
    }
}

/// What the download endpoint answers to a request for the file with the
/// given hash.
pub fn download_reply(state: &AppState, hash: &str) -> (reply: DownloadReply)
    ensures
        (match reply {
            DownloadReply::Found { path, content_type, content_disposition } => {
                let entry = state@.file_store.files[position_of(state@.file_store.files, hash@)];
                &&& state@.file_store.holds(hash@)
                &&& path@ == entry.path
                &&& content_type@ == entry.content_type
                &&& content_disposition@ == content_disposition_of(entry.file_name)
            },
            DownloadReply::NotFound => !state@.file_store.holds(hash@),
        }),
{
    match state.file_store.get_file(hash) {
        Some(entry) => DownloadReply::Found {
            path: entry.path.clone(),
            content_type: entry.content_type.clone(),
            content_disposition: join2(":attachment; filename=", entry.file_name.as_str()),
        },
        None => DownloadReply::NotFound,
    }
}

/// What the lookup endpoint does with a request for the file with the
/// given hash.
pub fn lookup_reply(state: &AppState, hash: &str) -> (reply: LookupReply)
    ensures
        (match reply {
            LookupReply::Local(entry) => state@.file_store.holds(hash@) && entry@
                == state@.file_store.files[position_of(state@.file_store.files, hash@)],
            LookupReply::Forward(url) => !state@.file_store.holds(hash@) && url@ == lookup_url_of(
                state@.config_store.own_monitor.addr,
                hash@,
            ),
        }),
{
    match state.file_store.get_file(hash) {
        Some(entry) => LookupReply::Local(entry.clone()),
        None => {
            let monitor = state.config_store.monitor();
            LookupReply::Forward(lookup_url(monitor.addr.as_str(), hash))
        },
    }
}

/// What the lookup endpoint answers when the monitor names the node that
/// stores the file.
pub fn forwarded_lookup(hash: &str, node_addr: &str) -> (response: LookupResponse)
    ensures
        response.hash@ == hash@,
        response.content@ == node_addr@,
{
    LookupResponse { hash: String::from_str(hash), content: String::from_str(node_addr) }
}

/// Whether a part of an upload form, by its name, carries a file.
pub fn is_upload_part(name: &str) -> (r: bool)
    ensures
        r == (name@ == "upload[data]"@),
{
    String::from_str(name) == String::from_str("upload[data]")
}

/// Takes an uploaded file into the node and queues it for distribution.
/// Where the form names no media type, it is `application/octet-stream`;
/// where it names no file, the name is `unknown`. Returns the content
/// address.
pub fn store_upload(
    state: &mut AppState,
    content: &[u8],
    content_type: Option<&str>,
    file_name: Option<&str>,
) -> (hash: String)
    requires
        old(state)@.wf(),
        content@.len() <= MAX_CONTENT_LEN,
    ensures
        hash@ == sha1_hex(content@),
        final(state)@ == old(state)@.with_new_file(
            hash@,
            match content_type {
                Some(t) => t@,
                None => "application/octet-stream"@,
            },
            match file_name {
                Some(n) => n@,
                None => "unknown"@,
            },
            true,
        ),
        final(state)@.wf(),
{
    let content_type = match content_type {
        Some(t) => t,
        None => "application/octet-stream",
    };
    let file_name = match file_name {
        Some(n) => n,
        None => "unknown",
    };
    state.add_new_file(content, content_type, file_name, true)
}

/// Where the uploader is sent after an upload, given the hash of the file
/// that was stored last, if any was.
pub fn upload_redirect(state: &AppState, hash: Option<&str>) -> (location: String)
    ensures
        location@ == upload_redirect_of(state@.config_store.manager_addr, match hash {
            Some(h) => Some(h@),
            None => None,
        }),
{
    let manager_addr = state.config_store.manager();
    match hash {
        Some(h) => {
            let mut location = join3(manager_addr.as_str(), "?", "status=success&hash=");
            location.append(h);
            location
        },
        None => join3(manager_addr.as_str(), "?", "status=error"),
    }
}

/// What the probe endpoint answers, with status 200.
pub fn ping_reply() -> (body: String)
    ensures
        body@ == "pong"@,
{
    String::from_str("pong")
}

} // verus!
