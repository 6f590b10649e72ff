//! The requests that a node sends to the manager, to monitors and to other
//! nodes: what goes into them, where they go, and what is read from the
//! answers.

use vstd::prelude::*;
use crate::config_store::{monitor_views, option_view, Monitor, MonitorView};
use crate::stat_store::Stats;
use crate::server::{DownloadResponse, DownloadResponseView};
use crate::text::{
    contains_chars, contains_sub, find_char, find_field_with, first_field_with, from_chars,
    is_space, is_space_char, join2, join3, lemma_trim_end, lemma_trim_start,
    second_field, to_chars, trimmed, views, without_char,
};

verus! {

/// What a node tells the manager when it registers.
pub struct RegisterRequest {
    pub region: String,
    pub uptime: Vec<u32>,
    pub ipv6: Option<String>,
}

/// What a [`RegisterRequest`] holds.
pub struct RegisterRequestView {
    pub region: Seq<char>,
    pub uptime: Seq<u32>,
    pub ipv6: Option<Seq<char>>,
}

impl View for RegisterRequest {
    type V = RegisterRequestView;

    open spec fn view(&self) -> RegisterRequestView {
        RegisterRequestView {
            region: self.region@,
            uptime: self.uptime@,
            ipv6: option_view(self.ipv6),
        }
    }
}

impl RegisterRequest {
    /// The request of a node with the given descriptors and advertised
    /// address.
    pub fn from_stats(stats: &Stats, ipv6: Option<String>) -> (request: RegisterRequest)
        ensures
            request@ == (RegisterRequestView {
                region: stats@.region,
                uptime: stats@.uptime,
                ipv6: option_view(ipv6),
            }),
    {
        let mut uptime: Vec<u32> = Vec::new();
        let mut i: usize = 0;
        while i < stats.uptime.len()
            invariant
                i <= stats.uptime.len(),
                uptime@ == stats.uptime@.take(i as int),
            decreases stats.uptime.len() - i,
        {
            uptime.push(stats.uptime[i]);
            assert(stats.uptime@.take(i + 1) =~= stats.uptime@.take(i as int).push(
                stats.uptime@[i as int],
            ));
            i += 1;
        }
        assert(stats.uptime@.take(i as int) =~= stats.uptime@);
        RegisterRequest { region: stats.region.clone(), uptime, ipv6 }
    }
}

/// What the manager answers to a registration.
pub struct RegisterResponse {
    /// The monitor that the node is assigned to.
    pub own_monitor: Monitor,
    /// All monitors that the manager knows.
    pub monitors: Vec<Monitor>,
    /// The address under which other nodes reach this node.
    pub addr: String,
}

/// What a [`RegisterResponse`] holds.
pub struct RegisterResponseView {
    pub own_monitor: MonitorView,
    pub monitors: Seq<MonitorView>,
    pub addr: Seq<char>,
}

impl View for RegisterResponse {
    type V = RegisterResponseView;

    open spec fn view(&self) -> RegisterResponseView {
        RegisterResponseView {
            own_monitor: self.own_monitor@,
            monitors: monitor_views(self.monitors@),
            addr: self.addr@,
        }
    }
}

/// What a monitor answers to a lookup: the node that stores the file.
pub struct LookupMonitorResponse {
    pub hash: String,
    pub node_addr: String,
}

/// What a [`LookupMonitorResponse`] holds.
pub struct LookupMonitorResponseView {
    pub hash: Seq<char>,
    pub node_addr: Seq<char>,
}

impl View for LookupMonitorResponse {
    type V = LookupMonitorResponseView;

    open spec fn view(&self) -> LookupMonitorResponseView {
        LookupMonitorResponseView { hash: self.hash@, node_addr: self.node_addr@ }
    }
}

/// What a monitor answers to a ping: the files to fetch and the files to
/// delete.
pub struct PingResponse {
    pub status: String,
    pub files_to_recover: Vec<String>,
    pub files_to_delete: Vec<String>,
}

/// What a [`PingResponse`] holds.
pub struct PingResponseView {
    pub status: Seq<char>,
    pub files_to_recover: Seq<Seq<char>>,
    pub files_to_delete: Seq<Seq<char>>,
}

impl View for PingResponse {
    type V = PingResponseView;

    open spec fn view(&self) -> PingResponseView {
        PingResponseView {
            status: self.status@,
            files_to_recover: views(self.files_to_recover@),
            files_to_delete: views(self.files_to_delete@),
        }
    }
}

/// What a node asks of a monitor when it hands it a file for replication.
pub struct DistributionRequest {
    /// The number of replicas to make; -1 for as many as there are nodes.
    pub replications: i32,
    /// Whether the request goes to the node's own monitor.
    pub to_own_monitor: bool,
    /// The identifier of the node.
    pub fingerprint: String,
}

/// What a [`DistributionRequest`] holds.
pub struct DistributionRequestView {
    pub replications: i32,
    pub to_own_monitor: bool,
    pub fingerprint: Seq<char>,
}

impl View for DistributionRequest {
    type V = DistributionRequestView;

    open spec fn view(&self) -> DistributionRequestView {
        DistributionRequestView {
            replications: self.replications,
            to_own_monitor: self.to_own_monitor,
            fingerprint: self.fingerprint@,
        }
    }
}

/// Where a node registers with the manager.
pub open spec fn register_url_of(manager_addr: Seq<char>) -> Seq<char> {
    manager_addr + "/api/register/node"@
}

/// Where a monitor is asked which node stores a file.
pub open spec fn lookup_url_of(monitor_addr: Seq<char>, hash: Seq<char>) -> Seq<char> {
    monitor_addr + "/lookup/"@ + hash + "?forward=true"@
}

/// Where a monitor takes pings.
pub open spec fn ping_url_of(monitor_addr: Seq<char>) -> Seq<char> {
    monitor_addr + "/ping"@
}

/// Where a node hands out the file with the given hash.
pub open spec fn download_url_of(node_addr: Seq<char>, hash: Seq<char>) -> Seq<char> {
    node_addr + "/download/"@ + hash
}

/// Where a monitor is told that a node shuts down.
pub open spec fn shutdown_url_of(monitor_addr: Seq<char>, fingerprint: Seq<char>) -> Seq<char> {
    monitor_addr + "/shutdown/"@ + fingerprint
}

/// Where a monitor takes a file for replication.
pub open spec fn distribute_url_of(monitor_addr: Seq<char>, hash: Seq<char>) -> Seq<char> {
    monitor_addr + "/distribute/"@ + hash + "?forward=false"@
}

/// Where a node registers with the manager.
pub fn register_url(manager_addr: &str) -> (url: String)
    ensures
        url@ == register_url_of(manager_addr@),
{
    join2(manager_addr, "/api/register/node")
}

/// Where a monitor is asked which node stores a file.
pub fn lookup_url(monitor_addr: &str, hash: &str) -> (url: String)
    ensures
        url@ == lookup_url_of(monitor_addr@, hash@),
{
    let mut url = join3(monitor_addr, "/lookup/", hash);
    url.append("?forward=true");
    url
}

/// Where a monitor takes pings.
pub fn ping_url(monitor_addr: &str) -> (url: String)
    ensures
        url@ == ping_url_of(monitor_addr@),
{
    join2(monitor_addr, "/ping")
}

/// Where a node hands out the file with the given hash.
pub fn download_url(node_addr: &str, hash: &str) -> (url: String)
    ensures
        url@ == download_url_of(node_addr@, hash@),
{
    join3(node_addr, "/download/", hash)
}

/// Where a monitor is told that a node shuts down.
pub fn shutdown_url(monitor_addr: &str, fingerprint: &str) -> (url: String)
    ensures
        url@ == shutdown_url_of(monitor_addr@, fingerprint@),
{
    join3(monitor_addr, "/shutdown/", fingerprint)
}

/// Where a monitor takes a file for replication.
pub fn distribute_url(monitor_addr: &str, hash: &str) -> (url: String)
    ensures
        url@ == distribute_url_of(monitor_addr@, hash@),
{
    let mut url = join3(monitor_addr, "/distribute/", hash);
    url.append("?forward=false");
    url
}


/// The header names a file in a way that can be read: the first of its
/// parts between semicolons that mentions `filename`, if there is one, has
/// an equals sign.
pub open spec fn file_name_given(header: Seq<char>) -> bool {
    match first_field_with(header, ';', "filename"@) {
        Some(field) => second_field(field, '=') is Some,
        None => true,
    }
}

/// The file name that a `Content-Disposition` header gives: what stands
/// between the first and the second equals sign of the first part between
/// semicolons that mentions `filename`, without apostrophes and without
/// white space around it.
pub open spec fn file_name_of(header: Seq<char>) -> Seq<char> {
    if !contains_sub(header, "filename"@) {
        "Does not contain filename"@
    } else {
        match first_field_with(header, ';', "filename"@) {
            Some(field) => trimmed(without_char(second_field(field, '=')->0, '\'')),
            None => "unknown"@,
        }
    }
}

/// The bounds of the second field between equals signs of the part of the
/// string between `from` and `to`; nothing where no equals sign stands
/// there.
fn value_bounds(chars: &Vec<char>, from: usize, to: usize) -> (bounds: Option<(usize, usize)>)
    requires
        from <= to <= chars@.len(),
    ensures
        (match bounds {
            Some((a, b)) => from <= a <= b <= to && second_field(
                chars@.subrange(from as int, to as int),
                '=',
            ) == Some(chars@.subrange(a as int, b as int)),
            None => second_field(chars@.subrange(from as int, to as int), '=') is None,
        }),
{
    let ghost part = chars@.subrange(from as int, to as int);
    let first = find_char(chars, from, to, '=');
    if first >= to {
        return None;
    }
    let second = find_char(chars, first + 1, to, '=');
    proof {
        let rest = part.skip(first - from + 1);
        assert(rest =~= chars@.subrange(first + 1, to as int));
        assert(rest.take(second - first - 1) =~= chars@.subrange(first + 1, second as int));
    }
    Some((first + 1, second))
}

/// The part of the string between `from` and `to`, without apostrophes and
/// without white space around it.
fn clean_name(chars: &Vec<char>, from: usize, to: usize) -> (name: String)
    requires
        from <= to <= chars@.len(),
    ensures
        name@ == trimmed(without_char(chars@.subrange(from as int, to as int), '\'')),
{
    let mut kept: Vec<char> = Vec::new();
    let mut i: usize = from;
    assert(chars@.subrange(from as int, from as int) =~= Seq::empty());
    while i < to
        invariant
            from <= i <= to <= chars@.len(),
            kept@ == without_char(chars@.subrange(from as int, i as int), '\''),
        decreases to - i,
    {
        proof {
            let next = chars@.subrange(from as int, i + 1);
            assert(next.drop_last() =~= chars@.subrange(from as int, i as int));
            assert(next.last() == chars@[i as int]);
        }
        if chars[i] != '\'' {
            kept.push(chars[i]);
        }
        i += 1;
    }
    let mut start: usize = 0;
    while start < kept.len() && is_space_char(kept[start])
        invariant
            start <= kept@.len(),
            forall|k: int| 0 <= k < start ==> is_space(kept@[k]),
        decreases kept@.len() - start,
    {
        start += 1;
    }
    let mut end: usize = kept.len();
    while end > start && is_space_char(kept[end - 1])
        invariant
            start <= end <= kept@.len(),
            forall|k: int| end <= k < kept@.len() ==> is_space(kept@[k]),
        decreases end,
    {
        end -= 1;
    }
    proof {
        lemma_trim_start(kept@, start as int);
        let rest = kept@.skip(start as int);
        assert forall|k: int| end - start <= k < rest.len() implies is_space(rest[k]) by {
            assert(rest[k] == kept@[k + start]);
        }
        if end > start {
            assert(rest[end - start - 1] == kept@[end - 1]);
        }
        lemma_trim_end(rest, end - start);
        assert(rest.take(end - start) =~= kept@.subrange(start as int, end as int));
    }
    from_chars(&kept, start, end)
}

/// Whether the header names a file in a way that can be read.
pub fn has_file_name_value(header_value: &str) -> (given: bool)
    ensures
        given == file_name_given(header_value@),
{
    let chars = to_chars(header_value);
    let key = to_chars("filename");
    match find_field_with(&chars, ';', &key) {
        Some((from, to)) => value_bounds(&chars, from, to).is_some(),
        None => true,
    }
}

/// The file name that a `Content-Disposition` header gives. Where the
/// header does not mention `filename`, the answer says so.
pub fn get_file_name(header_value: &str) -> (name: String)
    requires
        file_name_given(header_value@),
    ensures
        name@ == file_name_of(header_value@),
{
    let chars = to_chars(header_value);
    let key = to_chars("filename");
    assert(chars@.subrange(0, chars@.len() as int) =~= chars@);
    if !contains_chars(&chars, 0, chars.len(), &key) {
        return String::from_str("Does not contain filename");
    }
    match find_field_with(&chars, ';', &key) {
        Some((from, to)) => {
            match value_bounds(&chars, from, to) {
                Some((a, b)) => clean_name(&chars, a, b),
                None => String::from_str("unknown"),
            }
        },
        None => String::from_str("unknown"),
    }
}

/// The media type that a downloaded file has when the answer names none.
pub open spec fn default_content_type() -> Seq<char> {
    "application/octet-stream"@
}

/// What a download gave: the bytes, under the hash that was asked for, with
/// the media type that the answer names, or the default where it names
/// none, and the file name that its `Content-Disposition` header gives.
pub fn read_download(
    hash: &str,
    content_type: Option<&str>,
    content_disposition: &str,
    content: Vec<u8>,
) -> (download: DownloadResponse)
    requires
        file_name_given(content_disposition@),
    ensures
        download@ == (DownloadResponseView {
            hash: hash@,
            content: content@,
            content_type: match content_type {
                Some(t) => t@,
                None => default_content_type(),
            },
            file_name: file_name_of(content_disposition@),
        }),
{
    let content_type = match content_type {
        Some(t) => String::from_str(t),
        None => String::from_str("application/octet-stream"),
    };
    DownloadResponse {
        hash: String::from_str(hash),
        content,
        content_type,
        file_name: get_file_name(content_disposition),
    }
}

} // verus!
