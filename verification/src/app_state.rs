//! The node's state as a whole: the three stores and the two flags that
//! steer the background services, with the operations that span them.

use vstd::prelude::*;
use crate::clock::{minutes_until, unix_now};
use crate::config::ConfigFromFile;
use crate::config_store::{
    option_view, sha1_hex, ConfigStore, ConfigStoreFunc, ConfigStoreView, Monitor, monitor_views,
    MAX_CONTENT_LEN,
};
use crate::file_store::{
    entry_views, index_all, lemma_position_of, lemma_position_of_is_first, position_of, put_entry,
    total_size, FileEntry, FileEntryView, FileStore, FileStoreFunc, FileStoreView,
};
use crate::stat_store::{Rating, StatStore, StatStoreFunc, StatStoreView, Stats};
use crate::text::views;

verus! {

/// The report that a node sends to its monitor.
pub struct Ping {
    pub fingerprint: String,
    pub port: u16,
    /// The parts of the node's rating, from which its weight is summed.
    pub rating: Rating,
    pub files: Vec<String>,
    pub rejected_hashes: Vec<String>,
    pub capacity_left: u64,
    pub uploaded_hashes: Vec<String>,
    pub ipv6: Option<String>,
}

/// What a [`Ping`] holds.
pub struct PingView {
    pub fingerprint: Seq<char>,
    pub port: u16,
    pub rating: Rating,
    pub files: Seq<Seq<char>>,
    pub rejected_hashes: Seq<Seq<char>>,
    pub capacity_left: u64,
    pub uploaded_hashes: Seq<Seq<char>>,
    pub ipv6: Option<Seq<char>>,
}

impl View for Ping {
    type V = PingView;

    open spec fn view(&self) -> PingView {
        PingView {
            fingerprint: self.fingerprint@,
            port: self.port,
            rating: self.rating,
            files: views(self.files@),
            rejected_hashes: views(self.rejected_hashes@),
            capacity_left: self.capacity_left,
            uploaded_hashes: views(self.uploaded_hashes@),
            ipv6: option_view(self.ipv6),
        }
    }
}

/// The state of a node: its stores, and the flags by which the services
/// are told to stop and the ping service to report at once.
pub struct AppState {
    pub file_store: FileStore,
    pub config_store: ConfigStore,
    pub stat_store: StatStore,
    pub stop_services: bool,
    pub force_ping: bool,
}

/// What an [`AppState`] holds.
pub struct AppStateView {
    pub file_store: FileStoreView,
    pub config_store: ConfigStoreView,
    pub stat_store: StatStoreView,
    pub stop_services: bool,
    pub force_ping: bool,
}

impl View for AppState {
    type V = AppStateView;

    open spec fn view(&self) -> AppStateView {
        AppStateView {
            file_store: self.file_store@,
            config_store: self.config_store@,
            stat_store: self.stat_store@,
            stop_services: self.stop_services,
            force_ping: self.force_ping,
        }
    }
}

impl AppStateView {
    /// The inventory holds each hash once, and the descriptors name both
    /// ends of the uptime window.
    pub open spec fn wf(self) -> bool {
        &&& self.file_store.wf()
        &&& self.stat_store.stats.wf()
    }

    /// The ping that reports this state, when the indexed files take
    /// `used` bytes on disk and the clock reads as given.
    pub open spec fn ping(self, used: int, now: i64, minutes_left: Option<i64>) -> PingView {
        let capacity_left = self.file_store.capacity_left(used) as u64;
        PingView {
            fingerprint: self.config_store.fingerprint,
            port: self.config_store.port,
            rating: self.stat_store.stats.total_rating(capacity_left, now, minutes_left),
            files: self.file_store.hashes(),
            rejected_hashes: self.file_store.hashes_to_reject,
            capacity_left,
            uploaded_hashes: self.file_store.new_hashes,
            ipv6: self.config_store.ipv6,
        }
    }

    /// The state once a ping has reported it: nothing is left to report as
    /// newly stored or as rejected.
    pub open spec fn reported(self) -> AppStateView {
        AppStateView {
            file_store: FileStoreView {
                hashes_to_reject: Seq::empty(),
                new_hashes: Seq::empty(),
                ..self.file_store
            },
            ..self
        }
    }

    /// The state once the file with the given hash has been stored: it is
    /// indexed and noted as newly stored, queued for distribution where
    /// `distribute` is set, and a ping is due at once.
    pub open spec fn with_new_file(
        self,
        hash: Seq<char>,
        content_type: Seq<char>,
        file_name: Seq<char>,
        distribute: bool,
    ) -> AppStateView {
        AppStateView {
            file_store: FileStoreView {
                files: put_entry(
                    self.file_store.files,
                    FileEntryView {
                        hash,
                        file_name,
                        content_type,
                        path: self.file_store.file_path(hash),
                    },
                ),
                new_hashes: self.file_store.new_hashes.push(hash),
                files_to_distribute: if distribute {
                    self.file_store.files_to_distribute.push(hash)
                } else {
                    self.file_store.files_to_distribute
                },
                ..self.file_store
            },
            force_ping: true,
            ..self
        }
    }
}

impl AppState {
    /// The state of a node that starts from the given settings and
    /// descriptors, with the index loaded from `files`. Where the
    /// descriptors do not yet say when the node first went online, the
    /// time of the system clock is noted.
    pub fn new(
        config: ConfigFromFile,
        stats: Stats,
        own_monitor: Monitor,
        monitors: Vec<Monitor>,
        stop_services: bool,
        force_ping: bool,
        path: &str,
        files: Vec<FileEntry>,
    ) -> (state: AppState)
        requires
            stats@.wf(),
        ensures
            state@.wf(),
            state@.file_store == (FileStoreView {
                path: path@,
                files_to_sync: Seq::empty(),
                files_to_distribute: Seq::empty(),
                files: index_all(Seq::empty(), entry_views(files@)),
                capacity: stats@.capacity,
                hashes_to_reject: Seq::empty(),
                new_hashes: Seq::empty(),
            }),
            state@.config_store == (ConfigStoreView {
                manager_addr: config@.manager_addr,
                own_monitor: own_monitor@,
                monitors: monitor_views(monitors@),
                port: config@.port,
                fingerprint: config@.fingerprint,
                ipv6: config@.ipv6,
            }),
            exists|now: i64|
                state@.stat_store == (StatStoreView {
                    stats: #[trigger] stats@.started_at(now),
                    path: path@,
                }),
            state@.stop_services == stop_services,
            state@.force_ping == force_ping,
    {
        let file_store = FileStore::new(stats.capacity, path, files);
        let config_store = ConfigStore::new(
            config.manager_addr.as_str(),
            own_monitor,
            monitors,
            config.port,
            config.fingerprint.as_str(),
            config.ipv6,
        );
        let stat_store = StatStore::new(stats, String::from_str(path));
        AppState { file_store, config_store, stat_store, stop_services, force_ping }
    }

    /// The ping that reports the state, for the given sizes of the indexed
    /// files on disk and the given readings of the clock. The lists of newly
    /// stored and of rejected hashes are emptied with it.
    pub fn generate_ping_at(&mut self, sizes: &Vec<u64>, now: i64, minutes_left: Option<i64>) -> (ping: Ping)
        requires
            old(self)@.wf(),
        ensures
            ping@ == old(self)@.ping(total_size(sizes@), now, minutes_left),
            final(self)@ == old(self)@.reported(),
            final(self)@.wf(),
            final(self)@.file_store.new_hashes.len() == 0,
            final(self)@.file_store.hashes_to_reject.len() == 0,
    {
        let capacity_left = self.file_store.capacity_left(sizes);
        let ping = Ping {
            fingerprint: self.config_store.fingerprint(),
            port: self.config_store.port(),
            rating: self.stat_store.total_rating_at(capacity_left, now, minutes_left),
            files: self.file_store.hashes(),
            capacity_left,
            rejected_hashes: self.file_store.rejected_hashes(),
            uploaded_hashes: self.file_store.uploaded_hashes(),
            ipv6: self.config_store.ipv6(),
        };
        self.file_store.clear_uploaded_hashes();
        self.file_store.clear_rejected_hashes();
        ping
    }

    /// The ping that reports the state, for the given sizes of the indexed
    /// files on disk, by the system clock. The lists of newly stored and of
    /// rejected hashes are emptied with it.
    pub fn generate_ping(&mut self, sizes: &Vec<u64>) -> (ping: Ping)
        requires
            old(self)@.wf(),
        ensures
            exists|now: i64, minutes_left: Option<i64>|
                ping@ == #[trigger] old(self)@.ping(total_size(sizes@), now, minutes_left),
            final(self)@ == old(self)@.reported(),
            final(self)@.wf(),
            final(self)@.file_store.new_hashes.len() == 0,
            final(self)@.file_store.hashes_to_reject.len() == 0,
    {
        let minutes_left = minutes_until(self.stat_store.stats.uptime[1], 0, 0);
        let now = unix_now();
        let ping = self.generate_ping_at(sizes, now, minutes_left);
        assert(ping@ == old(self)@.ping(total_size(sizes@), now, minutes_left));
        ping
    }

    /// Takes a file into the node: computes its content address, indexes it
    /// under the path that the inventory gives for that address, notes it as
    /// newly stored, queues it for distribution if asked to, and asks for a
    /// ping at once. Returns the content address.
    pub fn add_new_file(
        &mut self,
        content: &[u8],
        content_type: &str,
        file_name: &str,
        distribute: bool,
    ) -> (hash: String)
        requires
            old(self)@.wf(),
            content@.len() <= MAX_CONTENT_LEN,
        ensures
            hash@ == sha1_hex(content@),
            final(self)@ == old(self)@.with_new_file(hash@, content_type@, file_name@, distribute),
            final(self)@.wf(),
            final(self)@.file_store.holds(hash@),
            final(self)@.force_ping,
    {
        let hash = self.config_store.hash_content(content);
        self.file_store.save_file(hash.as_str(), content_type, file_name);
        self.file_store.add_hash_to_uploaded_hashes(hash.as_str());
        if distribute {
            self.file_store.insert_file_to_distribute(hash.as_str());
        }
        self.force_ping = true;
        hash
    }
}


/// A file that has been taken in is held under its content address, with
/// the media type and the name it came with, at the path that the
/// inventory gives for the address; a ping is asked for; and the next ping
/// lists the address among the files and among the newly stored ones.
pub proof fn lemma_new_file_is_held_and_reported(
    state: AppStateView,
    hash: Seq<char>,
    content_type: Seq<char>,
    file_name: Seq<char>,
    distribute: bool,
    used: int,
    now: i64,
    minutes_left: Option<i64>,
)
    ensures
        ({
            let after = state.with_new_file(hash, content_type, file_name, distribute);
            let ping = after.ping(used, now, minutes_left);
            &&& after.force_ping
            &&& after.file_store.holds(hash)
            &&& after.file_store.files[position_of(after.file_store.files, hash)] == (
            FileEntryView {
                hash,
                file_name,
                content_type,
                path: state.file_store.file_path(hash),
            })
            &&& after.file_store.hashes().contains(hash)
            &&& ping.files.contains(hash)
            &&& ping.uploaded_hashes.contains(hash)
            &&& distribute ==> after.file_store.files_to_distribute.contains(hash)
        }),
{
    let after = state.with_new_file(hash, content_type, file_name, distribute);
    let files = state.file_store.files;
    lemma_position_of_is_first(files, hash);
    let at = position_of(files, hash);
    lemma_position_of(after.file_store.files, hash, at);
    assert(after.file_store.hashes()[at] == hash);
    let uploaded = after.file_store.new_hashes;
    assert(uploaded[uploaded.len() - 1] == hash);
    if distribute {
        let queue = after.file_store.files_to_distribute;
        assert(queue[queue.len() - 1] == hash);
    }
}

/// Once a ping has reported the state, the next one reports nothing as
/// newly stored and nothing as rejected.
pub proof fn lemma_nothing_is_reported_twice(
    state: AppStateView,
    used: int,
    now: i64,
    minutes_left: Option<i64>,
)
    ensures
        state.reported().ping(used, now, minutes_left).uploaded_hashes.len() == 0,
        state.reported().ping(used, now, minutes_left).rejected_hashes.len() == 0,
        state.reported().ping(used, now, minutes_left).files == state.ping(
            used,
            now,
            minutes_left,
        ).files,
{
}

} // verus!
