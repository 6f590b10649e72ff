//! The decisions of the service that fetches the files a monitor asks for.

use vstd::prelude::*;
use crate::app_state::{AppState, AppStateView};
use crate::clock::unix_now;
use crate::config_store::{sha1_hex, MAX_CONTENT_LEN};
use crate::file_store::{
    held_hashes, recover_views, total_size, unheld, FileStoreFunc,
    FileStoreView, RecoverEntry, RecoverEntryView,
};
use crate::server::DownloadResponse;

verus! {

/// What the recover service does next.
pub enum RecoverStep {
    /// Ask the monitor which node stores the file of this entry, and fetch
    /// it from there.
    Lookup(RecoverEntry),
    /// No room is left: the file with this hash has been rejected.
    Rejected(String),
    /// Nothing can be tried yet: rest for this many seconds.
    Sleep(u64),
}

/// What a [`RecoverStep`] holds.
pub enum RecoverStepView {
    Lookup(RecoverEntryView),
    Rejected(Seq<char>),
    Sleep(u64),
}

impl View for RecoverStep {
    type V = RecoverStepView;

    open spec fn view(&self) -> RecoverStepView {
        match *self {
            RecoverStep::Lookup(entry) => RecoverStepView::Lookup(entry@),
            RecoverStep::Rejected(hash) => RecoverStepView::Rejected(hash@),
            RecoverStep::Sleep(secs) => RecoverStepView::Sleep(secs),
        }
    }
}

/// The service that fetches the files a monitor asks for.
pub struct RecoverService {
    /// The seconds to rest when nothing can be tried.
    pub timeout: u64,
}

impl AppStateView {
    /// What the recover service does at the time `now`, when the indexed
    /// files take `used` bytes on disk, and the state that it leaves: the
    /// first entry that may be tried leaves the queue, and is looked up
    /// where room is left, rejected where none is.
    pub open spec fn recover_step(self, timeout: u64, used: int, now: int) -> (RecoverStepView, AppStateView) {
        let (entry, store) = self.file_store.take_eligible(now);
        match entry {
            None => (RecoverStepView::Sleep(timeout), self),
            Some(e) => if self.file_store.capacity_left(used) == 0 {
                (
                    RecoverStepView::Rejected(e.hash),
                    AppStateView {
                        file_store: FileStoreView {
                            hashes_to_reject: store.hashes_to_reject.push(e.hash),
                            ..store
                        },
                        ..self
                    },
                )
            } else {
                (RecoverStepView::Lookup(e), AppStateView { file_store: store, ..self })
            },
        }
    }

    /// The state once an attempt to fetch the file with the given hash has
    /// failed at the time `now`: the file is queued again, to rest from
    /// then, or rejected where the inventory holds it by now.
    pub open spec fn recover_failed(self, hash: Seq<char>, now: int) -> AppStateView {
        let again = seq![RecoverEntryView { hash, last_checked: now }];
        AppStateView {
            file_store: FileStoreView {
                files_to_sync: self.file_store.files_to_sync + unheld(self.file_store.files, again),
                hashes_to_reject: self.file_store.hashes_to_reject + held_hashes(
                    self.file_store.files,
                    again,
                ),
                ..self.file_store
            },
            ..self
        }
    }
}

impl RecoverService {
    /// A service that rests for `timeout` seconds when nothing can be
    /// tried.
    pub fn new(timeout: u64) -> (service: RecoverService)
        ensures
            service.timeout == timeout,
    {
        RecoverService { timeout }
    }

    /// What to do at the time `now`, for the given sizes of the indexed
    /// files on disk.
    pub fn next_step_at(&self, state: &mut AppState, sizes: &Vec<u64>, now: i64) -> (step: RecoverStep)
        requires
            old(state)@.wf(),
        ensures
            (step@, final(state)@) == old(state)@.recover_step(
                self.timeout,
                total_size(sizes@),
                now as int,
            ),
            final(state)@.wf(),
            step matches RecoverStep::Lookup(entry) ==> entry@.waited_enough_at(now as int),
    {
        match state.file_store.next_file_to_recover_at(now) {
            Some(entry) => {
                if state.file_store.capacity_left(sizes) == 0 {
                    state.file_store.reject_hash(entry.hash.as_str());
                    RecoverStep::Rejected(entry.hash)
                } else {
                    RecoverStep::Lookup(entry)
                }
            },
            None => RecoverStep::Sleep(self.timeout),
        }
    }

    /// What to do now, by the system clock, for the given sizes of the
    /// indexed files on disk.
    pub fn next_step(&self, state: &mut AppState, sizes: &Vec<u64>) -> (step: RecoverStep)
        requires
            old(state)@.wf(),
        ensures
            exists|now: i64|
                (step@, final(state)@) == #[trigger] old(state)@.recover_step(
                    self.timeout,
                    total_size(sizes@),
                    now as int,
                ),
            final(state)@.wf(),
    {
        let now = unix_now();
        let step = self.next_step_at(state, sizes, now);
        assert((step@, state@) == old(state)@.recover_step(
            self.timeout,
            total_size(sizes@),
            now as int,
        ));
        step
    }

    /// Takes a fetched file into the node, without queueing it for
    /// distribution. Returns its content address.
    pub fn handle_lookup_success(state: &mut AppState, download: &DownloadResponse) -> (hash: String)
        requires
            old(state)@.wf(),
            download@.content.len() <= MAX_CONTENT_LEN,
        ensures
            hash@ == sha1_hex(download@.content),
            final(state)@ == old(state)@.with_new_file(
                hash@,
                download@.content_type,
                download@.file_name,
                false,
            ),
            final(state)@.wf(),
    {
        state.add_new_file(
            download.content.as_slice(),
            download.content_type.as_str(),
            download.file_name.as_str(),
            false,
        )
    }

    /// Notes that the attempt to fetch the file with the given hash failed
    /// at the time `now`: the file is queued again, to rest from then.
    pub fn handle_lookup_fail_at(state: &mut AppState, hash: &str, now: i64)
        requires
            old(state)@.wf(),
        ensures
            final(state)@ == old(state)@.recover_failed(hash@, now as int),
            final(state)@.wf(),
    {
        let mut entries: Vec<RecoverEntry> = Vec::new();
        entries.push(RecoverEntry { hash: String::from_str(hash), last_checked: now });
        assert(recover_views(entries@) =~= seq![
            RecoverEntryView { hash: hash@, last_checked: now as int },
        ]);
        state.file_store.insert_files_to_recover(entries);
    }

    /// Notes that the attempt to fetch the file with the given hash has just
    /// failed: the file is queued again, to rest from now, by the system
    /// clock.
    pub fn handle_lookup_fail(state: &mut AppState, hash: &str)
        requires
            old(state)@.wf(),
        ensures
            exists|now: i64| final(state)@ == #[trigger] old(state)@.recover_failed(hash@, now as int),
            final(state)@.wf(),
    {
        let now = unix_now();
        Self::handle_lookup_fail_at(state, hash, now);
        assert(state@ == old(state)@.recover_failed(hash@, now as int));
    }
}

} // verus!
