//! The decisions of the service that reports the node to its monitor.

use vstd::prelude::*;
use crate::app_state::{AppState, AppStateView, Ping};
use crate::file_store::{
    held_hashes, position_of, recover_views, total_size, unheld, FileEntry, FileEntryView,
    FileStoreFunc, FileStoreView, RecoverEntry, RecoverEntryView, entry_views,
};
use crate::http_requests::PingResponse;
use crate::stat_store::{StatStoreFunc, StatStoreView, StatsView};

verus! {

/// The time of the last attempt that a recover entry gets when a monitor
/// asks for the file: 1970-01-01T00:01:01Z in seconds since the Unix epoch,
/// long enough ago for the entry to be tried at once.
pub const NEVER_CHECKED: i64 = 61;

/// The seconds that the ping service rests between two looks at the clock.
pub const PING_REST_SECS: u64 = 1;

/// What the ping service does next.
#[derive(Clone, Copy, Debug, PartialEq, Eq, Structural)]
pub enum PingStep {
    /// Report to the monitor now.
    Ping,
    /// Stop.
    Exit,
    /// Rest for this many seconds, then look again.
    Sleep(u64),
}

/// The service that reports the node to its monitor.
pub struct PingService {
    /// The seconds after which the next ping is due.
    pub timeout: u64,
}

/// The recover entries for the files that a monitor asks for: one for each
/// hash, in order, each to be tried at once.
pub open spec fn requested(hashes: Seq<Seq<char>>) -> Seq<RecoverEntryView> {
    Seq::new(
        hashes.len(),
        |i: int| RecoverEntryView { hash: hashes[i], last_checked: NEVER_CHECKED as int },
    )
}

/// The entries of the files, among those with the given hashes, that the
/// inventory holds, in the order of the hashes.
pub open spec fn held_entries(files: Seq<FileEntryView>, hashes: Seq<Seq<char>>) -> Seq<FileEntryView>
    decreases hashes.len(),
{
    if hashes.len() == 0 {
        Seq::empty()
    } else if position_of(files, hashes.last()) < files.len() {
        held_entries(files, hashes.drop_last()).push(files[position_of(files, hashes.last())])
    } else {
        held_entries(files, hashes.drop_last())
    }
}

impl AppStateView {
    /// The state as a ping is about to leave, `elapsed` seconds after the
    /// last one: the seconds are added to the time that the node has been
    /// seen online, and no ping is asked for any more.
    pub open spec fn pinging(self, elapsed: u64) -> AppStateView {
        AppStateView {
            stat_store: StatStoreView {
                stats: StatsView {
                    uptime_counter: (self.stat_store.stats.uptime_counter + elapsed) as u64,
                    ..self.stat_store.stats
                },
                ..self.stat_store
            },
            force_ping: false,
            ..self
        }
    }

    /// The state once the monitor has asked for the files with the given
    /// hashes: each is queued for recovery, or rejected where the inventory
    /// holds it.
    pub open spec fn asked_to_recover(self, hashes: Seq<Seq<char>>) -> AppStateView {
        AppStateView {
            file_store: FileStoreView {
                files_to_sync: self.file_store.files_to_sync + unheld(
                    self.file_store.files,
                    requested(hashes),
                ),
                hashes_to_reject: self.file_store.hashes_to_reject + held_hashes(
                    self.file_store.files,
                    requested(hashes),
                ),
                ..self.file_store
            },
            ..self
        }
    }
}

impl PingService {
    /// A service whose pings are due `timeout` seconds after the last one.
    pub fn new(timeout: u64) -> (service: PingService)
        ensures
            service.timeout == timeout,
    {
        PingService { timeout }
    }

    /// What to do `elapsed` seconds after the last ping: report where a
    /// ping is asked for or due; else stop where the services are to stop;
    /// else rest.
    pub fn next_step(&self, state: &AppState, elapsed: u64) -> (step: PingStep)
        ensures
            step == if state@.force_ping || elapsed > self.timeout {
                PingStep::Ping
            } else if state@.stop_services {
                PingStep::Exit
            } else {
                PingStep::Sleep(PING_REST_SECS)
            },
    {
        if state.force_ping || elapsed > self.timeout {
            PingStep::Ping
        } else if state.stop_services {
            PingStep::Exit
        } else {
            PingStep::Sleep(PING_REST_SECS)
        }
    }

    /// The ping to send `elapsed` seconds after the last one, for the given
    /// sizes of the indexed files on disk and readings of the clock. The
    /// seconds are added to the time that the node has been seen online; the
    /// request for a ping, if there was one, is withdrawn; and the lists that
    /// the ping reports are emptied.
    pub fn prepare_ping_at(
        state: &mut AppState,
        elapsed: u64,
        sizes: &Vec<u64>,
        now: i64,
        minutes_left: Option<i64>,
    ) -> (ping: Ping)
        requires
            old(state)@.wf(),
            old(state)@.stat_store.stats.uptime_counter + elapsed <= u64::MAX,
        ensures
            ping@ == old(state)@.pinging(elapsed).ping(total_size(sizes@), now, minutes_left),
            final(state)@ == old(state)@.pinging(elapsed).reported(),
            final(state)@.wf(),
            !final(state)@.force_ping,
    {
        state.stat_store.increase_uptime_counter(elapsed);
        state.force_ping = false;
        state.generate_ping_at(sizes, now, minutes_left)
    }

    /// The ping to send `elapsed` seconds after the last one, by the system
    /// clock.
    pub fn prepare_ping(state: &mut AppState, elapsed: u64, sizes: &Vec<u64>) -> (ping: Ping)
        requires
            old(state)@.wf(),
            old(state)@.stat_store.stats.uptime_counter + elapsed <= u64::MAX,
        ensures
            exists|now: i64, minutes_left: Option<i64>|
                ping@ == #[trigger] old(state)@.pinging(elapsed).ping(
                    total_size(sizes@),
                    now,
                    minutes_left,
                ),
            final(state)@ == old(state)@.pinging(elapsed).reported(),
            final(state)@.wf(),
            !final(state)@.force_ping,
    {
        state.stat_store.increase_uptime_counter(elapsed);
        state.force_ping = false;
        state.generate_ping(sizes)
    }

    /// Takes in what the monitor answered to a ping. Each file that it asks
    /// for is queued for recovery, to be tried at once, or rejected where the
    /// inventory holds it. Returns the entries of the files that it wants
    /// deleted and the inventory holds: their bytes are to be removed, and
    /// then they from the index.
    pub fn handle_request_success(state: &mut AppState, ping_response: &PingResponse) -> (doomed: Vec<FileEntry>)
        requires
            old(state)@.wf(),
        ensures
            final(state)@ == old(state)@.asked_to_recover(ping_response@.files_to_recover),
            final(state)@.wf(),
            entry_views(doomed@) == held_entries(
                old(state)@.file_store.files,
                ping_response@.files_to_delete,
            ),
    {
        let mut entries: Vec<RecoverEntry> = Vec::new();
        let mut i: usize = 0;
        while i < ping_response.files_to_recover.len()
            invariant
                i <= ping_response.files_to_recover.len(),
                entries@.len() == i,
                forall|k: int|
                    0 <= k < i ==> entries@[k]@ == requested(ping_response@.files_to_recover)[k],
            decreases ping_response.files_to_recover.len() - i,
        {
            entries.push(
                RecoverEntry {
                    hash: ping_response.files_to_recover[i].clone(),
                    last_checked: NEVER_CHECKED,
                },
            );
            i += 1;
        }
        assert(recover_views(entries@) =~= requested(ping_response@.files_to_recover));
        state.file_store.insert_files_to_recover(entries);

        let ghost files = state@.file_store.files;
        let ghost hashes = ping_response@.files_to_delete;
        let mut doomed: Vec<FileEntry> = Vec::new();
        let mut j: usize = 0;
        assert(hashes.take(0) =~= Seq::empty());
        assert(entry_views(doomed@) =~= Seq::empty());
        while j < ping_response.files_to_delete.len()
            invariant
                j <= ping_response.files_to_delete.len(),
                hashes == ping_response@.files_to_delete,
                files == state@.file_store.files,
                entry_views(doomed@) == held_entries(files, hashes.take(j as int)),
            decreases ping_response.files_to_delete.len() - j,
        {
            let ghost before = entry_views(doomed@);
            proof {
                assert(hashes.take(j + 1).drop_last() =~= hashes.take(j as int));
                assert(hashes.take(j + 1).last() == ping_response.files_to_delete@[j as int]@);
            }
            match state.file_store.get_file(ping_response.files_to_delete[j].as_str()) {
                Some(entry) => {
                    doomed.push(entry.clone());
                    assert(entry_views(doomed@) =~= before.push(entry@));
                },
                None => {},
            }
            j += 1;
        }
        assert(hashes.take(j as int) =~= hashes);
        doomed
    }
}

} // verus!
