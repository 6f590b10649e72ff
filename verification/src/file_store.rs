//! The file inventory: the index of stored files, the queues of pending
//! work, and the lists that the next ping reports.

use vstd::prelude::*;
use crate::clock::unix_now;
use crate::text::{clone_strings, join3, views};

verus! {

/// Seconds that a recover entry rests after an attempt before it is tried
/// again.
pub const COOL_DOWN_SECS: i64 = 300;

/// A file that this node has been told to fetch, with the time of the last
/// attempt in seconds since the Unix epoch.
#[derive(Debug)]
pub struct RecoverEntry {
    pub hash: String,
    pub last_checked: i64,
}

/// What a [`RecoverEntry`] holds.
pub struct RecoverEntryView {
    pub hash: Seq<char>,
    pub last_checked: int,
}

impl View for RecoverEntry {
    type V = RecoverEntryView;

    open spec fn view(&self) -> RecoverEntryView {
        RecoverEntryView { hash: self.hash@, last_checked: self.last_checked as int }
    }
}

impl RecoverEntryView {
    /// More than the cool-down has passed between the last attempt and `now`.
    pub open spec fn waited_enough_at(self, now: int) -> bool {
        now - self.last_checked > COOL_DOWN_SECS as int
    }
}

impl RecoverEntry {
    /// Whether the entry may be tried at the time `now`.
    pub fn waited_enough_at(&self, now: i64) -> (r: bool)
        ensures
            r == self@.waited_enough_at(now as int),
    {
        if self.last_checked >= 0 {
            // now - last_checked cannot overflow upwards
            now >= i64::MIN + self.last_checked && now - self.last_checked > COOL_DOWN_SECS
        } else if now > i64::MAX + self.last_checked {
            true
        } else {
            now - self.last_checked > COOL_DOWN_SECS
        }
    }

    /// Whether the entry may be tried now, by the system clock.
    pub fn waited_enough(&self) -> (r: bool)
        ensures
            exists|now: i64| r == self@.waited_enough_at(now as int),
    {
        let now = unix_now();
        self.waited_enough_at(now)
    }
}

/// The record of one stored file. The bytes lie on disk at `path`; the entry
/// holds only what describes them.
#[derive(Debug)]
pub struct FileEntry {
    pub hash: String,
    pub file_name: String,
    pub content_type: String,
    pub path: String,
}

/// What a [`FileEntry`] holds.
pub struct FileEntryView {
    pub hash: Seq<char>,
    pub file_name: Seq<char>,
    pub content_type: Seq<char>,
    pub path: Seq<char>,
}

impl View for FileEntry {
    type V = FileEntryView;

    open spec fn view(&self) -> FileEntryView {
        FileEntryView {
            hash: self.hash@,
            file_name: self.file_name@,
            content_type: self.content_type@,
            path: self.path@,
        }
    }
}

impl Clone for FileEntry {
    fn clone(&self) -> (r: FileEntry)
        ensures
            r@ == self@,
    {
        FileEntry {
            hash: self.hash.clone(),
            file_name: self.file_name.clone(),
            content_type: self.content_type.clone(),
            path: self.path.clone(),
        }
    }
}

/// The contents of a list of file entries.
pub open spec fn entry_views(v: Seq<FileEntry>) -> Seq<FileEntryView> {
    Seq::new(v.len(), |i: int| v[i]@)
}

/// The contents of a list of recover entries.
pub open spec fn recover_views(v: Seq<RecoverEntry>) -> Seq<RecoverEntryView> {
    Seq::new(v.len(), |i: int| v[i]@)
}

/// What an optional recover entry holds.
pub open spec fn recover_view(entry: Option<RecoverEntry>) -> Option<RecoverEntryView> {
    match entry {
        Some(e) => Some(e@),
        None => None,
    }
}

/// The sum of a list of sizes.
pub open spec fn total_size(sizes: Seq<u64>) -> int
    decreases sizes.len(),
{
    if sizes.len() == 0 {
        0
    } else {
        total_size(sizes.drop_last()) + sizes.last() as int
    }
}

/// The index of the first file entry with the given hash, or the length of
/// the list where none has it.
pub open spec fn position_of(files: Seq<FileEntryView>, hash: Seq<char>) -> int
    decreases files.len(),
{
    if files.len() == 0 {
        0
    } else if files[0].hash == hash {
        0
    } else {
        1 + position_of(files.drop_first(), hash)
    }
}

/// The file list after the entries of `loaded` have been indexed one after
/// the other, a later entry replacing an earlier one with the same hash.
pub open spec fn index_all(files: Seq<FileEntryView>, loaded: Seq<FileEntryView>) -> Seq<FileEntryView>
    decreases loaded.len(),
{
    if loaded.len() == 0 {
        files
    } else {
        put_entry(index_all(files, loaded.drop_last()), loaded.last())
    }
}

/// The file list with `entry` indexed: in the place of the entry with the
/// same hash where there is one, else at the end.
pub open spec fn put_entry(files: Seq<FileEntryView>, entry: FileEntryView) -> Seq<FileEntryView> {
    let at = position_of(files, entry.hash);
    if at < files.len() {
        files.update(at, entry)
    } else {
        files.push(entry)
    }
}

/// No two entries of the list have the same hash.
pub open spec fn distinct_hashes(files: Seq<FileEntryView>) -> bool {
    forall|i: int, j: int| 0 <= i < j < files.len() ==> files[i].hash != files[j].hash
}

/// The entries of `entries` whose hash the inventory does not hold, in order.
pub open spec fn unheld(files: Seq<FileEntryView>, entries: Seq<RecoverEntryView>) -> Seq<RecoverEntryView>
    decreases entries.len(),
{
    if entries.len() == 0 {
        Seq::empty()
    } else if position_of(files, entries.last().hash) < files.len() {
        unheld(files, entries.drop_last())
    } else {
        unheld(files, entries.drop_last()).push(entries.last())
    }
}

/// The hashes of the entries of `entries` that the inventory already holds,
/// in order.
pub open spec fn held_hashes(files: Seq<FileEntryView>, entries: Seq<RecoverEntryView>) -> Seq<Seq<char>>
    decreases entries.len(),
{
    if entries.len() == 0 {
        Seq::empty()
    } else if position_of(files, entries.last().hash) < files.len() {
        held_hashes(files, entries.drop_last()).push(entries.last().hash)
    } else {
        held_hashes(files, entries.drop_last())
    }
}

/// The index of the first entry of the queue that may be tried at `now`, or
/// the length of the queue where none may.
pub open spec fn first_eligible(queue: Seq<RecoverEntryView>, now: int) -> int
    decreases queue.len(),
{
    if queue.len() == 0 {
        0
    } else if queue[0].waited_enough_at(now) {
        0
    } else {
        1 + first_eligible(queue.drop_first(), now)
    }
}

/// What a [`FileStore`] holds.
pub struct FileStoreView {
    /// The state directory.
    pub path: Seq<char>,
    /// The files to fetch from other nodes, oldest request first.
    pub files_to_sync: Seq<RecoverEntryView>,
    /// The hashes to push to the monitors, oldest first.
    pub files_to_distribute: Seq<Seq<char>>,
    /// The indexed files.
    pub files: Seq<FileEntryView>,
    /// The declared quota in bytes.
    pub capacity: u64,
    /// The hashes that the next ping reports as rejected.
    pub hashes_to_reject: Seq<Seq<char>>,
    /// The hashes that the next ping reports as newly stored.
    pub new_hashes: Seq<Seq<char>>,
}

impl FileStoreView {
    /// The inventory holds each hash once.
    pub open spec fn wf(self) -> bool {
        distinct_hashes(self.files)
    }

    /// Whether the inventory holds the hash.
    pub open spec fn holds(self, hash: Seq<char>) -> bool {
        position_of(self.files, hash) < self.files.len()
    }

    /// The hashes of the indexed files, in the order of the index.
    pub open spec fn hashes(self) -> Seq<Seq<char>> {
        Seq::new(self.files.len(), |i: int| self.files[i].hash)
    }

    /// The on-disk location for the bytes of the file with the given hash.
    pub open spec fn file_path(self, hash: Seq<char>) -> Seq<char> {
        self.path + "/files/"@ + hash
    }

    /// The first entry of the recover queue that may be tried at `now`, and
    /// the inventory without it; nothing, and the inventory as it is, where
    /// no entry may be tried.
    pub open spec fn take_eligible(self, now: int) -> (Option<RecoverEntryView>, FileStoreView) {
        let at = first_eligible(self.files_to_sync, now);
        if at < self.files_to_sync.len() {
            (
                Some(self.files_to_sync[at]),
                FileStoreView { files_to_sync: self.files_to_sync.remove(at), ..self },
            )
        } else {
            (None, self)
        }
    }

    /// The quota that is left when the indexed files take `used` bytes.
    pub open spec fn capacity_left(self, used: int) -> int {
        if used > self.capacity {
            0
        } else {
            self.capacity - used
        }
    }
}


/// `position_of` is the first index whose entry has the hash.
pub proof fn lemma_position_of(files: Seq<FileEntryView>, hash: Seq<char>, at: int)
    requires
        0 <= at <= files.len(),
        forall|k: int| 0 <= k < at ==> files[k].hash != hash,
        at < files.len() ==> files[at].hash == hash,
    ensures
        position_of(files, hash) == at,
    decreases files.len(),
{
    if files.len() > 0 && at > 0 {
        let rest = files.drop_first();
        assert forall|k: int| 0 <= k < at - 1 implies rest[k].hash != hash by {
            assert(rest[k] == files[k + 1]);
        }
        lemma_position_of(rest, hash, at - 1);
    }
}

/// What `position_of` returns is in range, points at an entry with the hash
/// where it is an index, and no earlier entry has the hash.
pub proof fn lemma_position_of_is_first(files: Seq<FileEntryView>, hash: Seq<char>)
    ensures
        0 <= position_of(files, hash) <= files.len(),
        position_of(files, hash) < files.len() ==> files[position_of(files, hash)].hash == hash,
        forall|k: int| 0 <= k < position_of(files, hash) ==> files[k].hash != hash,
    decreases files.len(),
{
    if files.len() > 0 && files[0].hash != hash {
        let rest = files.drop_first();
        lemma_position_of_is_first(rest, hash);
        assert forall|k: int| 0 <= k < position_of(files, hash) implies files[k].hash != hash by {
            if k > 0 {
                assert(rest[k - 1] == files[k]);
            }
        }
    }
}

/// `first_eligible` is the first index whose entry may be tried.
pub proof fn lemma_first_eligible(queue: Seq<RecoverEntryView>, now: int, at: int)
    requires
        0 <= at <= queue.len(),
        forall|k: int| 0 <= k < at ==> !queue[k].waited_enough_at(now),
        at < queue.len() ==> queue[at].waited_enough_at(now),
    ensures
        first_eligible(queue, now) == at,
    decreases queue.len(),
{
    if queue.len() > 0 && at > 0 {
        let rest = queue.drop_first();
        assert forall|k: int| 0 <= k < at - 1 implies !rest[k].waited_enough_at(now) by {
            assert(rest[k] == queue[k + 1]);
        }
        lemma_first_eligible(rest, now, at - 1);
    }
}

/// Indexing an entry keeps the hashes of the list distinct.
pub proof fn lemma_put_entry_distinct(files: Seq<FileEntryView>, entry: FileEntryView)
    requires
        distinct_hashes(files),
    ensures
        distinct_hashes(put_entry(files, entry)),
{
    lemma_position_of_is_first(files, entry.hash);
}

/// Every hash that the inventory lists is held, and in a well-formed
/// inventory it is the hash of the entry at its place in the list.
pub proof fn lemma_hashes_are_held(store: FileStoreView, i: int)
    requires
        0 <= i < store.hashes().len(),
    ensures
        store.holds(store.hashes()[i]),
        store.wf() ==> position_of(store.files, store.hashes()[i]) == i,
{
    lemma_position_of_is_first(store.files, store.files[i].hash);
    if store.wf() {
        let at = position_of(store.files, store.files[i].hash);
        if at < i {
            assert(store.files[at].hash != store.files[i].hash);
        }
    }
}

/// An inventory that is written out and loaded again has the same entries
/// in the same order: indexing the entries of a well-formed index one after
/// the other, from nothing, gives that index.
pub proof fn lemma_reload_keeps_index(files: Seq<FileEntryView>)
    requires
        distinct_hashes(files),
    ensures
        index_all(Seq::empty(), files) == files,
    decreases files.len(),
{
    if files.len() == 0 {
        assert(files =~= Seq::empty());
    } else {
        let init = files.drop_last();
        assert(distinct_hashes(init)) by {
            assert forall|i: int, j: int| 0 <= i < j < init.len() implies init[i].hash
                != init[j].hash by {
                assert(init[i] == files[i] && init[j] == files[j]);
            }
        }
        lemma_reload_keeps_index(init);
        assert forall|k: int| 0 <= k < init.len() implies init[k].hash != files.last().hash by {
            assert(init[k] == files[k]);
        }
        lemma_position_of(init, files.last().hash, init.len() as int);
        assert(init.push(files.last()) =~= files);
    }
}

/// A request to recover a file that the inventory holds ends among the
/// rejected hashes.
pub proof fn lemma_held_request_is_rejected(
    files: Seq<FileEntryView>,
    entries: Seq<RecoverEntryView>,
    i: int,
)
    requires
        0 <= i < entries.len(),
        position_of(files, entries[i].hash) < files.len(),
    ensures
        held_hashes(files, entries).contains(entries[i].hash),
    decreases entries.len(),
{
    let init = entries.drop_last();
    if i == entries.len() - 1 {
        let rejected = held_hashes(files, entries);
        assert(rejected == held_hashes(files, init).push(entries[i].hash));
        assert(rejected[rejected.len() - 1] == entries[i].hash);
    } else {
        assert(init[i] == entries[i]);
        lemma_held_request_is_rejected(files, init, i);
        let before = held_hashes(files, init);
        let at = choose|k: int| 0 <= k < before.len() && before[k] == entries[i].hash;
        if position_of(files, entries.last().hash) < files.len() {
            assert(held_hashes(files, entries)[at] == entries[i].hash);
        }
    }
}

/// No request to recover a file that the inventory holds ends in the
/// recover queue.
pub proof fn lemma_queued_requests_are_unheld(
    files: Seq<FileEntryView>,
    entries: Seq<RecoverEntryView>,
    j: int,
)
    requires
        0 <= j < unheld(files, entries).len(),
    ensures
        position_of(files, unheld(files, entries)[j].hash) >= files.len(),
        entries.contains(unheld(files, entries)[j]),
    decreases entries.len(),
{
    if entries.len() > 0 {
        let init = entries.drop_last();
        let before = unheld(files, init);
        if j < before.len() {
            lemma_queued_requests_are_unheld(files, init, j);
            let k = choose|k: int| 0 <= k < init.len() && init[k] == before[j];
            assert(entries[k] == before[j]);
        } else {
            assert(unheld(files, entries)[j] == entries.last());
            assert(entries[entries.len() - 1] == entries.last());
        }
    }
}

/// The inventory of a storage node.
pub struct FileStore {
    path: String,
    files_to_sync: Vec<RecoverEntry>,
    files_to_distribute: Vec<String>,
    files: Vec<FileEntry>,
    capacity: u64,
    hashes_to_reject: Vec<String>,
    new_hashes: Vec<String>,
}

impl View for FileStore {
    type V = FileStoreView;

    closed spec fn view(&self) -> FileStoreView {
        FileStoreView {
            path: self.path@,
            files_to_sync: recover_views(self.files_to_sync@),
            files_to_distribute: views(self.files_to_distribute@),
            files: entry_views(self.files@),
            capacity: self.capacity,
            hashes_to_reject: views(self.hashes_to_reject@),
            new_hashes: views(self.new_hashes@),
        }
    }
}

impl FileStore {
    /// The index of the first entry with the hash, or the number of entries.
    fn find(&self, key: &String) -> (at: usize)
        ensures
            at == position_of(self@.files, key@),
            at <= self.files@.len(),
    {
        let mut i: usize = 0;
        while i < self.files.len()
            invariant
                i <= self.files.len(),
                forall|k: int| 0 <= k < i ==> self@.files[k].hash != key@,
            decreases self.files.len() - i,
        {
            if self.files[i].hash == *key {
                proof {
                    lemma_position_of(self@.files, key@, i as int);
                }
                return i;
            }
            i += 1;
        }
        proof {
            lemma_position_of(self@.files, key@, i as int);
        }
        i
    }

    /// Indexes one entry, in the place of the entry with its hash where the
    /// inventory holds one.
    fn put(&mut self, entry: FileEntry)
        requires
            old(self)@.wf(),
        ensures
            final(self)@ == (FileStoreView { files: put_entry(old(self)@.files, entry@), ..old(self)@ }),
            final(self)@.wf(),
    {
        let at = self.find(&entry.hash);
        proof {
            lemma_put_entry_distinct(self@.files, entry@);
        }
        if at < self.files.len() {
            self.files.set(at, entry);
            assert(self@.files =~= put_entry(old(self)@.files, entry@));
        } else {
            self.files.push(entry);
            assert(self@.files =~= put_entry(old(self)@.files, entry@));
        }
    }
}


/// The operations of the inventory.
pub trait FileStoreFunc: Sized + View<V = FileStoreView> {
    /// An inventory over the state directory `path` with the given quota,
    /// its index loaded from `files`, its queues and lists empty.
    fn new(capacity: u64, path: &str, files: Vec<FileEntry>) -> (store: FileStore)
        ensures
            store@ == (FileStoreView {
                path: path@,
                files_to_sync: Seq::empty(),
                files_to_distribute: Seq::empty(),
                files: index_all(Seq::empty(), entry_views(files@)),
                capacity,
                hashes_to_reject: Seq::empty(),
                new_hashes: Seq::empty(),
            }),
            store@.wf(),
    ;

    /// The entry of the file with the given hash, if the inventory holds it.
    fn get_file(&self, hash: &str) -> (entry: Option<&FileEntry>)
        ensures
            entry is Some == self@.holds(hash@),
            entry is Some ==> entry->0@ == self@.files[position_of(self@.files, hash@)],
    ;

    /// Where the bytes of the file with the given hash are to be written.
    fn file_path(&self, hash: &str) -> (path: String)
        ensures
            path@ == self@.file_path(hash@),
    ;

    /// Indexes the file with the given hash, whose bytes lie at
    /// `file_path(hash)`. An entry with the same hash is replaced.
    fn save_file(&mut self, hash: &str, content_type: &str, file_name: &str)
        requires
            old(self)@.wf(),
        ensures
            final(self)@ == (FileStoreView {
                files: put_entry(
                    old(self)@.files,
                    FileEntryView {
                        hash: hash@,
                        file_name: file_name@,
                        content_type: content_type@,
                        path: old(self)@.file_path(hash@),
                    },
                ),
                ..old(self)@
            }),
            final(self)@.wf(),
            final(self)@.holds(hash@),
    ;

    /// Takes the file with the given hash out of the index, if it is there.
    fn remove_file(&mut self, hash: &str)
        requires
            old(self)@.wf(),
        ensures
            final(self)@ == (FileStoreView {
                files: if old(self)@.holds(hash@) {
                    old(self)@.files.remove(position_of(old(self)@.files, hash@))
                } else {
                    old(self)@.files
                },
                ..old(self)@
            }),
            final(self)@.wf(),
            !final(self)@.holds(hash@),
    ;

    /// Queues each entry for recovery, in order; the hash of an entry whose
    /// file the inventory already holds goes to the rejected hashes instead.
    fn insert_files_to_recover(&mut self, entries: Vec<RecoverEntry>)
        requires
            old(self)@.wf(),
        ensures
            final(self)@ == (FileStoreView {
                files_to_sync: old(self)@.files_to_sync + unheld(
                    old(self)@.files,
                    recover_views(entries@),
                ),
                hashes_to_reject: old(self)@.hashes_to_reject + held_hashes(
                    old(self)@.files,
                    recover_views(entries@),
                ),
                ..old(self)@
            }),
            final(self)@.wf(),
    ;

    /// Takes the first entry that may be tried at the time `now` out of the
    /// recover queue. The entries before it stay where they are.
    fn next_file_to_recover_at(&mut self, now: i64) -> (entry: Option<RecoverEntry>)
        requires
            old(self)@.wf(),
        ensures
            (recover_view(entry), final(self)@) == old(self)@.take_eligible(now as int),
            entry is Some ==> entry->0@.waited_enough_at(now as int),
            final(self)@.wf(),
    ;

    /// Takes the first entry that may be tried now, by the system clock, out
    /// of the recover queue.
    fn next_file_to_recover(&mut self) -> (entry: Option<RecoverEntry>)
        requires
            old(self)@.wf(),
        ensures
            exists|now: i64|
                {
                    &&& #[trigger] old(self)@.take_eligible(now as int) == (
                        recover_view(entry),
                        final(self)@,
                    )
                    &&& entry is Some ==> entry->0@.waited_enough_at(now as int)
                },
            final(self)@.wf(),
    ;

    /// Queues a hash for distribution, behind those already queued.
    fn insert_file_to_distribute(&mut self, hash: &str)
        requires
            old(self)@.wf(),
        ensures
            final(self)@ == (FileStoreView {
                files_to_distribute: old(self)@.files_to_distribute.push(hash@),
                ..old(self)@
            }),
            final(self)@.wf(),
    ;

    /// Takes the oldest hash out of the distribution queue.
    fn next_file_to_distribute(&mut self) -> (hash: Option<String>)
        requires
            old(self)@.wf(),
        ensures
            hash is Some == (old(self)@.files_to_distribute.len() > 0),
            hash is Some ==> hash->0@ == old(self)@.files_to_distribute[0] && final(self)@ == (
            FileStoreView {
                files_to_distribute: old(self)@.files_to_distribute.drop_first(),
                ..old(self)@
            }),
            hash is None ==> final(self)@ == old(self)@,
            final(self)@.wf(),
    ;

    /// The hashes of all indexed files, in the order of the index.
    fn hashes(&self) -> (hashes: Vec<String>)
        ensures
            views(hashes@) == self@.hashes(),
    ;

    /// Copies of all indexed entries, in the order of the index.
    fn entries(&self) -> (entries: Vec<FileEntry>)
        ensures
            entry_views(entries@) == self@.files,
    ;

    /// The quota that is left when the indexed files have the given sizes
    /// on disk: the quota less their sum, and zero where the sum exceeds it.
    fn capacity_left(&self, sizes: &Vec<u64>) -> (left: u64)
        ensures
            left == self@.capacity_left(total_size(sizes@)),
            left <= self@.capacity,
    ;

    /// Notes a hash for the next ping as rejected.
    fn reject_hash(&mut self, hash: &str)
        requires
            old(self)@.wf(),
        ensures
            final(self)@ == (FileStoreView {
                hashes_to_reject: old(self)@.hashes_to_reject.push(hash@),
                ..old(self)@
            }),
            final(self)@.wf(),
    ;

    /// The hashes rejected since the last ping, oldest first.
    fn rejected_hashes(&self) -> (hashes: Vec<String>)
        ensures
            views(hashes@) == self@.hashes_to_reject,
    ;

    /// Forgets the rejected hashes.
    fn clear_rejected_hashes(&mut self)
        requires
            old(self)@.wf(),
        ensures
            final(self)@ == (FileStoreView { hashes_to_reject: Seq::empty(), ..old(self)@ }),
            final(self)@.wf(),
    ;

    /// The hashes stored since the last ping, oldest first.
    fn uploaded_hashes(&self) -> (hashes: Vec<String>)
        ensures
            views(hashes@) == self@.new_hashes,
    ;

    /// Notes a hash for the next ping as newly stored.
    fn add_hash_to_uploaded_hashes(&mut self, hash: &str)
        requires
            old(self)@.wf(),
        ensures
            final(self)@ == (FileStoreView {
                new_hashes: old(self)@.new_hashes.push(hash@),
                ..old(self)@
            }),
            final(self)@.wf(),
    ;

    /// Forgets the newly stored hashes.
    fn clear_uploaded_hashes(&mut self)
        requires
            old(self)@.wf(),
        ensures
            final(self)@ == (FileStoreView { new_hashes: Seq::empty(), ..old(self)@ }),
            final(self)@.wf(),
    ;
}

impl FileStoreFunc for FileStore {
    fn new(capacity: u64, path: &str, files: Vec<FileEntry>) -> (store: FileStore) {
        let mut store = FileStore {
            path: String::from_str(path),
            files_to_sync: Vec::new(),
            files_to_distribute: Vec::new(),
            files: Vec::new(),
            capacity,
            hashes_to_reject: Vec::new(),
            new_hashes: Vec::new(),
        };
        assert(store@.files =~= Seq::empty());
        assert(store@.files_to_sync =~= Seq::empty());
        assert(store@.files_to_distribute =~= Seq::empty());
        assert(store@.hashes_to_reject =~= Seq::empty());
        assert(store@.new_hashes =~= Seq::empty());
        let ghost start = store@;
        let mut i: usize = 0;
        while i < files.len()
            invariant
                i <= files.len(),
                store@.wf(),
                store@ == (FileStoreView {
                    files: index_all(Seq::empty(), entry_views(files@).take(i as int)),
                    ..start
                }),
            decreases files.len() - i,
        {
            let entry = files[i].clone();
            proof {
                let loaded = entry_views(files@);
                assert(loaded.take(i + 1).drop_last() =~= loaded.take(i as int));
                assert(loaded.take(i + 1).last() == files@[i as int]@);
            }
            store.put(entry);
            i += 1;
        }
        assert(entry_views(files@).take(i as int) =~= entry_views(files@));
        store
    }

    fn get_file(&self, hash: &str) -> (entry: Option<&FileEntry>) {
        let key = String::from_str(hash);
        let at = self.find(&key);
        if at < self.files.len() {
            Some(&self.files[at])
        } else {
            None
        }
    }

    fn file_path(&self, hash: &str) -> (path: String) {
        join3(self.path.as_str(), "/files/", hash)
    }

    fn save_file(&mut self, hash: &str, content_type: &str, file_name: &str) {
        let entry = FileEntry {
            hash: String::from_str(hash),
            file_name: String::from_str(file_name),
            content_type: String::from_str(content_type),
            path: self.file_path(hash),
        };
        self.put(entry);
        proof {
            lemma_position_of_is_first(old(self)@.files, hash@);
            let at = position_of(old(self)@.files, hash@);
            lemma_position_of(self@.files, hash@, at);
        }
    }

    fn remove_file(&mut self, hash: &str) {
        let key = String::from_str(hash);
        let at = self.find(&key);
        proof {
            lemma_position_of_is_first(self@.files, hash@);
        }
        if at < self.files.len() {
            self.files.remove(at);
            assert(self@.files =~= old(self)@.files.remove(at as int));
        }
        proof {
            lemma_position_of(self@.files, hash@, self@.files.len() as int);
        }
    }

    fn insert_files_to_recover(&mut self, entries: Vec<RecoverEntry>) {
        let ghost all = recover_views(entries@);
        assert(all.take(0) =~= Seq::empty());
        assert(self@.files_to_sync + Seq::<RecoverEntryView>::empty() =~= self@.files_to_sync);
        assert(self@.hashes_to_reject + Seq::<Seq<char>>::empty() =~= self@.hashes_to_reject);
        let mut i: usize = 0;
        while i < entries.len()
            invariant
                i <= entries.len(),
                all == recover_views(entries@),
                self@.wf(),
                self@ == (FileStoreView {
                    files_to_sync: old(self)@.files_to_sync + unheld(
                        old(self)@.files,
                        all.take(i as int),
                    ),
                    hashes_to_reject: old(self)@.hashes_to_reject + held_hashes(
                        old(self)@.files,
                        all.take(i as int),
                    ),
                    ..old(self)@
                }),
            decreases entries.len() - i,
        {
            let entry = RecoverEntry {
                hash: entries[i].hash.clone(),
                last_checked: entries[i].last_checked,
            };
            proof {
                assert(entry@ == all[i as int]);
                assert(all.take(i + 1).drop_last() =~= all.take(i as int));
                assert(all.take(i + 1).last() == entry@);
            }
            let at = self.find(&entry.hash);
            let ghost before = self@;
            let ghost files = old(self)@.files;
            let ghost prefix = all.take(i as int);
            let ghost next = all.take(i + 1);
            proof {
                assert(before.files == files);
                assert(next.len() > 0);
                assert(next.drop_last() == prefix);
                assert(next.last().hash == entry.hash@);
            }
            if at < self.files.len() {
                self.hashes_to_reject.push(entry.hash);
                proof {
                    assert(held_hashes(files, next) == held_hashes(files, prefix).push(
                        entry@.hash,
                    ));
                    assert(unheld(files, next) == unheld(files, prefix));
                    assert(self@.hashes_to_reject =~= before.hashes_to_reject.push(entry@.hash));
                    assert(self@.hashes_to_reject =~= old(self)@.hashes_to_reject + held_hashes(
                        files,
                        next,
                    ));
                }
            } else {
                self.files_to_sync.push(entry);
                proof {
                    assert(unheld(files, next) == unheld(files, prefix).push(entry@));
                    assert(held_hashes(files, next) == held_hashes(files, prefix));
                    assert(self@.files_to_sync =~= before.files_to_sync.push(entry@));
                    assert(self@.files_to_sync =~= old(self)@.files_to_sync + unheld(
                        files,
                        next,
                    ));
                }
            }
            i += 1;
        }
        assert(all.take(i as int) =~= all);
    }

    fn next_file_to_recover_at(&mut self, now: i64) -> (entry: Option<RecoverEntry>) {
        let mut i: usize = 0;
        while i < self.files_to_sync.len()
            invariant
                i <= self.files_to_sync.len(),
                *self == *old(self),
                old(self)@.wf(),
                forall|k: int| 0 <= k < i ==> !self@.files_to_sync[k].waited_enough_at(now as int),
            decreases self.files_to_sync.len() - i,
        {
            if self.files_to_sync[i].waited_enough_at(now) {
                proof {
                    lemma_first_eligible(self@.files_to_sync, now as int, i as int);
                }
                let entry = self.files_to_sync.remove(i);
                assert(self@.files_to_sync =~= old(self)@.files_to_sync.remove(i as int));
                return Some(entry);
            }
            i += 1;
        }
        proof {
            lemma_first_eligible(self@.files_to_sync, now as int, i as int);
        }
        None
    }

    fn next_file_to_recover(&mut self) -> (entry: Option<RecoverEntry>) {
        let now = unix_now();
        let entry = self.next_file_to_recover_at(now);
        assert(old(self)@.take_eligible(now as int) == (recover_view(entry), self@));
        entry
    }

    fn insert_file_to_distribute(&mut self, hash: &str) {
        self.files_to_distribute.push(String::from_str(hash));
        assert(self@.files_to_distribute =~= old(self)@.files_to_distribute.push(hash@));
    }

    fn next_file_to_distribute(&mut self) -> (hash: Option<String>) {
        if self.files_to_distribute.len() == 0 {
            return None;
        }
        let hash = self.files_to_distribute.remove(0);
        assert(self@.files_to_distribute =~= old(self)@.files_to_distribute.drop_first());
        Some(hash)
    }

    fn hashes(&self) -> (hashes: Vec<String>) {
        let mut out: Vec<String> = Vec::new();
        let mut i: usize = 0;
        while i < self.files.len()
            invariant
                i <= self.files.len(),
                out@.len() == i,
                forall|k: int| 0 <= k < i ==> out@[k]@ == self.files@[k].hash@,
            decreases self.files.len() - i,
        {
            out.push(self.files[i].hash.clone());
            i += 1;
        }
        assert(views(out@) =~= self@.hashes());
        out
    }

    fn entries(&self) -> (entries: Vec<FileEntry>) {
        let mut out: Vec<FileEntry> = Vec::new();
        let mut i: usize = 0;
        while i < self.files.len()
            invariant
                i <= self.files.len(),
                out@.len() == i,
                forall|k: int| 0 <= k < i ==> out@[k]@ == self.files@[k]@,
            decreases self.files.len() - i,
        {
            out.push(self.files[i].clone());
            i += 1;
        }
        assert(entry_views(out@) =~= self@.files);
        out
    }

    fn capacity_left(&self, sizes: &Vec<u64>) -> (left: u64) {
        let mut left: u64 = self.capacity;
        let mut i: usize = 0;
        assert(sizes@.take(0) =~= Seq::empty());
        while i < sizes.len()
            invariant
                i <= sizes.len(),
                left == self@.capacity_left(total_size(sizes@.take(i as int))),
                total_size(sizes@.take(i as int)) >= 0,
            decreases sizes.len() - i,
        {
            proof {
                assert(sizes@.take(i + 1).drop_last() =~= sizes@.take(i as int));
            }
            if sizes[i] > left {
                left = 0;
            } else {
                left = left - sizes[i];
            }
            i += 1;
        }
        assert(sizes@.take(i as int) =~= sizes@);
        left
    }

    fn reject_hash(&mut self, hash: &str) {
        self.hashes_to_reject.push(String::from_str(hash));
        assert(self@.hashes_to_reject =~= old(self)@.hashes_to_reject.push(hash@));
    }

    fn rejected_hashes(&self) -> (hashes: Vec<String>) {
        clone_strings(&self.hashes_to_reject)
    }

    fn clear_rejected_hashes(&mut self) {
        self.hashes_to_reject.clear();
        assert(self@.hashes_to_reject =~= Seq::empty());
    }

    fn uploaded_hashes(&self) -> (hashes: Vec<String>) {
        clone_strings(&self.new_hashes)
    }

    fn add_hash_to_uploaded_hashes(&mut self, hash: &str) {
        self.new_hashes.push(String::from_str(hash));
        assert(self@.new_hashes =~= old(self)@.new_hashes.push(hash@));
    }

    fn clear_uploaded_hashes(&mut self) {
        self.new_hashes.clear();
        assert(self@.new_hashes =~= Seq::empty());
    }
}

} // verus!
