//! A table of string-keyed reader/writer locks: any number of concurrent
//! readers, or one exclusive writer, never both, per key. Entries are
//! created on first use and pruned when the last holder releases, so the
//! table never grows with idle keys. A caller that finds its acquisition
//! disabled retries once the holders release; the table itself never
//! blocks.

use vstd::hash_map::StringHashMap;
use vstd::prelude::*;

verus! {

/// The active holders of one key: concurrent readers, or one writer.
pub struct LockState {
    pub readers: u64,
    pub writer: bool,
}

/// A key admits a new reader while no writer holds it (and the reader
/// count can still grow).
pub open spec fn read_enabled(m: Map<Seq<char>, LockState>, k: Seq<char>) -> bool {
    &&& !(m.contains_key(k) && m[k].writer)
    &&& (m.contains_key(k) ==> m[k].readers < u64::MAX)
}

/// A key admits a writer only while nobody holds it at all.
pub open spec fn write_enabled(m: Map<Seq<char>, LockState>, k: Seq<char>) -> bool {
    !m.contains_key(k)
}

/// The table after a reader acquires the key.
pub open spec fn after_read_acquire(m: Map<Seq<char>, LockState>, k: Seq<char>) -> Map<
    Seq<char>,
    LockState,
> {
    if m.contains_key(k) {
        m.insert(k, LockState { readers: (m[k].readers + 1) as u64, writer: m[k].writer })
    } else {
        m.insert(k, LockState { readers: 1, writer: false })
    }
}

/// The table after a reader releases the key, with pruning on last
/// release.
pub open spec fn after_read_release(m: Map<Seq<char>, LockState>, k: Seq<char>) -> Map<
    Seq<char>,
    LockState,
> {
    if m[k].readers == 1 && !m[k].writer {
        m.remove(k)
    } else {
        m.insert(k, LockState { readers: (m[k].readers - 1) as u64, writer: m[k].writer })
    }
}

pub struct InMemoryRwLock {
    pub locks: StringHashMap<LockState>,
}

impl InMemoryRwLock {
    /// Every entry has at least one active holder, and a writer excludes
    /// all readers.
    pub open spec fn wf(&self) -> bool {
        forall|k: Seq<char>|
            #[trigger] self.locks@.contains_key(k) ==> (self.locks@[k].readers > 0
                || self.locks@[k].writer) && !(self.locks@[k].readers > 0 && self.locks@[k].writer)
    }

    pub fn new() -> (r: Self)
        ensures
            r.wf(),
            r.locks@ == Map::<Seq<char>, LockState>::empty(),
    {
        InMemoryRwLock { locks: StringHashMap::new() }
    }

    /// Acquires a read hold when no writer holds the key; reports whether
    /// it succeeded. Readers never exclude one another.
    pub fn try_read_lock(&mut self, key: &str) -> (r: bool)
        requires
            old(self).wf(),
        ensures
            final(self).wf(),
            r == read_enabled(old(self).locks@, key@),
            r ==> final(self).locks@ == after_read_acquire(old(self).locks@, key@),
            !r ==> final(self).locks@ == old(self).locks@,
    {
        match self.locks.get(key) {
            Some(st) => {
                if st.writer {
                    return false;
                }
                if st.readers == u64::MAX {
                    return false;
                }
                let next = LockState { readers: st.readers + 1, writer: false };
                self.locks.insert(String::from_str(key), next);
                true
            },
            None => {
                self.locks.insert(String::from_str(key), LockState { readers: 1, writer: false });
                true
            },
        }
    }

    /// Releases one read hold; the entry is pruned when the last holder
    /// leaves.
    pub fn release_read_lock(&mut self, key: &str)
        requires
            old(self).wf(),
            old(self).locks@.contains_key(key@),
            old(self).locks@[key@].readers > 0,
        ensures
            final(self).wf(),
            final(self).locks@ == after_read_release(old(self).locks@, key@),
    {
        let st = match self.locks.get(key) {
            Some(st) => LockState { readers: st.readers, writer: st.writer },
            None => LockState { readers: 0, writer: false },
        };
        if st.readers == 1 && !st.writer {
            self.locks.remove(key);
        } else {
            self.locks.insert(
                String::from_str(key),
                LockState { readers: st.readers - 1, writer: st.writer },
            );
        }
    }

    /// Acquires the exclusive write hold when nobody holds the key;
    /// reports whether it succeeded. A writer waits for every current
    /// reader, and keeps later readers out until it releases.
    pub fn try_write_lock(&mut self, key: &str) -> (r: bool)
        requires
            old(self).wf(),
        ensures
            final(self).wf(),
            r == write_enabled(old(self).locks@, key@),
            r ==> final(self).locks@ == old(self).locks@.insert(
                key@,
                LockState { readers: 0, writer: true },
            ),
            !r ==> final(self).locks@ == old(self).locks@,
    {
        if self.locks.contains_key(key) {
            return false;
        }
        self.locks.insert(String::from_str(key), LockState { readers: 0, writer: true });
        true
    }

    /// Releases the write hold and prunes the entry.
    pub fn release_write_lock(&mut self, key: &str)
        requires
            old(self).wf(),
            old(self).locks@.contains_key(key@),
            old(self).locks@[key@].writer,
        ensures
            final(self).wf(),
            final(self).locks@ == old(self).locks@.remove(key@),
    {
        self.locks.remove(key);
    }
}

/// Concurrent readers proceed without mutual blocking: while only
/// readers hold a key, one more reader is always admitted, both before
/// and after another reader's acquisition.
pub proof fn lemma_readers_do_not_block_readers(m: Map<Seq<char>, LockState>, k: Seq<char>)
    requires
        m.contains_key(k) ==> !m[k].writer && m[k].readers + 1 < u64::MAX,
    ensures
        read_enabled(m, k),
        read_enabled(after_read_acquire(m, k), k),
{
}

/// A writer is kept out exactly until every current reader releases:
/// while a reader holds the key the write acquisition is disabled, and
/// once the last reader releases it is enabled.
pub proof fn lemma_writer_waits_for_readers(m: Map<Seq<char>, LockState>, k: Seq<char>)
    requires
        m.contains_key(k),
        m[k].readers == 1,
        !m[k].writer,
    ensures
        !write_enabled(m, k),
        write_enabled(after_read_release(m, k), k),
{
}

/// While a writer holds the key, later readers are kept out; they are
/// admitted once the writer releases.
pub proof fn lemma_readers_wait_for_writer(m: Map<Seq<char>, LockState>, k: Seq<char>)
    requires
        m.contains_key(k),
        m[k].writer,
    ensures
        !read_enabled(m, k),
        read_enabled(m.remove(k), k),
{
}

} // verus!
